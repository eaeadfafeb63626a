use vstd::prelude::*;
use crate::conversations::{Channel, ChannelExport, Message, MessageExport};
use crate::names::{NameCache, NameOption, all_resolved, author_label, resolved};
use crate::ordering::{sort_by_timestamp, sorted_by_ts};
use crate::timestamp::{format_timestamp, timestamp_text};
use crate::user::UNKNOWN_NAME;

verus! {

/// One transcript entry: `name - time`, then the text, then a blank line;
/// indented by four spaces for a reply.
pub open spec fn entry_text(indent: bool, name: Seq<char>, time: Seq<char>, text: Seq<char>) -> Seq<char> {
    let pad = if indent {
        "    "@
    } else {
        Seq::empty()
    };
    pad + name + " - "@ + time + "\n"@ + pad + text + "\n\n"@
}

/// The transcript entry of the message `m`.
pub open spec fn message_text(indent: bool, m: Message, mode: NameOption, names: Map<Seq<char>, Seq<char>>) -> Seq<char> {
    entry_text(indent, author_label(mode, m.user, names), timestamp_text(m.ts@), m.text@)
}

/// The indented entries of the replies `rs`, in their order.
pub open spec fn replies_text(rs: Seq<Message>, mode: NameOption, names: Map<Seq<char>, Seq<char>>) -> Seq<char>
    decreases rs.len(),
{
    if rs.len() == 0 {
        Seq::empty()
    } else {
        replies_text(rs.drop_last(), mode, names) + message_text(true, rs.last(), mode, names)
    }
}

/// The entries of one record: its root, then its replies.
pub open spec fn export_text(e: MessageExport, mode: NameOption, names: Map<Seq<char>, Seq<char>>) -> Seq<char> {
    message_text(false, e.message, mode, names) + replies_text(e.replies@, mode, names)
}

/// The transcript of a channel's records, in their order.
pub open spec fn transcript_text(es: Seq<MessageExport>, mode: NameOption, names: Map<Seq<char>, Seq<char>>) -> Seq<char>
    decreases es.len(),
{
    if es.len() == 0 {
        Seq::empty()
    } else {
        transcript_text(es.drop_last(), mode, names) + export_text(es.last(), mode, names)
    }
}

/// The name shown for the author `user`.
fn author_name(mode: NameOption, user: &Option<String>, cache: &NameCache) -> (r: String)
    requires
        cache.wf(),
        resolved(mode, *user, cache@),
    ensures
        r@ == author_label(mode, *user, cache@),
{
    match user {
        Some(id) => match mode {
            NameOption::UserId => id.clone(),
            NameOption::DisplayName => match cache.get(id) {
                Some(name) => name,
                None => UNKNOWN_NAME.to_owned(),
            },
        },
        None => UNKNOWN_NAME.to_owned(),
    }
}

fn push_message(out: &mut String, indent: bool, m: &Message, mode: NameOption, cache: &NameCache)
    requires
        cache.wf(),
        resolved(mode, m.user, cache@),
    ensures
        final(out)@ == old(out)@ + message_text(indent, *m, mode, cache@),
{
    let name = author_name(mode, &m.user, cache);
    let time = format_timestamp(m.ts.as_str());
    if indent {
        out.append("    ");
    }
    out.append(name.as_str());
    out.append(" - ");
    out.append(time.as_str());
    out.append("\n");
    if indent {
        out.append("    ");
    }
    out.append(m.text.as_str());
    out.append("\n\n");
    assert(out@ =~= old(out)@ + message_text(indent, *m, mode, cache@));
}

/// Renders the transcript of `exports` in their order, naming authors under
/// `mode` from `cache`, which must know every author that needs a name.
pub fn render_transcript(exports: &Vec<MessageExport>, mode: NameOption, cache: &NameCache) -> (r: String)
    requires
        cache.wf(),
        all_resolved(exports@, mode, cache@),
    ensures
        r@ == transcript_text(exports@, mode, cache@),
{
    let mut out = String::new();
    let mut i: usize = 0;
    assert(exports@.take(0) =~= Seq::<MessageExport>::empty());
    while i < exports.len()
        invariant
            i <= exports@.len(),
            cache.wf(),
            all_resolved(exports@, mode, cache@),
            out@ == transcript_text(exports@.take(i as int), mode, cache@),
        decreases exports.len() - i,
    {
        let e = &exports[i];
        assert(exports@[i as int] == *e);
        push_message(&mut out, false, &e.message, mode, cache);
        let ghost head = out@;
        let mut j: usize = 0;
        assert(e.replies@.take(0) =~= Seq::<Message>::empty());
        while j < e.replies.len()
            invariant
                j <= e.replies@.len(),
                cache.wf(),
                forall|q: int| 0 <= q < e.replies@.len() ==> resolved(mode, #[trigger] e.replies@[q].user, cache@),
                out@ == head + replies_text(e.replies@.take(j as int), mode, cache@),
            decreases e.replies.len() - j,
        {
            push_message(&mut out, true, &e.replies[j], mode, cache);
            assert(e.replies@.take(j + 1).drop_last() =~= e.replies@.take(j as int));
            assert(out@ =~= head + replies_text(e.replies@.take(j + 1), mode, cache@));
            j = j + 1;
        }
        assert(e.replies@.take(j as int) =~= e.replies@);
        assert(exports@.take(i + 1).drop_last() =~= exports@.take(i as int));
        assert(out@ =~= transcript_text(exports@.take(i + 1), mode, cache@));
        i = i + 1;
    }
    assert(exports@.take(i as int) =~= exports@);
    out
}

/// The identifier of an author who still needs a name under `mode`, if any.
fn unresolved_author(mode: NameOption, user: &Option<String>, cache: &NameCache) -> (r: Option<String>)
    requires
        cache.wf(),
    ensures
        r is None <==> resolved(mode, *user, cache@),
        r matches Some(id) ==> mode == NameOption::DisplayName && !cache@.contains_key(id@) && *user == Some(id),
{
    match user {
        Some(id) => if mode == NameOption::DisplayName && cache.get(id).is_none() {
            Some(id.clone())
        } else {
            None
        },
        None => None,
    }
}

/// The next author of `exports`, root or reply, whose display name still has
/// to be fetched; `None` once every author can be named.
pub fn next_unresolved(exports: &Vec<MessageExport>, mode: NameOption, cache: &NameCache) -> (r: Option<String>)
    requires
        cache.wf(),
    ensures
        r is None <==> all_resolved(exports@, mode, cache@),
        r matches Some(id) ==> mode == NameOption::DisplayName && !cache@.contains_key(id@),
{
    let mut i: usize = 0;
    while i < exports.len()
        invariant
            i <= exports@.len(),
            cache.wf(),
            forall|k: int| #![trigger exports@[k]] 0 <= k < i ==> {
                &&& resolved(mode, exports@[k].message.user, cache@)
                &&& forall|j: int| 0 <= j < exports@[k].replies@.len() ==> resolved(mode, #[trigger] exports@[k].replies@[j].user, cache@)
            },
        decreases exports.len() - i,
    {
        let e = &exports[i];
        assert(exports@[i as int] == *e);
        let root = unresolved_author(mode, &e.message.user, cache);
        if root.is_some() {
            return root;
        }
        let mut j: usize = 0;
        while j < e.replies.len()
            invariant
                j <= e.replies@.len(),
                i < exports@.len(),
                exports@[i as int] == *e,
                cache.wf(),
                forall|q: int| 0 <= q < j ==> resolved(mode, #[trigger] e.replies@[q].user, cache@),
            decreases e.replies.len() - j,
        {
            let reply = unresolved_author(mode, &e.replies[j].user, cache);
            if reply.is_some() {
                assert(exports@[i as int] == *e);
                assert(!resolved(mode, exports@[i as int].replies@[j as int].user, cache@));
                return reply;
            }
            j = j + 1;
        }
        i = i + 1;
    }
    None
}

/// Builds the export of a channel: its records ordered oldest first by root
/// timestamp.
pub fn assemble(metadata: Channel, records: Vec<MessageExport>) -> (r: ChannelExport)
    ensures
        r.metadata == metadata,
        sorted_by_ts(r.messages@),
        r.messages@.to_multiset() == records@.to_multiset(),
{
    ChannelExport { metadata, messages: sort_by_timestamp(records) }
}

} // verus!
