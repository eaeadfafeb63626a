use vstd::prelude::*;
use crate::conversations::{Message, MessageExport};

verus! {

/// Whether `m` starts a thread whose replies must be fetched.
pub open spec fn is_thread_root(m: Message) -> bool {
    m.reply_count is Some
}

/// No two messages of `s` share a timestamp.
pub open spec fn unique_timestamps(s: Seq<Message>) -> bool {
    forall|i: int, j: int| 0 <= i < s.len() && 0 <= j < s.len() && i != j ==> s[i].ts@ != s[j].ts@
}

/// Whether the replies of `m` are to be fetched: exactly when its reply
/// count is present, whatever its value.
pub fn needs_thread(m: &Message) -> (r: bool)
    ensures
        r == is_thread_root(*m),
{
    m.reply_count.is_some()
}

/// Folds the fetched thread of `root` into its export record.
///
/// A message that is no thread root gets an empty reply list and its
/// `thread` is ignored. For a thread root, `thread` is what the thread call
/// returned: the root first, then the replies oldest first. The root is
/// dropped from it; when the call returned no message at all, there is no
/// record.
pub fn reconcile(root: Message, thread: Option<Vec<Message>>) -> (r: Option<MessageExport>)
    ensures
        !is_thread_root(root) ==> r is Some && r->0.message == root && r->0.replies@.len() == 0,
        is_thread_root(root) ==> match thread {
            Some(v) => if v@.len() > 0 {
                r is Some && r->0.message == root && r->0.replies@ == v@.drop_first()
            } else {
                r is None
            },
            None => r is None,
        },
{
    if root.reply_count.is_none() {
        return Some(MessageExport { message: root, replies: Vec::new() });
    }
    match thread {
        Some(mut v) => {
            if v.len() == 0 {
                None
            } else {
                let _first = v.remove(0);
                Some(MessageExport { message: root, replies: v })
            }
        },
        None => None,
    }
}

/// A reply list built by [`reconcile`] never holds the root itself: when the
/// thread starts with the root and its timestamps are unique, no reply shares
/// the root's timestamp.
pub proof fn lemma_replies_exclude_root(root: Message, thread: Seq<Message>)
    requires
        thread.len() > 0,
        thread[0].ts@ == root.ts@,
        unique_timestamps(thread),
    ensures
        forall|i: int| 0 <= i < thread.drop_first().len() ==> thread.drop_first()[i].ts@ != root.ts@,
{
    assert forall|i: int| 0 <= i < thread.drop_first().len() implies thread.drop_first()[i].ts@ != root.ts@ by {
        assert(thread.drop_first()[i] == thread[i + 1]);
        assert(thread[i + 1].ts@ != thread[0].ts@);
    }
}

} // verus!
