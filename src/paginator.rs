use vstd::prelude::*;
use crate::conversations::{HistoryResponse, Message, page_messages};

verus! {

/// Error text used when a failed answer carries no error string.
pub const UNKNOWN_API_ERROR: &'static str = "unknown API error";

/// The error reported for a failed answer: its own error string if any.
pub open spec fn api_error_text(error: Option<String>) -> Seq<char> {
    match error {
        Some(e) => e@,
        None => UNKNOWN_API_ERROR@,
    }
}

/// The cursor of the page after `page`, if there is one.
pub open spec fn next_cursor_of(page: HistoryResponse) -> Option<String> {
    match page.response_metadata {
        Some(md) => if md.next_cursor@.len() == 0 {
            None
        } else {
            Some(md.next_cursor)
        },
        None => None,
    }
}

/// Whether `page` is the last one of the channel's history.
pub open spec fn is_last_page(page: HistoryResponse) -> bool {
    next_cursor_of(page) is None
}

/// Where the paging over one channel stands.
#[derive(Clone, Debug)]
pub enum PageState {
    /// The next page is to be asked for, with this cursor (none at first).
    Fetching(Option<String>),
    /// The history is exhausted.
    Done,
}

/// The state after an accepted `page`.
pub open spec fn state_after(page: HistoryResponse) -> PageState {
    match next_cursor_of(page) {
        Some(c) => PageState::Fetching(Some(c)),
        None => PageState::Done,
    }
}

/// Pages through one channel's history, keeping every message in the order
/// the pages brought them.
pub struct Paginator {
    pub state: PageState,
    pub messages: Vec<Message>,
}

/// Error text of a failed answer.
fn error_text(error: Option<String>) -> (r: String)
    ensures
        r@ == api_error_text(error),
{
    match error {
        Some(e) => e,
        None => UNKNOWN_API_ERROR.to_owned(),
    }
}

impl Paginator {
    /// A paginator that has asked for nothing yet.
    pub fn new() -> (r: Paginator)
        ensures
            r.state == PageState::Fetching(None),
            r.messages@ == Seq::<Message>::empty(),
    {
        Paginator { state: PageState::Fetching(None), messages: Vec::new() }
    }

    /// The cursor of the next page to ask for, or `None` once done.
    pub fn next_request(&self) -> (r: Option<Option<String>>)
        ensures
            match self.state {
                PageState::Fetching(c) => r == Some(c),
                PageState::Done => r is None,
            },
    {
        match &self.state {
            PageState::Fetching(c) => Some(c.clone()),
            PageState::Done => None,
        }
    }

    /// Takes in the answer to the request of the current cursor. A failed
    /// answer leaves the paginator unchanged and yields its error text.
    pub fn accept_page(&mut self, page: HistoryResponse) -> (r: Result<(), String>)
        requires
            old(self).state is Fetching,
        ensures
            page.ok <==> r is Ok,
            !page.ok ==> *final(self) == *old(self) && r->Err_0@ == api_error_text(page.error),
            page.ok ==> final(self).messages@ == old(self).messages@ + page_messages(page)
                && final(self).state == state_after(page),
    {
        if !page.ok {
            return Err(error_text(page.error));
        }
        let next = match &page.response_metadata {
            Some(md) => if md.next_cursor.as_str().is_empty() {
                PageState::Done
            } else {
                PageState::Fetching(Some(md.next_cursor.clone()))
            },
            None => PageState::Done,
        };
        match page.messages {
            Some(mut v) => self.messages.append(&mut v),
            None => {},
        }
        self.state = next;
        Ok(())
    }

    /// The messages gathered so far.
    pub fn into_messages(self) -> (r: Vec<Message>)
        ensures
            r@ == self.messages@,
    {
        self.messages
    }
}

/// What feeding `pages` in order to a fresh paginator leads to, each page
/// taken in by `accept_page` while the paginator is still fetching: whether it
/// ends done, how many pages it takes in, and the messages it then holds.
pub open spec fn fed(pages: Seq<HistoryResponse>) -> (bool, nat, Seq<Message>)
    decreases pages.len(),
{
    if pages.len() == 0 {
        (false, 0, Seq::empty())
    } else if is_last_page(pages[0]) {
        (true, 1, page_messages(pages[0]))
    } else {
        let rest = fed(pages.drop_first());
        (rest.0, rest.1 + 1, page_messages(pages[0]) + rest.2)
    }
}

/// The number of messages that `pages` carry together.
pub open spec fn total_size(pages: Seq<HistoryResponse>) -> nat
    decreases pages.len(),
{
    if pages.len() == 0 {
        0
    } else {
        page_messages(pages[0]).len() + total_size(pages.drop_first())
    }
}

/// Paging stops right after the first page whose next cursor is empty or
/// absent, asking for no page after it, and the messages gathered are exactly
/// as many as the pages taken in carry together.
pub proof fn lemma_pagination_stops_at_last_page(pages: Seq<HistoryResponse>)
    ensures
        fed(pages).0 <==> exists|k: int| 0 <= k < pages.len() && is_last_page(#[trigger] pages[k]),
        fed(pages).0 ==> 1 <= fed(pages).1 <= pages.len() && is_last_page(pages[fed(pages).1 - 1]),
        forall|k: int| 0 <= k < fed(pages).1 - 1 ==> !is_last_page(#[trigger] pages[k]),
        !fed(pages).0 ==> fed(pages).1 == pages.len(),
        fed(pages).2.len() == total_size(pages.take(fed(pages).1 as int)),
    decreases pages.len(),
{
    if pages.len() == 0 {
        assert(pages.take(0) =~= Seq::<HistoryResponse>::empty());
    } else if is_last_page(pages[0]) {
        let one = pages.take(1);
        assert(one.drop_first() =~= Seq::<HistoryResponse>::empty());
        assert(total_size(one.drop_first()) == 0);
    } else {
        let rest = pages.drop_first();
        lemma_pagination_stops_at_last_page(rest);
        let n = fed(rest).1 as int;
        assert(pages.take(n + 1 as int).drop_first() =~= rest.take(n as int));
        assert(pages.take(n + 1 as int)[0] == pages[0]);
        if fed(rest).0 {
            let k = choose|k: int| 0 <= k < rest.len() && is_last_page(#[trigger] rest[k]);
            assert(pages[k + 1] == rest[k]);
        }
        if exists|k: int| 0 <= k < pages.len() && is_last_page(#[trigger] pages[k]) {
            let k = choose|k: int| 0 <= k < pages.len() && is_last_page(#[trigger] pages[k]);
            assert(rest[k - 1] == pages[k]);
        }
        assert forall|k: int| 0 <= k < fed(pages).1 - 1 implies !is_last_page(#[trigger] pages[k]) by {
            if k > 0 {
                assert(rest[k - 1] == pages[k]);
            }
        }
        if fed(pages).0 {
            assert(rest[n - 1] == pages[n]);
        }
    }
}

} // verus!
