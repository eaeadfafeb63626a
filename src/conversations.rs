use vstd::prelude::*;

verus! {

/// A channel as listed by the workspace, kept unchanged for the whole run.
#[derive(Clone, Debug)]
pub struct Channel {
    pub id: String,
    pub name: String,
    pub is_channel: bool,
    pub is_group: bool,
    pub is_im: bool,
    pub is_private: bool,
    pub created: i64,
    pub is_archived: bool,
    pub num_members: i64,
}

/// Answer of the channel listing call.
#[derive(Clone, Debug)]
pub struct ListResponse {
    pub ok: bool,
    pub channels: Vec<Channel>,
}

/// One message of a channel or of a thread.
#[derive(Clone, Debug)]
pub struct Message {
    /// Author; absent for bots and system posts.
    pub user: Option<String>,
    /// Timestamp: the message's key within its channel and its sort key.
    pub ts: String,
    pub text: String,
    /// Present exactly when the message starts a thread.
    pub reply_count: Option<i64>,
}

/// Pagination data of a history page.
#[derive(Clone, Debug)]
pub struct ResponseMetadata {
    /// Cursor of the next page; empty when there is none.
    pub next_cursor: String,
}

/// Answer of a history or thread call.
#[derive(Clone, Debug)]
pub struct HistoryResponse {
    pub ok: bool,
    pub error: Option<String>,
    pub messages: Option<Vec<Message>>,
    pub has_more: Option<bool>,
    pub pin_count: Option<i64>,
    pub response_metadata: Option<ResponseMetadata>,
}

/// A thread root together with its replies, oldest first.
#[derive(Clone, Debug)]
pub struct MessageExport {
    pub message: Message,
    pub replies: Vec<Message>,
}

/// Everything exported for one channel.
#[derive(Clone, Debug)]
pub struct ChannelExport {
    pub metadata: Channel,
    pub messages: Vec<MessageExport>,
}

/// The messages a history answer carries, none when the field is absent.
pub open spec fn page_messages(page: HistoryResponse) -> Seq<Message> {
    match page.messages {
        Some(v) => v@,
        None => Seq::empty(),
    }
}

} // verus!
