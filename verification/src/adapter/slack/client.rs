//! What the Slack Web API returns, and the client abstraction the adapter
//! reads it through.

use vstd::prelude::*;

use crate::adapter::error::AdapterError;

verus! {

/// A Slack message or event.
#[derive(Debug, Clone)]
pub struct SlackMessage {
    pub channel_id: String,
    pub channel_name: String,
    pub ts: String,
    pub thread_ts: Option<String>,
    pub user_id: String,
    pub user_name: String,
    pub email: Option<String>,
    pub text: String,
    pub message_type: SlackMessageType,
    pub edited: Option<SlackEdited>,
    pub reactions: Vec<SlackReaction>,
    pub files: Vec<SlackFile>,
    pub reply_count: u32,
    pub reply_users_count: u32,
}

#[derive(Debug, Clone, Copy, PartialEq, Eq, Structural)]
pub enum SlackMessageType {
    Message,
    Edit,
    Delete,
    ReactionAdd,
    ReactionRemove,
    FileShare,
    ChannelJoin,
    ChannelLeave,
}

#[derive(Debug, Clone)]
pub struct SlackEdited {
    pub user: String,
    pub ts: String,
}

#[derive(Debug, Clone)]
pub struct SlackReaction {
    pub name: String,
    pub count: u32,
    pub users: Vec<String>,
}

#[derive(Debug, Clone)]
pub struct SlackFile {
    pub id: String,
    pub name: String,
    pub mimetype: String,
    pub size: u64,
    pub download_url: Option<String>,
    /// Set once the content is stored as a blob.
    pub blob_ref: Option<String>,
}

/// Channel metadata at one instant (`snapshot_at`, microseconds since the
/// Unix epoch).
#[derive(Debug, Clone)]
pub struct SlackChannelSnapshot {
    pub channel_id: String,
    pub channel_name: String,
    pub purpose: Option<String>,
    pub topic: Option<String>,
    pub member_count: u32,
    pub members: Vec<String>,
    pub is_archived: bool,
    pub snapshot_at: i64,
}

/// One page of channel history.
#[derive(Debug, Clone)]
pub struct SlackHistoryPage {
    pub messages: Vec<SlackMessage>,
    pub has_more: bool,
    pub next_cursor: Option<String>,
}

/// The Slack Web API as the adapter uses it.
pub trait SlackClient {
    /// Channel history, page by page.
    fn conversations_history(
        &self,
        channel_id: &str,
        oldest: Option<&str>,
        cursor: Option<&str>,
        limit: u32,
    ) -> Result<SlackHistoryPage, AdapterError>;

    /// The replies of a thread.
    fn conversations_replies(&self, channel_id: &str, thread_ts: &str) -> Result<Vec<SlackMessage>, AdapterError>;

    /// Channel metadata, for snapshots.
    fn conversations_info(&self, channel_id: &str) -> Result<SlackChannelSnapshot, AdapterError>;

    /// The content of a file.
    fn file_download(&self, file: &SlackFile) -> Result<Vec<u8>, AdapterError>;
}

} // verus!
