//! Records exchanged with the protocol engine: profiles, chats, messages and
//! interactive (flex) message parts.

use vstd::prelude::*;

verus! {

/// The signed-in account.
#[derive(Clone, Debug)]
pub struct Profile {
    pub mid: String,
    pub display_name: String,
    pub status_message: String,
    pub picture_path: Option<String>,
    pub avatar_path: Option<String>,
    pub picture_url: Option<String>,
}

/// One conversation in the chat list (direct, group or OpenChat).
#[derive(Clone, Debug)]
pub struct ChatInfo {
    pub mid: String,
    pub name: String,
    pub kind: String,
    pub avatar_path: Option<String>,
    /// Milliseconds since the epoch of the latest activity.
    pub last_activity: i64,
    pub unread: i64,
    pub preview: String,
    pub muted: bool,
    /// Pinned to the top of the list in this client.
    pub pinned: bool,
}

/// A button of a flex message.
#[derive(Clone, Debug)]
pub struct FlexAction {
    pub label: String,
    pub kind: String,
    pub data: Option<String>,
    pub uri: Option<String>,
}

/// The readable parts of a flex (rich) message.
#[derive(Clone, Debug)]
pub struct FlexInfo {
    pub alt_text: String,
    pub texts: Vec<String>,
    pub actions: Vec<FlexAction>,
}

/// One message of a conversation.
#[derive(Clone, Debug)]
pub struct MessageInfo {
    pub id: String,
    pub text: String,
    pub from: String,
    pub to: String,
    /// The conversation the message belongs to, when the engine says so.
    pub chat_mid: String,
    pub sender_name: String,
    pub mine: bool,
    /// Milliseconds since the epoch.
    pub created_time: i64,
    pub content_type: String,
    pub image_path: Option<String>,
    pub image_url: Option<String>,
    pub audio_path: Option<String>,
    pub file_name: Option<String>,
    pub file_path: Option<String>,
    pub duration_ms: Option<i64>,
    pub flex: Option<FlexInfo>,
}

} // verus!
