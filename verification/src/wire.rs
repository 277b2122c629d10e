//! Frames carried on the room broadcast channels and the per-user direct
//! channels. Identifiers are 128-bit values; timestamps are seconds since the
//! Unix epoch.

use vstd::prelude::*;

verus! {

/// Presence of a member inside a room.
#[derive(Clone, Copy, Debug, PartialEq, Eq, Structural)]
pub enum UserStatus {
    Online,
    Offline,
    Typing,
    Idle,
    Joined,
}

/// A chat message as carried on a room's broadcast channel.
#[derive(Clone, Debug)]
pub struct ChatMessage {
    pub message_id: u128,
    pub chat_id: u128,
    pub sender_id: u128,
    pub content: String,
    pub timestamp: u64,
}

/// A bare text reply.
#[derive(Clone, Debug)]
pub struct ChatMessageResponse {
    pub content: String,
}

/// A presence change inside a room.
#[derive(Clone, Copy, Debug)]
pub struct StatusMessage {
    pub chat_id: u128,
    pub user_id: u128,
    pub status: UserStatus,
    pub timestamp: u64,
}

/// A server-side failure reported to the client.
#[derive(Clone, Debug)]
pub struct ErrorMessage {
    pub code: String,
    pub message: String,
}

/// An invitation pushed over the invitee's direct channel.
#[derive(Clone, Debug)]
pub struct InvitationNotification {
    pub invitation_id: u128,
    pub chat_id: u128,
    pub inviter_username: String,
    pub timestamp: u64,
}

/// The tagged union of every frame the server can deliver.
#[derive(Clone, Debug)]
pub enum WebSocketMessage {
    Response(ChatMessageResponse),
    Chat(ChatMessage),
    Status(StatusMessage),
    Error(ErrorMessage),
    Invitation(InvitationNotification),
}

} // verus!
