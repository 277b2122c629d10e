//! Request payloads and token claims, as plain values. The HTTP layer owns
//! their wire encodings and hands the decoded values in.

use vstd::prelude::*;

verus! {

/// A registration request.
pub struct RegisterData {
    pub username: String,
    pub email: String,
    pub password: String,
}

/// A login request.
pub struct LoginData {
    pub username: String,
    pub password: String,
}

/// The claims carried inside a bearer token: the subject (a rendered user
/// identifier) and the expiry in seconds since the Unix epoch.
pub struct Claims {
    pub sub: String,
    pub exp: u64,
}

/// A create-chat request: an optional name and the usernames to invite.
pub struct CreateChatRequest {
    pub name: Option<String>,
    pub invitees: Option<Vec<String>>,
}

/// The validated core of a create-chat request.
pub struct CreateChatData {
    pub name: Option<String>,
}

/// A send-message request.
pub struct SendMessageRequest {
    pub chat_id: u128,
    pub message: String,
}

/// An invitee's answer to an invitation.
pub struct InvitationResponse {
    pub invitation_id: u128,
    pub accept: bool,
}

/// A request to invite a user into a chat.
pub struct SendInvitationRequest {
    pub chat_id: u128,
    pub username: String,
}

/// A request to decline a chat's invitation.
pub struct DeclineInviteRequest {
    pub chat_id: u128,
}

/// A request to accept a chat's invitation.
pub struct AcceptInviteRequest {
    pub chat_id: u128,
}

} // verus!
