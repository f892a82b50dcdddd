//! Domain records as the gatekeeping layer sees them.
//!
//! Identifiers are opaque strings and timestamps are seconds since
//! epoch; the storage layer owns the richer representations and
//! converts at the boundary.

use vstd::prelude::*;

verus! {

/// A stored account: the caller identity that the directory lookup
/// resolves a verified subject id to.
#[derive(Debug, Clone)]
pub struct User {
    pub id: String,
    pub email: String,
    pub password_hash: String,
    pub display_name: String,
    pub created_at: i64,
    pub updated_at: i64,
}

/// The outward view of an account: everything but the credential.
#[derive(Debug, Clone)]
pub struct UserResponse {
    pub id: String,
    pub email: String,
    pub display_name: String,
    pub created_at: i64,
}

impl From<User> for UserResponse {
    fn from(user: User) -> (r: UserResponse) {
        UserResponse {
            id: user.id,
            email: user.email,
            display_name: user.display_name,
            created_at: user.created_at,
        }
    }
}

impl vstd::std_specs::convert::FromSpecImpl<User> for UserResponse {
    open spec fn obeys_from_spec() -> bool {
        true
    }

    open spec fn from_spec(user: User) -> UserResponse {
        UserResponse {
            id: user.id,
            email: user.email,
            display_name: user.display_name,
            created_at: user.created_at,
        }
    }
}

pub struct RegisterRequest {
    pub email: String,
    pub password: String,
    pub display_name: String,
}

pub struct LoginRequest {
    pub email: String,
    pub password: String,
}

/// What a successful registration or login returns: the account and
/// a fresh token pair.
pub struct AuthResponse {
    pub user: UserResponse,
    pub access_token: String,
    pub refresh_token: String,
}

pub struct RefreshTokenRequest {
    pub refresh_token: String,
}

#[derive(Debug, Clone)]
pub struct Tag {
    pub id: String,
    pub user_id: String,
    pub name: String,
    pub created_at: i64,
}

#[derive(Debug, Clone)]
pub struct TagResponse {
    pub id: String,
    pub name: String,
    pub note_count: i64,
}

pub struct CreateTagRequest {
    pub name: String,
}

pub struct AddTagToNoteRequest {
    pub tag_names: Vec<String>,
}

#[derive(Debug, Clone)]
pub struct Revision {
    pub id: String,
    pub note_id: String,
    pub content: String,
    pub created_by: String,
    pub created_at: i64,
}

#[derive(Debug, Clone)]
pub struct RevisionResponse {
    pub id: String,
    pub note_id: String,
    pub content: String,
    pub created_by: String,
    pub created_at: i64,
}

impl From<Revision> for RevisionResponse {
    fn from(revision: Revision) -> (r: RevisionResponse) {
        RevisionResponse {
            id: revision.id,
            note_id: revision.note_id,
            content: revision.content,
            created_by: revision.created_by,
            created_at: revision.created_at,
        }
    }
}

impl vstd::std_specs::convert::FromSpecImpl<Revision> for RevisionResponse {
    open spec fn obeys_from_spec() -> bool {
        true
    }

    open spec fn from_spec(revision: Revision) -> RevisionResponse {
        RevisionResponse {
            id: revision.id,
            note_id: revision.note_id,
            content: revision.content,
            created_by: revision.created_by,
            created_at: revision.created_at,
        }
    }
}

pub struct RevisionListResponse {
    pub revisions: Vec<RevisionResponse>,
    pub total: i64,
}

#[derive(Debug, Clone)]
pub struct ActiveSession {
    pub id: String,
    pub user_id: String,
    pub note_id: String,
    pub connection_id: String,
    pub last_active: i64,
    pub created_at: i64,
}

#[derive(Debug, Clone)]
pub struct ActiveUserInfo {
    pub user_id: String,
    pub display_name: String,
    pub connection_id: String,
}

#[derive(Debug, Clone, Copy, PartialEq, Eq, Structural)]
pub enum MessageType {
    Edit,
    CursorMove,
    UserJoined,
    UserLeft,
    Sync,
}

#[derive(Debug, Clone)]
pub struct WebSocketMessage {
    pub message_type: MessageType,
    pub note_id: String,
    pub user_id: String,
    pub content: Option<String>,
    pub timestamp: i64,
}

} // verus!
