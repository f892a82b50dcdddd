//! Process configuration.
//!
//! The values are plain data here; reading them from the environment
//! is the surrounding binary's concern.

use vstd::prelude::*;

verus! {

#[derive(Debug, Clone)]
pub struct Config {
    pub host: String,
    pub port: u16,
    pub database_url: String,
    pub database_max_connections: u32,
    pub redis_url: String,
    pub jwt_secret: String,
    pub jwt_access_expiration: i64,
    pub jwt_refresh_expiration: i64,
    pub rate_limit_anonymous: u32,
    pub rate_limit_authenticated: u32,
    pub max_note_size: usize,
    pub max_notes_per_user: i64,
    pub max_collaborators_per_note: usize,
}

} // verus!
