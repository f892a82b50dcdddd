//! Gatekeeping core for a multi-tenant notes service.
//!
//! Every inbound request passes two independent defenses before any
//! business logic runs: a sliding-window rate limiter and a token-based
//! authentication check.  This crate holds the decision logic of that
//! layer -- token issuance and verification, admission accounting,
//! store sweeping, gate composition -- together with the input
//! validation rules and the error taxonomy that the surrounding
//! service maps onto HTTP responses.

pub mod account;
pub mod config;
pub mod errors;
pub mod gate;
pub mod jwt;
pub mod limiter;
pub mod models;
pub mod notes;
pub mod text;
pub mod validation;
