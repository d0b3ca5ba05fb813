//! Authentication, session, and role-based authorization core for a
//! maintenance/asset-tracking backend.
//!
//! The crate covers the dual-path login flow (password vs. one-time code),
//! issuance and verification of the two classes of signed tokens (session and
//! pre-auth), the middleware steps that resolve an inbound request to an
//! authenticated, active user, and the capability/privilege model that every
//! mutating endpoint consults before touching the store.

pub mod b64;
pub mod errors;
pub mod hashing;
pub mod ids;
pub mod login;
pub mod middleware;
pub mod model;
pub mod payload;
pub mod permission;
pub mod token;
