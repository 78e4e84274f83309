//! What the HTTP server decides.
pub mod admin;
pub mod chat;
pub mod error;
pub mod laws;
pub mod middleware;
pub mod misc;
pub mod responses;
pub mod stream;
