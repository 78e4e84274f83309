//! Core of a reverse proxy that serves the OpenAI API in front of the ChatGPT
//! Codex backend.
use vstd::prelude::*;

pub mod affinity;
pub mod buffered;
pub mod bytes;
pub mod clock;
pub mod config;
pub mod conversation;
pub mod credentials;
pub mod digest;
pub mod headers;
pub mod json;
pub mod metrics;
pub mod model;
pub mod names;
pub mod ratelimit;
pub mod relay;
pub mod request;
pub mod router;
pub mod server;
pub mod sse;
pub mod text;
pub mod transform;
pub mod upstream;

verus! {

} // verus!
