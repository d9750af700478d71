//! A webhook relay core: route matching, payload extraction, outbound message
//! framing, audit records, and the per-request dispatch state machine.

pub mod audit;
pub mod config;
pub mod dispatch;
pub mod extract;
pub mod forward;
pub mod json;
pub mod route;
pub mod text;
pub mod trace;
