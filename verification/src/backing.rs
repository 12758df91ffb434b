//! The backings that carry SkyCurrent messages, and the runtime that combines them.
pub mod common;
pub mod combined;
pub mod wait_inbox;
pub mod ws_gateway;
