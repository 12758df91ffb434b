//! Messaging over SkyCurrent: a multi-consumer message queue, the wire format and
//! origin policy of the websocket gateway, and the bookkeeping of the combined
//! backing runtime.
pub mod queue;
pub mod hasher;
pub mod flags;
pub mod backing;
pub mod capi;
