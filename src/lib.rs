//! Gateway and service-worker core of a message-bus RPC stack: the
//! envelope codec, the per-connection gateway session, and the worker
//! dispatch state machine, each stated and proved with Verus.
pub mod value;
pub mod json_text;
pub mod message;
pub mod addr;
pub mod cache;
pub mod gateway;
pub mod registry;
pub mod session;
pub mod worker;
pub mod supervisor;
pub mod auth_internal;
pub mod summary;
pub mod numtext;
pub mod server;
pub mod wire;
pub mod util;
