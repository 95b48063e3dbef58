//! A single-threaded service framework for a message-passing trusted
//! execution environment: port configuration, peer identifiers, message
//! framing and reassembly, the registry of live channels, service dispatch
//! and the decisions of the event loop, together with the small services
//! built on top of it.

pub mod channel;
pub mod codec;
pub mod color;
pub mod dice;
pub mod dispatcher;
pub mod ec;
pub mod error;
pub mod fragment;
pub mod handle;
pub mod handle_set;
pub mod hello;
pub mod manager;
pub mod memref;
pub mod merge;
pub mod namespace;
pub mod port;
pub mod secretkeeper;
pub mod service;
pub mod storage;
pub mod store;
pub mod uuid;
