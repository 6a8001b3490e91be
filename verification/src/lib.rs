//! A shared hierarchical document: a tree of typed nodes that multiple
//! remote parties observe and mutate, with per-node access control,
//! synchronous observer notification, and a recursive content hash used
//! to detect replica divergence.

pub mod channels;
pub mod config;
pub mod data;
pub mod errors;
pub mod events;
pub mod handler;
pub mod hash;
pub mod helper;
pub mod ident;
pub mod internal_messages;
pub mod message;
pub mod node;
pub mod permissions;
pub mod remote;
pub mod server;
pub mod treebuilder;
