//! Interactive navigation engine for a hierarchical key-value secret store.
//!
//! The store is presented as nested directories (prefixes) and leaf secrets.
//! This crate holds the navigation core: the path-stack model of the current
//! location, the response cache that mediates between the engine and the
//! remote store, the modal editing state machine, and the viewport scroller
//! that maps an unbounded listing onto a fixed-height terminal. Transport,
//! terminal handling and clipboard access are consumed as capabilities and
//! live outside this crate.

pub mod entry;
pub mod path;
pub mod scroll;
pub mod error;
pub mod strutil;
pub mod cache;
pub mod store;
pub mod client;
pub mod mock;
pub mod messages;
pub mod walker;
pub mod render;
