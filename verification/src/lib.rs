//! A terminal feed dashboard core: a screen-navigation state machine, a
//! feed-synchronization pipeline, and a persistent session model, all with
//! verified contracts. Terminal drawing, key sourcing and network transport
//! live outside this crate and consume it through plain values.

pub mod entry;
pub mod feeds;
pub mod list;
pub mod nav;
pub mod screens;
pub mod session;
pub mod store;
pub mod strutil;
