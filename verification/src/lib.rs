//! A single-process message relay: clients exchange structured messages
//! through a broker that either fans a message out to every other client
//! (broadcast) or delivers it to one addressed client's private mailbox.
//!
//! The crate holds the broker's state and decisions: the message model and
//! its wire codec, the per-client mailbox registry, the bounded broadcast
//! bus, the routing rules, and the per-connection reader/writer steps and
//! lifecycle. Transport, task scheduling and wakeups are left to the caller.

pub mod bus;
pub mod codec;
pub mod endpoint;
pub mod mailbox;
pub mod model;
pub mod router;
