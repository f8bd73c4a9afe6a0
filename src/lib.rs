//! Reliable messaging over an unreliable, unordered packet transport: per-channel
//! senders and receivers for each ordering and reliability mode, fragmentation and
//! reassembly of large payloads, wrapping message ids, and the message type registry.
use vstd::prelude::*;

pub mod channel;
pub mod fragment;
pub mod message;
pub mod packet;
pub mod plugin;
pub mod receivers;
pub mod senders;
pub mod wrapping_id;

verus! {

} // verus!
