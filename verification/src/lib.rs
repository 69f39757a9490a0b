//! Client-side engine of a virtual-simulation-gateway (VSG) protocol: a guest
//! execution context is driven by deadlines from an external network
//! simulator (the actor). Simulated time is partitioned into slices; at each
//! deadline the guest flushes outgoing packets, acknowledges the deadline and
//! drains incoming packets for the next slice.
use vstd::prelude::*;

pub mod binser;
pub mod buffer_pool;
pub mod bytes_buffer;
pub mod context;
pub mod docker;
pub mod dql;
pub mod error;
pub mod wire;
pub mod output_msg_set;
pub mod rate_limiter;
pub mod seq_lock;
pub mod tap_packet;
pub mod time;
pub mod timer;
pub mod waitfree_array_queue;

verus! {

/// Largest payload, in bytes, accepted on the wire in either direction.
pub const MAX_PACKET_SIZE: usize = 2048;

} // verus!
