//! A verified core for a port-based async executor.
//!
//! All asynchronous readiness notification funnels through one multiplexing
//! object, the port: callers enqueue user packets on it, and any waitable
//! object can be asked to deliver a one-shot or repeating signal packet when
//! its signal state matches a trigger mask. This crate models that port
//! exactly and builds the executor pieces on top of it: the concurrency-safe
//! future cell, the receiver registry, the timer heap, the readiness adapter,
//! and the run loop.

use vstd::prelude::*;

pub mod atomic_future;
pub mod executor;
pub mod port;
pub mod registry;
pub mod rwhandle;
pub mod timer;

verus! {

/// Signal masks are plain bit sets.
pub type Signals = u32;

} // verus!
