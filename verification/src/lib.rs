//! A low-overhead, fixed-capacity, in-process event tracing facility.
//!
//! Application code marks point events and start/stop spans; records are
//! packed into a bounded circular byte buffer for later inspection. The
//! buffer evicts its oldest entry when a new one no longer fits, so capacity
//! is the caller's sole retention-window control.

pub mod clock;
pub mod codec;
pub mod ids;
pub mod ring_buffer;
pub mod traits;
