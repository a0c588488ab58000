//! Reading and writing the firmware variables through which a boot manager
//! picks its next menu entry, and raising a thread's privilege so that the
//! platform allows it.
pub mod codec;
pub mod accessor;
pub mod elevator;
