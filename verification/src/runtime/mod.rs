//! What a running plugin or driver may read about its own approvals, and what
//! it has missed.

pub mod buffer;
pub mod bus;
pub mod capabilities;
pub mod dropped;
pub mod fs;
pub mod sidecar;
