//! Returning variable-length data from a sandboxed guest through a scalar-only
//! call interface: an 8-byte descriptor (offset, length) into the guest's linear
//! memory, a bounds-checked host-side reader, and the guest-side allocate/free
//! lifecycle that produces and releases it.

pub mod error;
pub mod descriptor;
pub mod codec;
pub mod resolver;
pub mod host;
pub mod guest;
