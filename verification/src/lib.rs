//! The parts of HTTP/2 message handling that clients and servers share: which
//! headers may cross an HTTP/2 connection, and how a body is fed into a
//! flow-controlled stream.

use vstd::prelude::*;

pub mod data_buf;
pub mod decisions;
pub mod header_map;
pub mod headers;
pub mod pipe;
pub mod send_buf;
pub mod transfer;

verus! {

/// The initial window size of a stream, unless the peer sets another.
pub const SPEC_WINDOW_SIZE: u32 = 65_535;

} // verus!
