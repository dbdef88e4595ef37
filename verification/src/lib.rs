//! A channel whose backlog lives in a file: the verified cores of the
//! ring buffers, of the file reader and writer state machines, and of the
//! sender and receiver decisions.
pub mod buf;
pub mod channel;
pub mod fs;
pub mod receiver;
pub mod sender;
pub mod state;

use vstd::prelude::*;

verus! {

/// The capacity in bytes that a channel's sender gathers before it writes
/// to the file, and that its receivers fetch at a time.
pub const DEFAULT_BUF_SIZE: usize = 65536;

} // verus!
