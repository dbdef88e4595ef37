//! The file reader and writer that stand behind the byte-stream halves of
//! the channel, with the ring buffer they stage bytes in.
pub mod buf;
pub mod reader;
pub mod writer;

use vstd::prelude::*;

verus! {

/// The capacity of the buffers of the file reader and writer.
pub const DEFAULT_BUF_SIZE: usize = 8192;

} // verus!
