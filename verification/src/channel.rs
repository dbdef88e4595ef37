//! The decisions of the byte-stream halves of a file channel: when a
//! reader that found nothing waits for the writer, and when the writer
//! wakes the readers.
use vstd::prelude::*;

verus! {

/// What a byte-stream reader does once its file reader has handed out
/// `n` bytes.
#[derive(PartialEq, Eq, Structural, Debug, Clone, Copy)]
pub enum AfterRead {
    /// Hand the bytes to the caller.
    Deliver(usize),
    /// Nothing came and the writer has written no further: put the
    /// waker in its slot, then decide again with `after_register`.
    Register,
    /// Nothing came but the writer has written further: read again.
    Retry,
}

/// What a byte-stream reader does once it tried to put its waker in its
/// slot.
#[derive(PartialEq, Eq, Structural, Debug, Clone, Copy)]
pub enum AfterRegister {
    /// The writer has still written no further: wait to be woken.
    Pending,
    /// The writer has written no further and is gone: the stream ends.
    End,
    /// The writer has written further meanwhile: read again.
    Retry,
}

/// The decision after a read that handed out `n` bytes, for a reader that
/// has fetched `reader_offset` bytes of the file while the writer has
/// written `written`.
pub fn after_read(n: usize, reader_offset: u64, written: u64) -> (a: AfterRead)
    ensures
        a == if n > 0 {
            AfterRead::Deliver(n)
        } else if reader_offset >= written {
            AfterRead::Register
        } else {
            AfterRead::Retry
        },
{
    if n > 0 {
        AfterRead::Deliver(n)
    } else if reader_offset >= written {
        AfterRead::Register
    } else {
        AfterRead::Retry
    }
}

/// The decision after the reader tried to put its waker in its slot;
/// `registered` says whether it could (the writer is still there).
pub fn after_register(reader_offset: u64, written: u64, registered: bool) -> (a: AfterRegister)
    ensures
        a == if reader_offset >= written {
            if registered {
                AfterRegister::Pending
            } else {
                AfterRegister::End
            }
        } else {
            AfterRegister::Retry
        },
{
    if reader_offset >= written {
        if registered {
            AfterRegister::Pending
        } else {
            AfterRegister::End
        }
    } else {
        AfterRegister::Retry
    }
}

/// Whether the writer wakes the waiting readers after it moved the shared
/// count of written bytes from `previous` to `now`: only when it grew.
pub fn should_wake(previous: u64, now: u64) -> (b: bool)
    ensures
        b == (previous < now),
{
    previous < now
}

} // verus!
