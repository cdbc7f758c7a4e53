//! What an I/O call on a channel came to, as the relay sees it.

use vstd::prelude::*;

verus! {

/// The two channels of a relay.
#[derive(PartialEq, Eq, Structural, Clone, Copy, Debug)]
pub enum Side {
    Input,
    Output,
}

/// The outcome of one non-blocking read.
#[derive(PartialEq, Eq, Structural, Clone, Copy, Debug)]
pub enum ReadOutcome {
    /// The read returned this many bytes.
    Bytes(usize),
    /// The operating system reported that the read would block.
    WouldBlock,
    /// Any other error.
    Failed,
}

/// The outcome of writing a whole buffer.
#[derive(PartialEq, Eq, Structural, Clone, Copy, Debug)]
pub enum WriteOutcome {
    Done,
    Failed,
}

/// The outcome of one non-blocking accept on a listener.
#[derive(PartialEq, Eq, Structural, Clone, Copy, Debug)]
pub enum AcceptOutcome {
    Accepted,
    WouldBlock,
    Failed,
}

/// The number of bytes that a read delivered, `None` for an error: a read
/// that would block delivered nothing and is no error.
pub open spec fn read_count(o: ReadOutcome) -> Option<usize> {
    match o {
        ReadOutcome::Bytes(n) => Some(n),
        ReadOutcome::WouldBlock => Some(0),
        ReadOutcome::Failed => None,
    }
}

/// The number of bytes that a read delivered; a read that would block
/// counts as zero bytes, not as an error.
pub fn bytes_read(o: ReadOutcome) -> (r: Option<usize>)
    ensures
        r == read_count(o),
        o == ReadOutcome::WouldBlock ==> r == Some(0usize),
{
    match o {
        ReadOutcome::Bytes(n) => Some(n),
        ReadOutcome::WouldBlock => Some(0),
        ReadOutcome::Failed => None,
    }
}

} // verus!
