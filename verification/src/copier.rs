//! The raw copy of a source to a sink, chunk by chunk. The copier decides what
//! the driver does next; the driver reads and writes.

use vstd::prelude::*;
use crate::errors::RicatError;

verus! {

/// The size of the buffer that chunks are read into.
pub const BUFFER_SIZE: usize = 4096;

/// What the driver reports to the copier.
#[derive(Debug)]
pub enum CopyEvent {
    /// Nothing was done yet.
    Started,
    /// A read put this many bytes at the start of the buffer; none at the end
    /// of the source.
    Read(usize),
    /// The bytes handed to the sink were all written.
    Written,
    /// The read or the write failed; the text says why.
    Failed(String),
}

/// What the driver is to do next.
#[derive(Debug, PartialEq, Eq)]
pub enum CopyAction {
    /// Read from the source into the buffer, `BUFFER_SIZE` bytes at most.
    Read,
    /// Write this many bytes from the start of the buffer to the sink.
    Write(usize),
    /// Stop; this is the result of the copy.
    Finish(Result<(), RicatError>),
}

/// What follows `event`: a copy starts by reading; every chunk read is written
/// whole before the next is read; an empty read is the end of the source and
/// of the copy; a failure ends the copy with an I/O error that carries the
/// cause.
pub open spec fn copy_action(event: CopyEvent) -> CopyAction {
    match event {
        CopyEvent::Started => CopyAction::Read,
        CopyEvent::Read(len) => if len == 0 {
            CopyAction::Finish(Ok(()))
        } else {
            CopyAction::Write(len)
        },
        CopyEvent::Written => CopyAction::Read,
        CopyEvent::Failed(cause) => CopyAction::Finish(Err(RicatError::IoError(cause))),
    }
}

/// One decision of the copy: what the driver is to do after `event`. A read
/// never reports more bytes than the buffer holds.
pub fn copy(event: CopyEvent) -> (action: CopyAction)
    requires
        event matches CopyEvent::Read(len) ==> len <= BUFFER_SIZE,
    ensures
        action == copy_action(event),
        action matches CopyAction::Write(len) ==> 0 < len <= BUFFER_SIZE,
{
    match event {
        CopyEvent::Started => CopyAction::Read,
        CopyEvent::Read(len) => if len == 0 {
            CopyAction::Finish(Ok(()))
        } else {
            CopyAction::Write(len)
        },
        CopyEvent::Written => CopyAction::Read,
        CopyEvent::Failed(cause) => CopyAction::Finish(Err(RicatError::IoError(cause))),
    }
}

} // verus!
