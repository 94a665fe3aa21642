//! The decisions of the bounded, non-blocking pipe transfers: what a read
//! result does to the buffer that collects one selection, and what a write
//! result does to the bytes still to be sent.

use vstd::prelude::*;

use crate::error::{IoError, IoErrorKind};
use crate::strings::{decimal, usize_text};

verus! {

/// Bytes moved per read of a pipe.
pub const CHUNK: usize = 8192;

/// What one `read` of a non-blocking pipe gave back.
pub enum ReadOutcome {
    /// The writer closed its end: a read of zero bytes.
    Closed,
    /// Some bytes, at most one chunk.
    Data(Vec<u8>),
    /// Nothing to read yet.
    WouldBlock,
    /// A signal interrupted the call.
    Interrupted,
    /// Any other failure.
    Failed(IoError),
}

/// What the reader does next.
pub enum ReadStep {
    /// Read again.
    Continue,
    /// Stop: `true` once the writer has closed the pipe, `false` while it may
    /// still send more.
    Done(bool),
    /// Stop with this error.
    Fail(IoError),
}

/// The message of a selection that grew past the limit.
pub open spec fn over_limit_message(limit: usize) -> Seq<char> {
    "text exceeded the "@ + decimal(limit as nat) + " byte limit"@
}

/// One step of moving what a pipe holds into `output`, which may not grow past
/// `limit` bytes.
pub fn read_step(output: &mut Vec<u8>, outcome: ReadOutcome, limit: usize) -> (step: ReadStep)
    ensures
        old(output)@.len() <= limit ==> final(output)@.len() <= limit,
        match outcome {
            ReadOutcome::Closed => step matches ReadStep::Done(true) && final(output)@ == old(output)@,
            ReadOutcome::WouldBlock => step matches ReadStep::Done(false) && final(output)@ == old(
                output,
            )@,
            ReadOutcome::Interrupted => step is Continue && final(output)@ == old(output)@,
            ReadOutcome::Failed(e) => step matches ReadStep::Fail(f) && f == e && final(output)@
                == old(output)@,
            ReadOutcome::Data(bytes) => if old(output)@.len() + bytes@.len() > limit {
                &&& step matches ReadStep::Fail(f)
                &&& f.kind == IoErrorKind::InvalidData
                &&& f.message@ == over_limit_message(limit)
                &&& final(output)@ == old(output)@
            } else {
                step is Continue && final(output)@ == old(output)@ + bytes@
            },
        },
{
    match outcome {
        ReadOutcome::Closed => ReadStep::Done(true),
        ReadOutcome::WouldBlock => ReadStep::Done(false),
        ReadOutcome::Interrupted => ReadStep::Continue,
        ReadOutcome::Failed(error) => ReadStep::Fail(error),
        ReadOutcome::Data(bytes) => {
            if bytes.len() > limit || output.len() > limit - bytes.len() {
                let mut message = String::from_str("text exceeded the ");
                let digits = usize_text(limit);
                message.append(digits.as_str());
                message.append(" byte limit");
                ReadStep::Fail(IoError { kind: IoErrorKind::InvalidData, message })
            } else {
                let mut i: usize = 0;
                let ghost start = output@;
                while i < bytes.len()
                    invariant
                        i <= bytes@.len(),
                        output@ == start + bytes@.take(i as int),
                    decreases bytes@.len() - i,
                {
                    output.push(bytes[i]);
                    i = i + 1;
                    assert(output@ =~= start + bytes@.take(i as int));
                }
                assert(bytes@.take(bytes@.len() as int) =~= bytes@);
                ReadStep::Continue
            }
        },
    }
}

/// What one `write` to a non-blocking pipe gave back.
pub enum WriteOutcome {
    /// This many bytes were taken.
    Wrote(usize),
    /// The pipe is full for now.
    WouldBlock,
    /// A signal interrupted the call.
    Interrupted,
    /// Any other failure.
    Failed(IoError),
}

/// How many bytes are left to write after one `write`, or why the transfer
/// stops. A write that takes nothing means the reader stopped accepting data.
pub fn write_step(remaining: usize, outcome: WriteOutcome) -> (r: Result<usize, IoError>)
    requires
        outcome matches WriteOutcome::Wrote(count) ==> count <= remaining,
    ensures
        match outcome {
            WriteOutcome::Wrote(count) => if count == 0 {
                r matches Err(e) && e.kind == IoErrorKind::WriteZero && e.message@
                    == "pipe reader stopped accepting data"@
            } else {
                r == Ok::<usize, IoError>((remaining - count) as usize)
            },
            WriteOutcome::WouldBlock => r == Ok::<usize, IoError>(remaining),
            WriteOutcome::Interrupted => r == Ok::<usize, IoError>(remaining),
            WriteOutcome::Failed(e) => r matches Err(f) && f == e,
        },
{
    match outcome {
        WriteOutcome::Wrote(count) => {
            if count == 0 {
                Err(
                    IoError {
                        kind: IoErrorKind::WriteZero,
                        message: String::from_str("pipe reader stopped accepting data"),
                    },
                )
            } else {
                Ok(remaining - count)
            }
        },
        WriteOutcome::WouldBlock => Ok(remaining),
        WriteOutcome::Interrupted => Ok(remaining),
        WriteOutcome::Failed(error) => Err(error),
    }
}

} // verus!
