//! The failure taxonomy: every failure path of the library produces one of
//! these observable values; nothing is swallowed and nothing panics.

use vstd::prelude::*;

verus! {

/// Why a single worker task gave up on its chunk.  Surfaced to the
/// collector at join time; it never crashes the joining context.
#[derive(Clone, Copy, Debug, PartialEq, Eq, Structural)]
pub enum TaskFailure {
    /// The chunk held a byte that is not an ASCII decimal digit: the byte
    /// and its position, with every earlier byte a digit.
    NonDigit { index: usize, byte: u8 },
    /// The running digit total no longer fit in the partial-result type;
    /// the task aborts rather than wrap silently.
    Overflow,
    /// The task ended without reporting a result at all — it panicked or
    /// was torn down.  The join surfaces this as a value instead of
    /// crashing the joining context.
    Aborted,
}

/// Why the fan-in reduction of a complete set of join outcomes failed.
/// No partial success is reported: one failed chunk fails the whole
/// computation, and the error says which chunk it was.
#[derive(Clone, Copy, Debug, PartialEq, Eq, Structural)]
pub enum AggregateError {
    /// The earliest chunk (in spawn order) whose worker failed, with its
    /// task-level cause.
    ChunkFailed { index: usize, cause: TaskFailure },
    /// Every worker succeeded but the grand total no longer fit.
    TotalOverflow,
}

/// A send was attempted after the receiver was destroyed.  The producer
/// sees this as a failed send, never as a hang or a crash.
#[derive(Clone, Copy, Debug, PartialEq, Eq, Structural)]
pub struct ChannelBroken;

/// The external command could not be launched at all.
#[derive(Clone, Copy, Debug, PartialEq, Eq, Structural)]
pub enum ProcessSpawnError {
    /// The binary was not found.
    NotFound,
    /// The binary was found but may not be executed.
    PermissionDenied,
    /// Any other launch-time fault.
    Other,
}

/// The stage of a pipeline invocation, named so that a stream fault can be
/// reported with enough context to diagnose.
#[derive(Clone, Copy, Debug, PartialEq, Eq, Structural)]
pub enum PipelineStage {
    Spawn,
    WriteInput,
    ReadOutput,
    Wait,
}

/// A write or read against a live subprocess stream failed.  Fatal to that
/// pipeline invocation; retrying is the caller's decision.
#[derive(Clone, Debug, PartialEq, Eq)]
pub struct ProcessIOError {
    /// The command the pipeline was running.
    pub command: String,
    /// The stage at which the stream fault happened.
    pub stage: PipelineStage,
}

} // verus!
