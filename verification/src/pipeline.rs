//! The pipeline runner: an external process wired to the core through
//! scoped standard-stream resources.
//!
//! Launching, writing, reading and waiting are operating-system calls a
//! host performs; what is verified here is everything the design decides:
//! how an invocation is configured, the scoped-resource discipline of the
//! three process streams — each consumed at most once, the input stream
//! explicitly released so the subprocess observes end-of-input — and how a
//! finished invocation's streams are turned into a report.
//!
//! Waiting is independent of draining output: `wait` may be recorded
//! before or after `read_all_output`.  A subprocess that fills the OS pipe
//! buffer can only make progress if its output is drained, so a host that
//! waits first must drain on a separate thread of control; otherwise it
//! drains before or while waiting.

use vstd::prelude::*;

verus! {

/// How one standard stream of the subprocess is configured.
#[derive(Clone, Copy, Debug, PartialEq, Eq, Structural)]
pub enum StdioMode {
    /// The stream is shared with the host's own stream.
    Inherited,
    /// The stream is a pipe the host writes or reads.
    Piped,
    /// The stream is discarded.
    Ignored,
}

/// How an external process is invoked: a program name or path, an ordered
/// argument list, and an independent configuration for each standard
/// stream.
pub struct CommandPlan {
    pub program: String,
    pub args: Vec<String>,
    pub stdin_mode: StdioMode,
    pub stdout_mode: StdioMode,
    pub stderr_mode: StdioMode,
}

impl CommandPlan {
    /// Plan an invocation of `program` with `args`, configuring the input
    /// and output streams; standard error stays inherited.
    pub fn plan(program: String, args: Vec<String>, stdin_mode: StdioMode, stdout_mode: StdioMode)
        -> (p: CommandPlan)
        ensures
            p.program@ == program@,
            p.args.deep_view() == args.deep_view(),
            p.stdin_mode == stdin_mode,
            p.stdout_mode == stdout_mode,
            p.stderr_mode == StdioMode::Inherited,
    {
        CommandPlan {
            program,
            args,
            stdin_mode,
            stdout_mode,
            stderr_mode: StdioMode::Inherited,
        }
    }

    /// The same invocation with standard error reconfigured.
    pub fn with_stderr(self, stderr_mode: StdioMode) -> (p: CommandPlan)
        ensures
            p.program@ == self.program@,
            p.args.deep_view() == self.args.deep_view(),
            p.stdin_mode == self.stdin_mode,
            p.stdout_mode == self.stdout_mode,
            p.stderr_mode == stderr_mode,
    {
        CommandPlan { stderr_mode, ..self }
    }
}

/// The state of one scoped stream resource of a live subprocess.
#[derive(Clone, Copy, Debug, PartialEq, Eq, Structural)]
pub enum StreamState {
    /// The stream was not piped, so there is nothing to consume.
    NotPiped,
    /// The pipe is held and has not been consumed yet.
    Open,
    /// The pipe was consumed and released; it cannot be used again.
    Consumed,
}

/// The resource ledger of one live subprocess: which scoped streams are
/// still held and whether termination has been awaited.  A host pairs
/// every operating-system call on the real process with the transition of
/// the same name here, and the contracts make over-consuming a stream, or
/// waiting twice, impossible to record.
pub struct ProcessLedger {
    stdin: StreamState,
    stdout: StreamState,
    stderr: StreamState,
    waited: bool,
}

impl ProcessLedger {
    /// The state of the subprocess input stream.
    pub closed spec fn spec_stdin(&self) -> StreamState {
        self.stdin
    }

    /// The state of the subprocess output stream.
    pub closed spec fn spec_stdout(&self) -> StreamState {
        self.stdout
    }

    /// The state of the subprocess error stream.
    pub closed spec fn spec_stderr(&self) -> StreamState {
        self.stderr
    }

    /// Whether termination has been awaited.
    pub closed spec fn spec_waited(&self) -> bool {
        self.waited
    }

    /// Every scoped stream was released and the exit status collected:
    /// nothing is left for the subprocess to block on or leak.
    pub open spec fn fully_released(&self) -> bool {
        !(self.spec_stdin() is Open) && !(self.spec_stdout() is Open) && !(self.spec_stderr()
            is Open) && self.spec_waited()
    }

    /// The ledger of a process spawned under `plan`: each piped stream is
    /// acquired open, the others carry nothing, and no wait has happened.
    /// A failed launch yields no ledger at all — there is then no handle,
    /// no stream and nothing to release.
    pub fn on_spawn(plan: &CommandPlan) -> (l: ProcessLedger)
        ensures
            l.spec_stdin() == (if plan.stdin_mode is Piped {
                StreamState::Open
            } else {
                StreamState::NotPiped
            }),
            l.spec_stdout() == (if plan.stdout_mode is Piped {
                StreamState::Open
            } else {
                StreamState::NotPiped
            }),
            l.spec_stderr() == (if plan.stderr_mode is Piped {
                StreamState::Open
            } else {
                StreamState::NotPiped
            }),
            !l.spec_waited(),
    {
        ProcessLedger {
            stdin: if matches!(plan.stdin_mode, StdioMode::Piped) {
                StreamState::Open
            } else {
                StreamState::NotPiped
            },
            stdout: if matches!(plan.stdout_mode, StdioMode::Piped) {
                StreamState::Open
            } else {
                StreamState::NotPiped
            },
            stderr: if matches!(plan.stderr_mode, StdioMode::Piped) {
                StreamState::Open
            } else {
                StreamState::NotPiped
            },
            waited: false,
        }
    }

    /// Record that every pending input byte was written and the input
    /// stream then released, so the subprocess observes end-of-input and
    /// can proceed past any read-until-end logic.  The stream must still
    /// be held, and afterwards it never can be again.
    pub fn write_and_close(&mut self)
        requires
            old(self).spec_stdin() is Open,
        ensures
            final(self).spec_stdin() is Consumed,
            final(self).spec_stdout() == old(self).spec_stdout(),
            final(self).spec_stderr() == old(self).spec_stderr(),
            final(self).spec_waited() == old(self).spec_waited(),
    {
        self.stdin = StreamState::Consumed;
    }

    /// Record that the output stream was read to completion and released.
    pub fn read_all_output(&mut self)
        requires
            old(self).spec_stdout() is Open,
        ensures
            final(self).spec_stdout() is Consumed,
            final(self).spec_stdin() == old(self).spec_stdin(),
            final(self).spec_stderr() == old(self).spec_stderr(),
            final(self).spec_waited() == old(self).spec_waited(),
    {
        self.stdout = StreamState::Consumed;
    }

    /// Record that the error stream was read to completion and released.
    pub fn read_all_errors(&mut self)
        requires
            old(self).spec_stderr() is Open,
        ensures
            final(self).spec_stderr() is Consumed,
            final(self).spec_stdin() == old(self).spec_stdin(),
            final(self).spec_stdout() == old(self).spec_stdout(),
            final(self).spec_waited() == old(self).spec_waited(),
    {
        self.stderr = StreamState::Consumed;
    }

    /// Record that subprocess termination was awaited.  Exactly once, in
    /// any order relative to draining the streams.
    pub fn wait(&mut self)
        requires
            !old(self).spec_waited(),
        ensures
            final(self).spec_waited(),
            final(self).spec_stdin() == old(self).spec_stdin(),
            final(self).spec_stdout() == old(self).spec_stdout(),
            final(self).spec_stderr() == old(self).spec_stderr(),
    {
        self.waited = true;
    }

    /// The current state of the input stream resource.
    pub fn stdin_state(&self) -> (s: StreamState)
        ensures
            s == self.spec_stdin(),
    {
        self.stdin
    }

    /// The current state of the output stream resource.
    pub fn stdout_state(&self) -> (s: StreamState)
        ensures
            s == self.spec_stdout(),
    {
        self.stdout
    }

    /// The current state of the error stream resource.
    pub fn stderr_state(&self) -> (s: StreamState)
        ensures
            s == self.spec_stderr(),
    {
        self.stderr
    }

    /// Whether termination has already been awaited.
    pub fn has_waited(&self) -> (r: bool)
        ensures
            r == self.spec_waited(),
    {
        self.waited
    }

    /// Whether every scoped resource of this invocation was released.
    pub fn is_complete(&self) -> (r: bool)
        ensures
            r == self.fully_released(),
    {
        !matches!(self.stdin, StreamState::Open) && !matches!(self.stdout, StreamState::Open)
            && !matches!(self.stderr, StreamState::Open) && self.waited
    }
}

/// The inspectable termination report of a subprocess: a success flag and
/// the raw exit code when the operating system supplied one.  A nonzero
/// exit is a normal, branchable result, not an error.
#[derive(Clone, Copy, Debug, PartialEq, Eq)]
pub struct ExitReport {
    pub success: bool,
    pub code: Option<i32>,
}

/// Choose which captured stream a finished invocation reports: standard
/// output after a successful exit, standard error after a failure.
pub fn select_stream<'a>(report: &ExitReport, stdout_bytes: &'a Vec<u8>, stderr_bytes: &'a Vec<
    u8,
>) -> (r: &'a Vec<u8>)
    ensures
        r@ == (if report.success {
            stdout_bytes@
        } else {
            stderr_bytes@
        }),
{
    if report.success {
        stdout_bytes
    } else {
        stderr_bytes
    }
}

} // verus!
