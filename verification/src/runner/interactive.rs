//! Interactive runs: a program that is talked to while it runs.
//!
//! Pipes, waiting and timeouts are the caller's part. What is decided here
//! is which command the supervisor gets, what a session may still do, and,
//! for the event stream, what follows from each thing that happens.

use vstd::prelude::*;
use vstd::string::{StrSliceExecFns, StringSliceAdditionalSpecFns};
use crate::config::{Config, Language};
use crate::isolate::command::IsolateCommand;
use crate::isolate::error::IsolateError;
use crate::isolate::host::{chosen_path, lookup_candidates, needs_lookup};
use crate::runner::execute::{
    prepare_run, run_command_view, run_refused_with, run_settled_as, run_template,
};
use crate::runner::{deref_limits, InteractiveError};
use crate::text::to_chars;
use crate::types::{ExecutionResult, ResourceLimits};

verus! {

/// Something that an interactive run produced.
#[derive(Debug, Clone)]
pub enum InteractiveEvent {
    /// Bytes from standard output.
    Stdout(Vec<u8>),
    /// Bytes from standard error.
    Stderr(Vec<u8>),
    /// A whole line from standard output.
    StdoutLine(String),
    /// A whole line from standard error.
    StderrLine(String),
    /// The program exited.
    Exited(ExecutionResult),
}

/// The supervisor invocation of an interactive run of `language` in box
/// `box_id`: that of a batch run, without a check that anything lies in the
/// box.
pub fn interactive_command(
    config: &Config,
    language: &Language,
    limits: Option<&ResourceLimits>,
    box_id: u32,
    path_var: &str,
) -> (r: Result<IsolateCommand, InteractiveError>)
    ensures
        match r {
            Ok(cmd) => {
                &&& cmd@ == run_command_view(
                    config,
                    language,
                    deref_limits(limits),
                    box_id,
                    cmd@.command,
                )
                &&& cmd@.command.len() == run_template(language).len()
                &&& cmd@.command.skip(1) == run_template(language).skip(1)
                &&& !needs_lookup(run_template(language)) ==> cmd@.command == run_template(
                    language,
                )
            },
            Err(e) => e matches InteractiveError::Isolate(inner) && run_refused_with(
                language,
                inner,
            ),
        },
        !needs_lookup(run_template(language)) && (forall|i: int|
            0 <= i < language.run.mounts@.len() ==> (#[trigger] language.run.mounts@[i]).optional)
            ==> r is Ok,
        needs_lookup(run_template(language)) ==> exists|
            present: Seq<bool>,
            canonical: Option<Seq<char>>,
        |
            {
                &&& present.len() == lookup_candidates(path_var@, run_template(language)[0]).len()
                &&& run_settled_as(
                    language,
                    match r {
                        Ok(cmd) => Some(cmd@.command),
                        Err(_) => None,
                    },
                    match r {
                        Err(InteractiveError::Isolate(e)) => Some(e),
                        _ => None,
                    },
                    #[trigger] chosen_path(
                        lookup_candidates(path_var@, run_template(language)[0]),
                        present,
                        canonical,
                    ),
                )
            },
{
    match prepare_run(config, language, limits, box_id, path_var) {
        Ok(cmd) => Ok(cmd),
        Err(e) => Err(InteractiveError::Isolate(e)),
    }
}

/// `line` without its line ending: one line feed at the end, and one
/// carriage return before it. A carriage return that no line feed follows
/// stays.
pub open spec fn without_line_ending(line: Seq<char>) -> Seq<char> {
    if line.len() > 0 && line.last() == '\n' {
        let rest = line.drop_last();
        if rest.len() > 0 && rest.last() == '\r' {
            rest.drop_last()
        } else {
            rest
        }
    } else {
        line
    }
}

/// A line as it was read, without its line ending.
pub fn strip_line_ending(line: &str) -> (s: String)
    ensures
        s@ == without_line_ending(line@),
{
    let v = to_chars(line);
    let n = v.len();
    let end: usize = if n > 0 && v[n - 1] == '\n' {
        if n > 1 && v[n - 2] == '\r' {
            n - 2
        } else {
            n - 1
        }
    } else {
        n
    };
    proof {
        if n > 0 && v@.last() == '\n' {
            let rest = v@.drop_last();
            if rest.len() > 0 {
                assert(rest.last() == v@[n - 2]);
            }
            assert(without_line_ending(v@) =~= v@.subrange(0, end as int));
        } else {
            assert(v@.subrange(0, n as int) =~= v@);
        }
    }
    crate::text::string_of(&v, 0, end)
}

/// What reading a line gives, from what the pipe gave. `raw` is the text
/// up to and including the next line ending, and empty at the end of the
/// stream. A session that is over reads as ended; the end of the stream
/// reads as ended; anything else is the line without its line ending.
pub open spec fn line_read(terminated: bool, raw: Seq<char>) -> Option<Seq<char>> {
    if terminated || raw.len() == 0 {
        None
    } else {
        Some(without_line_ending(raw))
    }
}

/// A line that the program sends back as it was written, line feed and
/// all, reads as the line itself while the session lasts. A line that ends
/// in a carriage return is the one exception: it loses that too.
pub proof fn lemma_echoed_line_reads_back(line: Seq<char>)
    requires
        !(line.len() > 0 && line.last() == '\r'),
    ensures
        line_read(false, line.push('\n')) == Some(line),
{
    let raw = line.push('\n');
    assert(raw.drop_last() =~= line);
}

/// The bytes that writing `line` as a line sends: the line and a line
/// feed.
pub fn line_bytes(line: &str) -> (bytes: Vec<u8>)
    ensures
        bytes@ == line.spec_bytes().push(0x0au8),
{
    let mut bytes = line.as_bytes_vec();
    bytes.push(0x0a);
    bytes
}

/// How the outcome of asking, without waiting, whether the program has
/// exited is reported.
#[derive(Debug, Clone, Copy, PartialEq, Eq, Structural)]
pub enum Poll {
    /// The program has exited.
    Exited,
    /// The program is still running.
    Running,
    /// Asking failed.
    Failed,
}

/// What a session may still do.
#[derive(Debug, Clone, Copy, PartialEq, Eq, Structural)]
pub struct SessionState {
    /// The session is over: the program was waited for, killed, or seen to
    /// have exited.
    pub terminated: bool,
    /// The program's standard input is still open.
    pub stdin_open: bool,
}

impl SessionState {
    /// A session that has just started.
    pub fn new() -> (s: Self)
        ensures
            s == (SessionState { terminated: false, stdin_open: true }),
    {
        SessionState { terminated: false, stdin_open: true }
    }

    /// Whether the program may be written to. A session that is over
    /// takes nothing; a closed standard input takes nothing either.
    pub fn check_write(&self) -> (r: Result<(), InteractiveError>)
        ensures
            match r {
                Ok(_) => !self.terminated && self.stdin_open,
                Err(e) => if self.terminated {
                    e is Terminated
                } else {
                    &&& !self.stdin_open
                    &&& e matches InteractiveError::Isolate(IsolateError::Io(message))
                    &&& message@ == "stdin closed"@
                },
            },
    {
        if self.terminated {
            return Err(InteractiveError::Terminated);
        }
        if !self.stdin_open {
            return Err(InteractiveError::Isolate(IsolateError::Io("stdin closed".to_owned())));
        }
        Ok(())
    }

    /// Closes the program's standard input.
    pub fn close_stdin(&mut self)
        ensures
            *final(self) == (SessionState { stdin_open: false, ..*old(self) }),
    {
        self.stdin_open = false;
    }

    /// Whether reading may still yield anything: a session that is over
    /// reads as ended.
    pub fn can_read(&self) -> (b: bool)
        ensures
            b == !self.terminated,
    {
        !self.terminated
    }

    /// What reading a line gives, from what the pipe gave: `raw` is the
    /// text up to and including the next line ending, and empty at the end
    /// of the stream.
    pub fn read_line(&self, raw: &str) -> (r: Option<String>)
        ensures
            crate::types::opt_text(r) == line_read(self.terminated, raw@),
    {
        if self.terminated || raw.is_empty() {
            None
        } else {
            Some(strip_line_ending(raw))
        }
    }

    /// Whether the session has to ask if the program has exited: a session
    /// that is over knows.
    pub fn needs_poll(&self) -> (b: bool)
        ensures
            b == !self.terminated,
    {
        !self.terminated
    }

    /// Takes in the answer to whether the program has exited, and says
    /// whether the session is over. It is unless the program is still
    /// running.
    pub fn on_poll(&mut self, poll: Poll) -> (over: bool)
        ensures
            over == (old(self).terminated || poll != Poll::Running),
            *final(self) == (SessionState { terminated: over, ..*old(self) }),
    {
        if self.terminated {
            return true;
        }
        match poll {
            Poll::Running => false,
            _ => {
                self.terminated = true;
                true
            },
        }
    }

    /// Begins waiting for the program to exit. A session that is over
    /// cannot be waited for; otherwise it is over from now on and standard
    /// input is closed, so that the program sees the end of its input.
    pub fn begin_wait(&mut self) -> (r: Result<(), InteractiveError>)
        ensures
            match r {
                Ok(_) => !old(self).terminated && *final(self) == (SessionState {
                    terminated: true,
                    stdin_open: false,
                }),
                Err(e) => old(self).terminated && e is Terminated && *final(self) == *old(self),
            },
    {
        if self.terminated {
            return Err(InteractiveError::Terminated);
        }
        self.terminated = true;
        self.stdin_open = false;
        Ok(())
    }

    /// Whether killing has anything to kill.
    pub fn needs_kill(&self) -> (b: bool)
        ensures
            b == !self.terminated,
    {
        !self.terminated
    }

    /// Records that the program was killed.
    pub fn on_killed(&mut self)
        ensures
            *final(self) == (SessionState { terminated: true, ..*old(self) }),
    {
        self.terminated = true;
    }
}

/// The error of a wait that ran out of time. The program is left running:
/// the supervisor's own wall-clock limit ends it.
pub fn wait_timed_out() -> (e: InteractiveError)
    ensures
        e matches InteractiveError::Io(message) && message@ == "wait timed out"@,
{
    InteractiveError::Io("wait timed out".to_owned())
}

/// Something that happened to the event stream's task.
#[derive(Debug)]
pub enum StreamInput {
    /// The caller sent bytes for the program.
    Write(Vec<u8>),
    /// Writing to the program failed.
    WriteFailed,
    /// Standard output gave bytes.
    Read(Vec<u8>),
    /// Standard output ended or failed.
    ReadEnded,
    /// The wake-up after the end of standard output came, and the session
    /// is over or not.
    Woken { over: bool },
}

/// What the event stream's task does next.
#[derive(Debug)]
pub enum StreamStep {
    /// Write the bytes to the program.
    Send(Vec<u8>),
    /// Hand the bytes to the caller as an event.
    Emit(Vec<u8>),
    /// Wake the task up, so that it looks whether the program has exited.
    Wake,
    /// Wait for the program, hand the result to the caller, and stop.
    Finish,
    /// Go on.
    Continue,
    /// Stop.
    Stop,
}

/// What the event stream's task does next, as plain values.
pub enum StreamStepView {
    Send(Seq<u8>),
    Emit(Seq<u8>),
    Wake,
    Finish,
    Continue,
    Stop,
}

impl View for StreamStep {
    type V = StreamStepView;

    open spec fn view(&self) -> StreamStepView {
        match self {
            StreamStep::Send(bytes) => StreamStepView::Send(bytes@),
            StreamStep::Emit(bytes) => StreamStepView::Emit(bytes@),
            StreamStep::Wake => StreamStepView::Wake,
            StreamStep::Finish => StreamStepView::Finish,
            StreamStep::Continue => StreamStepView::Continue,
            StreamStep::Stop => StreamStepView::Stop,
        }
    }
}

/// Where the event stream's task stands.
#[derive(Debug, Clone, Copy, PartialEq, Eq, Structural)]
pub struct StreamState {
    /// Standard output has ended.
    pub stdout_closed: bool,
}

impl StreamState {
    /// The task at its start.
    pub fn new() -> (s: Self)
        ensures
            !s.stdout_closed,
    {
        StreamState { stdout_closed: false }
    }

    /// Whether the task reads standard output: until it has ended.
    pub fn reads_stdout(&self) -> (b: bool)
        ensures
            b == !self.stdout_closed,
    {
        !self.stdout_closed
    }

    /// Whether the task waits for the wake-up: once standard output has
    /// ended.
    pub fn awaits_wake(&self) -> (b: bool)
        ensures
            b == self.stdout_closed,
    {
        self.stdout_closed
    }

    /// What follows from `input`. Bytes from the caller are written to the
    /// program, and a failed write stops the task. Bytes from standard
    /// output are handed on, except that an empty read is its end. The end
    /// of standard output is recorded and answered with a wake-up. A
    /// wake-up that finds the session over finishes; one that does not
    /// changes nothing.
    pub fn step(&mut self, input: StreamInput) -> (next: StreamStep)
        ensures
            next@ == (match input {
                StreamInput::Write(bytes) => StreamStepView::Send(bytes@),
                StreamInput::WriteFailed => StreamStepView::Stop,
                StreamInput::Read(bytes) => if bytes@.len() == 0 {
                    StreamStepView::Wake
                } else {
                    StreamStepView::Emit(bytes@)
                },
                StreamInput::ReadEnded => StreamStepView::Wake,
                StreamInput::Woken { over } => if over {
                    StreamStepView::Finish
                } else {
                    StreamStepView::Continue
                },
            }),
            final(self).stdout_closed == (old(self).stdout_closed || input is ReadEnded || (
            input matches StreamInput::Read(bytes) && bytes@.len() == 0)),
    {
        match input {
            StreamInput::Write(bytes) => StreamStep::Send(bytes),
            StreamInput::WriteFailed => StreamStep::Stop,
            StreamInput::Read(bytes) => {
                if bytes.len() == 0 {
                    self.stdout_closed = true;
                    StreamStep::Wake
                } else {
                    StreamStep::Emit(bytes)
                }
            },
            StreamInput::ReadEnded => {
                self.stdout_closed = true;
                StreamStep::Wake
            },
            StreamInput::Woken { over } => {
                if over {
                    StreamStep::Finish
                } else {
                    StreamStep::Continue
                }
            },
        }
    }
}

} // verus!
