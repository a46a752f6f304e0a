//! The values that limits, mounts and execution reports are made of.

use vstd::prelude::*;
use crate::decimal::{millis_text, parse_millis, parse_millis_exec, push_millis};
use crate::text::{contains, lowercase, str_contains, str_eq, to_chars, to_lowercase};

verus! {

/// A non-negative duration in seconds, held in whole milliseconds (the
/// supervisor's own resolution).
#[derive(Debug, Clone, Copy, PartialEq, Eq, Structural)]
pub struct Seconds {
    /// The duration in milliseconds.
    pub millis: u64,
}

impl Seconds {
    /// The duration of `millis` milliseconds.
    pub fn from_millis(millis: u64) -> (s: Seconds)
        ensures
            s.millis == millis,
    {
        Seconds { millis }
    }

    /// The duration in milliseconds.
    pub fn as_millis(&self) -> (m: u64)
        ensures
            m == self.millis,
    {
        self.millis
    }

    /// The zero duration.
    pub fn zero() -> (s: Seconds)
        ensures
            s.millis == 0,
    {
        Seconds { millis: 0 }
    }

    /// The decimal text of the duration in seconds, as it is written into a
    /// supervisor flag: `2`, `0.5`, `2.001`.
    pub open spec fn text(self) -> Seq<char> {
        millis_text(self.millis as nat)
    }

    /// The decimal text of the duration in seconds.
    pub fn to_text(&self) -> (s: String)
        ensures
            s@ == self.text(),
    {
        let mut s = String::new();
        push_millis(&mut s, self.millis);
        assert(Seq::<char>::empty() + millis_text(self.millis as nat) =~= millis_text(
            self.millis as nat,
        ));
        s
    }

    /// The text of a duration reads back as that duration.
    pub proof fn lemma_text_reads_back(s: Seconds)
        ensures
            parse_millis(s.text()) == Some(s.millis as nat),
    {
        crate::decimal::lemma_millis_roundtrip(s.millis as nat);
    }

    /// Reads a decimal number of seconds such as `2`, `0.042` or `2.500`.
    /// Digits past the third after the point are dropped; a sign other than
    /// `+`, an exponent, or any other character makes the text unreadable.
    pub fn parse(text: &str) -> (r: Option<Seconds>)
        ensures
            match parse_millis(text@) {
                Some(n) => r is Some && r->0.millis == n,
                None => r is None,
            },
    {
        let v = to_chars(text);
        assert(v@.subrange(0, v.len() as int) =~= v@);
        match parse_millis_exec(&v, 0, v.len()) {
            Some(m) => Some(Seconds { millis: m }),
            None => None,
        }
    }
}

/// Resource bounds for one run. A field left `None` sets no bound.
#[derive(Debug, Clone, Copy)]
pub struct ResourceLimits {
    /// CPU time.
    pub time_limit: Option<Seconds>,
    /// Wall-clock time.
    pub wall_time_limit: Option<Seconds>,
    /// Memory in kilobytes.
    pub memory_limit: Option<u64>,
    /// Stack size in kilobytes.
    pub stack_limit: Option<u64>,
    /// Number of processes and threads.
    pub max_processes: Option<u32>,
    /// Output size in kilobytes.
    pub max_output: Option<u64>,
    /// Number of open files.
    pub max_open_files: Option<u32>,
    /// Grace period before the run is killed.
    pub extra_time: Option<Seconds>,
}

/// `over` where it is present, else `base`.
pub open spec fn or_base<T>(over: Option<T>, base: Option<T>) -> Option<T> {
    if over is Some {
        over
    } else {
        base
    }
}

fn pick<T: Copy>(over: Option<T>, base: Option<T>) -> (r: Option<T>)
    ensures
        r == or_base(over, base),
{
    match over {
        Some(_) => over,
        None => base,
    }
}

impl ResourceLimits {
    /// One kilobyte, the unit of the memory fields.
    pub const KB: u64 = 1;

    /// One megabyte in kilobytes.
    pub const MB: u64 = 1024;

    /// One gigabyte in kilobytes.
    pub const GB: u64 = 1024 * 1024;

    /// The limits that apply where nothing else is configured.
    pub open spec fn standard() -> ResourceLimits {
        ResourceLimits {
            time_limit: Some(Seconds { millis: 2000 }),
            wall_time_limit: Some(Seconds { millis: 5000 }),
            memory_limit: Some(262144),
            stack_limit: Some(262144),
            max_processes: Some(1),
            max_output: Some(65536),
            max_open_files: Some(64),
            extra_time: Some(Seconds { millis: 500 }),
        }
    }

    /// Limits that bound nothing.
    pub open spec fn unbounded() -> ResourceLimits {
        ResourceLimits {
            time_limit: None,
            wall_time_limit: None,
            memory_limit: None,
            stack_limit: None,
            max_processes: None,
            max_output: None,
            max_open_files: None,
            extra_time: None,
        }
    }

    /// `self` with each field replaced by that of `overrides` where the
    /// latter is present.
    pub open spec fn merged(self, overrides: ResourceLimits) -> ResourceLimits {
        ResourceLimits {
            time_limit: or_base(overrides.time_limit, self.time_limit),
            wall_time_limit: or_base(overrides.wall_time_limit, self.wall_time_limit),
            memory_limit: or_base(overrides.memory_limit, self.memory_limit),
            stack_limit: or_base(overrides.stack_limit, self.stack_limit),
            max_processes: or_base(overrides.max_processes, self.max_processes),
            max_output: or_base(overrides.max_output, self.max_output),
            max_open_files: or_base(overrides.max_open_files, self.max_open_files),
            extra_time: or_base(overrides.extra_time, self.extra_time),
        }
    }

    /// `self` overridden by `layer` where one is given.
    pub open spec fn merged_opt(self, layer: Option<ResourceLimits>) -> ResourceLimits {
        match layer {
            Some(l) => self.merged(l),
            None => self,
        }
    }

    /// The standard limits.
    pub fn new() -> (r: Self)
        ensures
            r == Self::standard(),
    {
        ResourceLimits {
            time_limit: Some(Seconds { millis: 2000 }),
            wall_time_limit: Some(Seconds { millis: 5000 }),
            memory_limit: Some(262144),
            stack_limit: Some(262144),
            max_processes: Some(1),
            max_output: Some(65536),
            max_open_files: Some(64),
            extra_time: Some(Seconds { millis: 500 }),
        }
    }

    /// Limits that bound nothing: the neutral element of `with_overrides`.
    pub fn none() -> (r: Self)
        ensures
            r == Self::unbounded(),
    {
        ResourceLimits {
            time_limit: None,
            wall_time_limit: None,
            memory_limit: None,
            stack_limit: None,
            max_processes: None,
            max_output: None,
            max_open_files: None,
            extra_time: None,
        }
    }

    pub fn with_time_limit(self, seconds: Seconds) -> (r: Self)
        ensures
            r == (ResourceLimits { time_limit: Some(seconds), ..self }),
    {
        let mut r = self;
        r.time_limit = Some(seconds);
        r
    }

    pub fn with_wall_time_limit(self, seconds: Seconds) -> (r: Self)
        ensures
            r == (ResourceLimits { wall_time_limit: Some(seconds), ..self }),
    {
        let mut r = self;
        r.wall_time_limit = Some(seconds);
        r
    }

    pub fn with_memory_limit(self, kb: u64) -> (r: Self)
        ensures
            r == (ResourceLimits { memory_limit: Some(kb), ..self }),
    {
        let mut r = self;
        r.memory_limit = Some(kb);
        r
    }

    pub fn with_stack_limit(self, kb: u64) -> (r: Self)
        ensures
            r == (ResourceLimits { stack_limit: Some(kb), ..self }),
    {
        let mut r = self;
        r.stack_limit = Some(kb);
        r
    }

    pub fn with_max_processes(self, count: u32) -> (r: Self)
        ensures
            r == (ResourceLimits { max_processes: Some(count), ..self }),
    {
        let mut r = self;
        r.max_processes = Some(count);
        r
    }

    pub fn with_max_output(self, kb: u64) -> (r: Self)
        ensures
            r == (ResourceLimits { max_output: Some(kb), ..self }),
    {
        let mut r = self;
        r.max_output = Some(kb);
        r
    }

    /// Field by field, the value of `overrides` where it is present, else
    /// that of `self`.
    pub fn with_overrides(&self, overrides: &ResourceLimits) -> (r: ResourceLimits)
        ensures
            r == self.merged(*overrides),
    {
        ResourceLimits {
            time_limit: pick(overrides.time_limit, self.time_limit),
            wall_time_limit: pick(overrides.wall_time_limit, self.wall_time_limit),
            memory_limit: pick(overrides.memory_limit, self.memory_limit),
            stack_limit: pick(overrides.stack_limit, self.stack_limit),
            max_processes: pick(overrides.max_processes, self.max_processes),
            max_output: pick(overrides.max_output, self.max_output),
            max_open_files: pick(overrides.max_open_files, self.max_open_files),
            extra_time: pick(overrides.extra_time, self.extra_time),
        }
    }

    /// `self` overridden by `layer` where one is given.
    pub fn with_layer(&self, layer: Option<&ResourceLimits>) -> (r: ResourceLimits)
        ensures
            r == self.merged_opt(
                match layer {
                    Some(l) => Some(*l),
                    None => None,
                },
            ),
    {
        match layer {
            Some(l) => self.with_overrides(l),
            None => *self,
        }
    }

    /// Overriding with limits that bound nothing changes nothing.
    pub proof fn lemma_merge_unbounded(base: ResourceLimits)
        ensures
            base.merged(Self::unbounded()) == base,
    {
    }

    /// Every field of a merge is the override's where that is present, and
    /// the base's where it is not.
    pub proof fn lemma_merge_fields(base: ResourceLimits, over: ResourceLimits)
        ensures
            ({
                let m = base.merged(over);
                &&& m.time_limit == (if over.time_limit is Some {
                    over.time_limit
                } else {
                    base.time_limit
                })
                &&& m.wall_time_limit == (if over.wall_time_limit is Some {
                    over.wall_time_limit
                } else {
                    base.wall_time_limit
                })
                &&& m.memory_limit == (if over.memory_limit is Some {
                    over.memory_limit
                } else {
                    base.memory_limit
                })
                &&& m.stack_limit == (if over.stack_limit is Some {
                    over.stack_limit
                } else {
                    base.stack_limit
                })
                &&& m.max_processes == (if over.max_processes is Some {
                    over.max_processes
                } else {
                    base.max_processes
                })
                &&& m.max_output == (if over.max_output is Some {
                    over.max_output
                } else {
                    base.max_output
                })
                &&& m.max_open_files == (if over.max_open_files is Some {
                    over.max_open_files
                } else {
                    base.max_open_files
                })
                &&& m.extra_time == (if over.extra_time is Some {
                    over.extra_time
                } else {
                    base.extra_time
                })
            }),
    {
    }

    /// Layers of overrides may be merged in any grouping.
    pub proof fn lemma_merge_associative(a: ResourceLimits, b: ResourceLimits, c: ResourceLimits)
        ensures
            a.merged(b).merged(c) == a.merged(b.merged(c)),
    {
    }
}

impl Default for ResourceLimits {
    fn default() -> (r: Self)
        ensures
            r == ResourceLimits::standard(),
    {
        ResourceLimits::new()
    }
}


/// How a run ended, as the supervisor reports it.
#[derive(Debug, Clone, Copy, PartialEq, Eq, Structural)]
pub enum ExecutionStatus {
    /// The program exited normally.
    Okay,
    /// The program exited with a non-zero code.
    RuntimeError,
    /// The program ran out of time.
    TimeLimitExceeded,
    /// The program was killed by a signal.
    Signaled,
    /// The supervisor itself failed.
    InternalError,
}

impl ExecutionStatus {
    /// The status that a two-letter code of the supervisor stands for. Any
    /// text that is not one of the five codes is an internal error.
    pub open spec fn of_code(code: Seq<char>) -> ExecutionStatus {
        if code == "OK"@ {
            ExecutionStatus::Okay
        } else if code == "RE"@ {
            ExecutionStatus::RuntimeError
        } else if code == "TO"@ {
            ExecutionStatus::TimeLimitExceeded
        } else if code == "SG"@ {
            ExecutionStatus::Signaled
        } else {
            ExecutionStatus::InternalError
        }
    }

    /// Reads the status code of a supervisor report.
    pub fn from_isolate_status(status: &str) -> (r: Self)
        ensures
            r == Self::of_code(status@),
    {
        if str_eq(status, "OK") {
            ExecutionStatus::Okay
        } else if str_eq(status, "RE") {
            ExecutionStatus::RuntimeError
        } else if str_eq(status, "TO") {
            ExecutionStatus::TimeLimitExceeded
        } else if str_eq(status, "SG") {
            ExecutionStatus::Signaled
        } else {
            ExecutionStatus::InternalError
        }
    }

    /// A text that is none of `OK`, `RE`, `TO`, `SG` reads as an internal
    /// error; each of the four reads as its own status.
    pub proof fn lemma_of_code(code: Seq<char>)
        ensures
            code != "OK"@ && code != "RE"@ && code != "TO"@ && code != "SG"@ ==> Self::of_code(code)
                == ExecutionStatus::InternalError,
            Self::of_code("OK"@) == ExecutionStatus::Okay,
            Self::of_code("RE"@) == ExecutionStatus::RuntimeError,
            Self::of_code("TO"@) == ExecutionStatus::TimeLimitExceeded,
            Self::of_code("SG"@) == ExecutionStatus::Signaled,
            Self::of_code("XX"@) == ExecutionStatus::InternalError,
    {
        reveal_strlit("OK");
        reveal_strlit("RE");
        reveal_strlit("TO");
        reveal_strlit("SG");
        reveal_strlit("XX");
        assert("RE"@[0] != "OK"@[0]);
        assert("TO"@[0] != "OK"@[0]);
        assert("TO"@[0] != "RE"@[0]);
        assert("SG"@[0] != "OK"@[0]);
        assert("SG"@[0] != "RE"@[0]);
        assert("SG"@[0] != "TO"@[0]);
        assert("XX"@[0] != "OK"@[0]);
        assert("XX"@[0] != "RE"@[0]);
        assert("XX"@[0] != "TO"@[0]);
        assert("XX"@[0] != "SG"@[0]);
    }
}

/// Which resource bound, if any, a run went over.
#[derive(Debug, Clone, Copy, PartialEq, Eq, Structural)]
pub enum LimitExceeded {
    /// No bound was exceeded.
    NotExceeded,
    /// CPU time.
    Time,
    /// Wall-clock time.
    WallTime,
    /// Memory.
    Memory,
    /// Output size.
    Output,
}

impl LimitExceeded {
    /// The bound that a supervisor message, already in lowercase, speaks of.
    pub open spec fn of_lowercase(m: Seq<char>) -> LimitExceeded {
        if contains(m, "time limit"@) {
            if contains(m, "wall"@) {
                LimitExceeded::WallTime
            } else {
                LimitExceeded::Time
            }
        } else if contains(m, "memory"@) || contains(m, "out of memory"@) {
            LimitExceeded::Memory
        } else if contains(m, "output"@) {
            LimitExceeded::Output
        } else {
            LimitExceeded::NotExceeded
        }
    }

    /// The bound that a supervisor message speaks of, letter case ignored.
    pub open spec fn of_message(message: Option<Seq<char>>) -> LimitExceeded {
        match message {
            Some(m) => Self::of_lowercase(lowercase(m)),
            None => LimitExceeded::NotExceeded,
        }
    }

    /// Classifies a message that is already in lowercase.
    pub fn from_lowercase(message: &str) -> (r: Self)
        ensures
            r == Self::of_lowercase(message@),
    {
        if str_contains(message, "time limit") {
            if str_contains(message, "wall") {
                LimitExceeded::WallTime
            } else {
                LimitExceeded::Time
            }
        } else if str_contains(message, "memory") || str_contains(message, "out of memory") {
            LimitExceeded::Memory
        } else if str_contains(message, "output") {
            LimitExceeded::Output
        } else {
            LimitExceeded::NotExceeded
        }
    }

    /// Infers from the supervisor's message which bound was exceeded.
    pub fn from_message(message: Option<&str>) -> (r: Self)
        ensures
            r == Self::of_message(
                match message {
                    Some(m) => Some(m@),
                    None => None,
                },
            ),
    {
        match message {
            Some(m) => {
                let lower = to_lowercase(m);
                Self::from_lowercase(lower.as_str())
            },
            None => LimitExceeded::NotExceeded,
        }
    }

    /// Whether any bound was exceeded.
    pub fn is_exceeded(&self) -> (b: bool)
        ensures
            b == !(*self is NotExceeded),
    {
        !matches!(self, LimitExceeded::NotExceeded)
    }
}

impl Default for LimitExceeded {
    fn default() -> (r: Self)
        ensures
            r == LimitExceeded::NotExceeded,
    {
        LimitExceeded::NotExceeded
    }
}

/// The text of an optional string.
pub open spec fn opt_text(o: Option<String>) -> Option<Seq<char>> {
    match o {
        Some(s) => Some(s@),
        None => None,
    }
}

/// The bytes of an optional buffer.
pub open spec fn opt_bytes(o: Option<Vec<u8>>) -> Option<Seq<u8>> {
    match o {
        Some(b) => Some(b@),
        None => None,
    }
}

/// What a run used and how it ended.
#[derive(Debug, Clone)]
pub struct ExecutionResult {
    /// How the run ended.
    pub status: ExecutionStatus,
    /// Which bound, if any, the run went over.
    pub limit_exceeded: LimitExceeded,
    /// CPU time used.
    pub time: Seconds,
    /// Wall-clock time used.
    pub wall_time: Seconds,
    /// Peak memory in kilobytes: the control group's where reported, else
    /// the resident set's.
    pub memory: u64,
    /// Memory of the whole control group in kilobytes, page cache included.
    pub cg_memory: Option<u64>,
    /// Peak resident set size of the process in kilobytes.
    pub max_rss: Option<u64>,
    /// Exit code, where the program exited by itself.
    pub exit_code: Option<i32>,
    /// Signal number, where a signal killed the program.
    pub signal: Option<i32>,
    /// The supervisor's own message.
    pub message: Option<String>,
    /// Captured standard output.
    pub stdout: Option<Vec<u8>>,
    /// Captured standard error.
    pub stderr: Option<Vec<u8>>,
}

/// An execution result as plain values.
pub struct ExecutionResultView {
    pub status: ExecutionStatus,
    pub limit_exceeded: LimitExceeded,
    pub time: Seconds,
    pub wall_time: Seconds,
    pub memory: u64,
    pub cg_memory: Option<u64>,
    pub max_rss: Option<u64>,
    pub exit_code: Option<i32>,
    pub signal: Option<i32>,
    pub message: Option<Seq<char>>,
    pub stdout: Option<Seq<u8>>,
    pub stderr: Option<Seq<u8>>,
}

impl View for ExecutionResult {
    type V = ExecutionResultView;

    open spec fn view(&self) -> ExecutionResultView {
        ExecutionResultView {
            status: self.status,
            limit_exceeded: self.limit_exceeded,
            time: self.time,
            wall_time: self.wall_time,
            memory: self.memory,
            cg_memory: self.cg_memory,
            max_rss: self.max_rss,
            exit_code: self.exit_code,
            signal: self.signal,
            message: opt_text(self.message),
            stdout: opt_bytes(self.stdout),
            stderr: opt_bytes(self.stderr),
        }
    }
}

/// Percentage of the memory limit from which on a failed run counts as
/// having run out of memory.
pub const MEMORY_NEAR_LIMIT_PERCENT: u64 = 95;

impl ExecutionResult {
    /// The run exited by itself with code 0.
    pub open spec fn succeeded(&self) -> bool {
        self.status == ExecutionStatus::Okay && self.exit_code == Some(0i32)
    }

    /// Whether the run exited by itself with code 0.
    #[must_use]
    pub fn is_success(&self) -> (b: bool)
        ensures
            b == self.succeeded(),
    {
        matches!(self.status, ExecutionStatus::Okay) && match self.exit_code {
            Some(code) => code == 0,
            None => false,
        }
    }

    /// The run died or failed with no bound named, having used at least
    /// `MEMORY_NEAR_LIMIT_PERCENT` percent of `limit_kb`.
    pub open spec fn ran_out_of_memory(&self, limit_kb: u64) -> bool {
        &&& self.limit_exceeded == LimitExceeded::NotExceeded
        &&& (self.status == ExecutionStatus::Signaled || self.status
            == ExecutionStatus::RuntimeError)
        &&& self.memory * 100 >= limit_kb * MEMORY_NEAR_LIMIT_PERCENT
    }

    /// Marks the run as out of memory where it failed unexplained with its
    /// memory use at the limit; everything else stays as it is.
    pub fn detect_memory_limit(&mut self, limit_kb: u64)
        ensures
            final(self).limit_exceeded == (if old(self).ran_out_of_memory(limit_kb) {
                LimitExceeded::Memory
            } else {
                old(self).limit_exceeded
            }),
            *final(self) == (ExecutionResult {
                limit_exceeded: final(self).limit_exceeded,
                ..*old(self)
            }),
    {
        let failed = matches!(self.status, ExecutionStatus::Signaled) || matches!(
            self.status,
            ExecutionStatus::RuntimeError
        );
        let unnamed = matches!(self.limit_exceeded, LimitExceeded::NotExceeded);
        let needed: u128 = limit_kb as u128 * 95;
        assert(needed == limit_kb * MEMORY_NEAR_LIMIT_PERCENT);
        if failed && unnamed && self.memory as u128 * 100 >= needed {
            self.limit_exceeded = LimitExceeded::Memory;
        }
    }
}

impl Default for ExecutionResult {
    fn default() -> (r: Self)
        ensures
            r.status == ExecutionStatus::Okay,
            r.limit_exceeded == LimitExceeded::NotExceeded,
            r.time.millis == 0,
            r.wall_time.millis == 0,
            r.memory == 0,
            r.cg_memory is None,
            r.max_rss is None,
            r.exit_code is None,
            r.signal is None,
            r.message is None,
            r.stdout is None,
            r.stderr is None,
    {
        ExecutionResult {
            status: ExecutionStatus::Okay,
            limit_exceeded: LimitExceeded::NotExceeded,
            time: Seconds { millis: 0 },
            wall_time: Seconds { millis: 0 },
            memory: 0,
            cg_memory: None,
            max_rss: None,
            exit_code: None,
            signal: None,
            message: None,
            stdout: None,
            stderr: None,
        }
    }
}

/// A host directory made visible inside the sandbox.
#[derive(Debug)]
pub struct MountConfig {
    /// Path on the host.
    pub source: String,
    /// Path inside the sandbox.
    pub target: String,
    /// Whether the sandbox may write to it.
    pub writable: bool,
    /// Whether the mount is left out where the source does not exist.
    pub optional: bool,
}

/// A mount as plain values.
pub struct MountView {
    pub source: Seq<char>,
    pub target: Seq<char>,
    pub writable: bool,
    pub optional: bool,
}

impl View for MountConfig {
    type V = MountView;

    open spec fn view(&self) -> MountView {
        MountView {
            source: self.source@,
            target: self.target@,
            writable: self.writable,
            optional: self.optional,
        }
    }
}

impl MountConfig {
    /// A copy of the mount.
    pub fn duplicate(&self) -> (r: Self)
        ensures
            r@ == self@,
    {
        MountConfig {
            source: self.source.clone(),
            target: self.target.clone(),
            writable: self.writable,
            optional: self.optional,
        }
    }
}

impl Clone for MountConfig {
    fn clone(&self) -> (r: Self)
        ensures
            r@ == self@,
    {
        self.duplicate()
    }
}

} // verus!
