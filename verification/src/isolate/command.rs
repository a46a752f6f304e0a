//! The supervisor's command line.
//!
//! `command_args` says, token by token, what an `IsolateCommand` turns into;
//! `IsolateCommand::build` produces exactly that.

use vstd::prelude::*;
use crate::decimal::{decimal, decimal_string};
use crate::isolate::host::path_exists;
use crate::text::{concat2, lemma_add_assoc, pair_texts, push_text, texts};
use crate::types::{MountConfig, MountView, ResourceLimits, Seconds};

verus! {

/// What the supervisor is asked to do with a box.
#[derive(Debug, Clone, Copy, PartialEq, Eq, Structural)]
pub enum IsolateAction {
    /// Set the box up.
    Init,
    /// Run a command in the box.
    Run,
    /// Tear the box down.
    Cleanup,
}

/// A supervisor invocation as plain values.
pub struct CommandView {
    pub isolate_path: Seq<char>,
    pub action: IsolateAction,
    pub box_id: u32,
    pub limits: ResourceLimits,
    pub mounts: Seq<MountView>,
    /// Variables set explicitly, each key once, in the order first set.
    pub env: Seq<(Seq<char>, Seq<char>)>,
    /// Variables passed on from the host.
    pub env_inherit: Seq<Seq<char>>,
    pub full_env: bool,
    pub meta_file: Option<Seq<char>>,
    pub stdin: Option<Seq<char>>,
    pub stdout: Option<Seq<char>>,
    pub stderr: Option<Seq<char>>,
    pub working_dir: Option<Seq<char>>,
    pub command: Seq<Seq<char>>,
    pub cgroup: bool,
}

/// The views of a list of mounts.
pub open spec fn mount_views(v: Seq<MountConfig>) -> Seq<MountView> {
    Seq::new(v.len(), |i: int| v[i]@)
}

/// Position of the pair with key `key` in `env`, or `env.len()`.
pub open spec fn key_index(env: Seq<(Seq<char>, Seq<char>)>, key: Seq<char>) -> int
    decreases env.len(),
{
    if env.len() == 0 || env[0].0 == key {
        0
    } else {
        1 + key_index(env.drop_first(), key)
    }
}

/// `env` with `key` set to `value`: in place where the key is there already,
/// at the end where it is new.
pub open spec fn env_set(env: Seq<(Seq<char>, Seq<char>)>, key: Seq<char>, value: Seq<char>) -> Seq<
    (Seq<char>, Seq<char>),
> {
    let i = key_index(env, key);
    if i < env.len() {
        env.update(i, (key, value))
    } else {
        env.push((key, value))
    }
}

/// No two pairs of `env` share a key.
pub open spec fn distinct_keys(env: Seq<(Seq<char>, Seq<char>)>) -> bool {
    forall|i: int, j: int| 0 <= i < j < env.len() ==> (#[trigger] env[i]).0 != (#[trigger] env[j]).0
}

/// The flag `prefix` followed by `value`, or nothing where there is no value.
pub open spec fn flag(prefix: Seq<char>, value: Option<Seq<char>>) -> Seq<Seq<char>> {
    match value {
        Some(v) => seq![prefix + v],
        None => Seq::empty(),
    }
}

/// The flag text of an optional duration.
pub open spec fn seconds_text(o: Option<Seconds>) -> Option<Seq<char>> {
    match o {
        Some(s) => Some(s.text()),
        None => None,
    }
}

/// The flag text of an optional 64-bit count.
pub open spec fn count_text(o: Option<u64>) -> Option<Seq<char>> {
    match o {
        Some(n) => Some(decimal(n as nat)),
        None => None,
    }
}

/// The flag text of an optional 32-bit count.
pub open spec fn small_count_text(o: Option<u32>) -> Option<Seq<char>> {
    match o {
        Some(n) => Some(decimal(n as nat)),
        None => None,
    }
}

/// Supervisor path, box id, and `--cg` in control-group mode.
pub open spec fn head_args(c: CommandView) -> Seq<Seq<char>> {
    seq![c.isolate_path, "--box-id="@ + decimal(c.box_id as nat)] + (if c.cgroup {
        seq!["--cg"@]
    } else {
        Seq::empty()
    })
}

/// One flag for each limit that is set, in the supervisor's order. Memory is
/// bounded through the control group where that mode is on, else as address
/// space.
pub open spec fn limit_args(l: ResourceLimits, cgroup: bool) -> Seq<Seq<char>> {
    flag("--time="@, seconds_text(l.time_limit)) + flag(
        "--wall-time="@,
        seconds_text(l.wall_time_limit),
    ) + flag("--extra-time="@, seconds_text(l.extra_time)) + flag(
        if cgroup {
            "--cg-mem="@
        } else {
            "--mem="@
        },
        count_text(l.memory_limit),
    ) + flag("--stack="@, count_text(l.stack_limit)) + flag(
        "--processes="@,
        small_count_text(l.max_processes),
    ) + flag("--fsize="@, count_text(l.max_output)) + flag(
        "--open-files="@,
        small_count_text(l.max_open_files),
    )
}

/// `--dir=<target>=<source>[:rw][:maybe]`.
pub open spec fn mount_arg(m: MountView) -> Seq<char> {
    "--dir="@ + m.target + "="@ + m.source + (if m.writable {
        ":rw"@
    } else {
        Seq::empty()
    }) + (if m.optional {
        ":maybe"@
    } else {
        Seq::empty()
    })
}

/// Whether mount `i` is written out: always where it is required, and where
/// it is optional only if its source is present.
pub open spec fn mount_kept(mounts: Seq<MountView>, present: Seq<bool>, i: int) -> bool {
    !mounts[i].optional || present[i]
}

/// The flags of the first `n` mounts.
pub open spec fn mount_args_upto(mounts: Seq<MountView>, present: Seq<bool>, n: int) -> Seq<
    Seq<char>,
>
    decreases n,
{
    if n <= 0 {
        Seq::empty()
    } else if mount_kept(mounts, present, n - 1) {
        mount_args_upto(mounts, present, n - 1).push(mount_arg(mounts[n - 1]))
    } else {
        mount_args_upto(mounts, present, n - 1)
    }
}

/// One flag for each mount that is kept, in order. `present[i]` says whether
/// the source of mount `i` exists on the host.
pub open spec fn mount_args(mounts: Seq<MountView>, present: Seq<bool>) -> Seq<Seq<char>> {
    mount_args_upto(mounts, present, mounts.len() as int)
}

/// `--env=<key>=<value>`.
pub open spec fn env_arg(pair: (Seq<char>, Seq<char>)) -> Seq<char> {
    "--env="@ + pair.0 + "="@ + pair.1
}

/// `--env=<key>`: the variable is passed on from the host.
pub open spec fn env_inherit_arg(key: Seq<char>) -> Seq<char> {
    "--env="@ + key
}

/// `--full-env` where asked for, then the variables that are set, then
/// those that are passed on.
pub open spec fn env_args(c: CommandView) -> Seq<Seq<char>> {
    (if c.full_env {
        seq!["--full-env"@]
    } else {
        Seq::empty()
    }) + Seq::new(c.env.len(), |i: int| env_arg(c.env[i])) + Seq::new(
        c.env_inherit.len(),
        |i: int| env_inherit_arg(c.env_inherit[i]),
    )
}

/// Report file, redirections and working directory, each where set.
pub open spec fn io_args(c: CommandView) -> Seq<Seq<char>> {
    flag("--meta="@, c.meta_file) + flag("--stdin="@, c.stdin) + flag("--stdout="@, c.stdout)
        + flag("--stderr="@, c.stderr) + flag("--chdir="@, c.working_dir)
}

/// The options of a run: everything between `--run` and `--`.
pub open spec fn run_options(c: CommandView, present: Seq<bool>) -> Seq<Seq<char>> {
    limit_args(c.limits, c.cgroup) + mount_args(c.mounts, present) + env_args(c) + io_args(c)
}

/// The whole argument vector. For `Init` and `Cleanup` it is the head and
/// the action alone, whatever else is configured.
pub open spec fn command_args(c: CommandView, present: Seq<bool>) -> Seq<Seq<char>> {
    match c.action {
        IsolateAction::Init => head_args(c).push("--init"@),
        IsolateAction::Cleanup => head_args(c).push("--cleanup"@),
        IsolateAction::Run => head_args(c).push("--run"@) + run_options(c, present) + seq![
            "--"@,
        ] + c.command,
    }
}


/// Builder for a supervisor invocation.
#[derive(Debug)]
pub struct IsolateCommand {
    isolate_path: String,
    action: IsolateAction,
    box_id: u32,
    limits: ResourceLimits,
    mounts: Vec<MountConfig>,
    env: Vec<(String, String)>,
    env_inherit: Vec<String>,
    full_env: bool,
    meta_file: Option<String>,
    stdin: Option<String>,
    stdout: Option<String>,
    stderr: Option<String>,
    working_dir: Option<String>,
    command: Vec<String>,
    cgroup: bool,
}

impl View for IsolateCommand {
    type V = CommandView;

    closed spec fn view(&self) -> CommandView {
        CommandView {
            isolate_path: self.isolate_path@,
            action: self.action,
            box_id: self.box_id,
            limits: self.limits,
            mounts: mount_views(self.mounts@),
            env: pair_texts(self.env@),
            env_inherit: texts(self.env_inherit@),
            full_env: self.full_env,
            meta_file: crate::types::opt_text(self.meta_file),
            stdin: crate::types::opt_text(self.stdin),
            stdout: crate::types::opt_text(self.stdout),
            stderr: crate::types::opt_text(self.stderr),
            working_dir: crate::types::opt_text(self.working_dir),
            command: texts(self.command@),
            cgroup: self.cgroup,
        }
    }
}

impl IsolateCommand {
    #[verifier::type_invariant]
    spec fn well_formed(self) -> bool {
        distinct_keys(pair_texts(self.env@))
    }

    /// A run in box `box_id` by the supervisor at `isolate_path`, with the
    /// standard limits and nothing else set.
    pub fn new(isolate_path: &str, box_id: u32) -> (r: Self)
        ensures
            r@ == (CommandView {
                isolate_path: isolate_path@,
                action: IsolateAction::Run,
                box_id,
                limits: ResourceLimits::standard(),
                mounts: Seq::empty(),
                env: Seq::empty(),
                env_inherit: Seq::empty(),
                full_env: false,
                meta_file: None,
                stdin: None,
                stdout: None,
                stderr: None,
                working_dir: None,
                command: Seq::empty(),
                cgroup: false,
            }),
    {
        let r = IsolateCommand {
            isolate_path: isolate_path.to_owned(),
            action: IsolateAction::Run,
            box_id,
            limits: ResourceLimits::new(),
            mounts: Vec::new(),
            env: Vec::new(),
            env_inherit: Vec::new(),
            full_env: false,
            meta_file: None,
            stdin: None,
            stdout: None,
            stderr: None,
            working_dir: None,
            command: Vec::new(),
            cgroup: false,
        };
        assert(r@.mounts =~= Seq::empty());
        assert(r@.env =~= Seq::empty());
        assert(r@.env_inherit =~= Seq::empty());
        assert(r@.command =~= Seq::empty());
        r
    }

    /// Sets what the supervisor is asked to do.
    pub fn action(self, action: IsolateAction) -> (r: Self)
        ensures
            r@ == (CommandView { action, ..self@ }),
    {
        proof {
            use_type_invariant(&self);
        }
        let mut r = self;
        r.action = action;
        r
    }

    /// Sets the resource limits of the run.
    pub fn limits(self, limits: ResourceLimits) -> (r: Self)
        ensures
            r@ == (CommandView { limits, ..self@ }),
    {
        proof {
            use_type_invariant(&self);
        }
        let mut r = self;
        r.limits = limits;
        r
    }

    /// Adds a directory mount after those already there.
    pub fn mount(self, mount: MountConfig) -> (r: Self)
        ensures
            r@ == (CommandView { mounts: self@.mounts.push(mount@), ..self@ }),
    {
        proof {
            use_type_invariant(&self);
        }
        let mut mounts = self.mounts;
        mounts.push(mount);
        let r = IsolateCommand { mounts, ..self };
        assert(r@.mounts =~= self@.mounts.push(mount@));
        r
    }

    /// Adds directory mounts, in order, after those already there.
    pub fn mounts(self, mounts: Vec<MountConfig>) -> (r: Self)
        ensures
            r@ == (CommandView { mounts: self@.mounts + mount_views(mounts@), ..self@ }),
    {
        proof {
            use_type_invariant(&self);
        }
        let mut all = self.mounts;
        let mut more = mounts;
        all.append(&mut more);
        let r = IsolateCommand { mounts: all, ..self };
        assert(r@.mounts =~= self@.mounts + mount_views(mounts@));
        r
    }

    /// Sets an environment variable. A variable set before keeps its place
    /// and takes the new value.
    pub fn env(self, key: &str, value: &str) -> (r: Self)
        ensures
            r@ == (CommandView { env: env_set(self@.env, key@, value@), ..self@ }),
    {
        proof {
            use_type_invariant(&self);
        }
        let mut env = self.env;
        let ghost old_env = pair_texts(env@);
        let mut i: usize = 0;
        while i < env.len() && !crate::text::str_eq(env[i].0.as_str(), key)
            invariant
                i <= env.len(),
                pair_texts(env@) == old_env,
                forall|j: int| 0 <= j < i ==> (#[trigger] old_env[j]).0 != key@,
            decreases env.len() - i,
        {
            i += 1;
        }
        proof {
            lemma_key_index_is(old_env, key@, i as int);
        }
        let pair = (key.to_owned(), value.to_owned());
        if i < env.len() {
            env.set(i, pair);
            assert(pair_texts(env@) =~= old_env.update(i as int, (key@, value@)));
        } else {
            env.push(pair);
            assert(pair_texts(env@) =~= old_env.push((key@, value@)));
        }
        proof {
            let now = pair_texts(env@);
            assert forall|a: int, b: int| 0 <= a < b < now.len() implies (#[trigger] now[a]).0 != (
            #[trigger] now[b]).0 by {
                if a < old_env.len() {
                    assert(now[a].0 == old_env[a].0);
                }
                if b < old_env.len() {
                    assert(now[b].0 == old_env[b].0);
                }
            }
        }
        IsolateCommand { env, ..self }
    }

    /// Passes the variable `key` on from the host.
    pub fn env_inherit(self, key: &str) -> (r: Self)
        ensures
            r@ == (CommandView { env_inherit: self@.env_inherit.push(key@), ..self@ }),
    {
        proof {
            use_type_invariant(&self);
        }
        let mut env_inherit = self.env_inherit;
        push_text(&mut env_inherit, key.to_owned());
        IsolateCommand { env_inherit, ..self }
    }

    /// Sets where the supervisor writes its report: a path on the host.
    pub fn meta_file(self, path: &str) -> (r: Self)
        ensures
            r@ == (CommandView { meta_file: Some(path@), ..self@ }),
    {
        proof {
            use_type_invariant(&self);
        }
        let mut r = self;
        r.meta_file = Some(path.to_owned());
        r
    }

    /// Sets the file that the program reads as standard input: a path inside
    /// the sandbox.
    pub fn stdin(self, path: &str) -> (r: Self)
        ensures
            r@ == (CommandView { stdin: Some(path@), ..self@ }),
    {
        proof {
            use_type_invariant(&self);
        }
        let mut r = self;
        r.stdin = Some(path.to_owned());
        r
    }

    /// Sets the file that takes the program's standard output: a path
    /// inside the sandbox.
    pub fn stdout(self, path: &str) -> (r: Self)
        ensures
            r@ == (CommandView { stdout: Some(path@), ..self@ }),
    {
        proof {
            use_type_invariant(&self);
        }
        let mut r = self;
        r.stdout = Some(path.to_owned());
        r
    }

    /// Sets the file that takes the program's standard error: a path inside
    /// the sandbox.
    pub fn stderr(self, path: &str) -> (r: Self)
        ensures
            r@ == (CommandView { stderr: Some(path@), ..self@ }),
    {
        proof {
            use_type_invariant(&self);
        }
        let mut r = self;
        r.stderr = Some(path.to_owned());
        r
    }

    /// Sets the working directory inside the sandbox.
    pub fn working_dir(self, dir: &str) -> (r: Self)
        ensures
            r@ == (CommandView { working_dir: Some(dir@), ..self@ }),
    {
        proof {
            use_type_invariant(&self);
        }
        let mut r = self;
        r.working_dir = Some(dir.to_owned());
        r
    }

    /// Sets the command that runs in the box.
    pub fn command(self, cmd: Vec<String>) -> (r: Self)
        ensures
            r@ == (CommandView { command: texts(cmd@), ..self@ }),
    {
        proof {
            use_type_invariant(&self);
        }
        let mut r = self;
        r.command = cmd;
        r
    }

    /// Passes the whole host environment on, or not.
    pub fn full_env(self, enable: bool) -> (r: Self)
        ensures
            r@ == (CommandView { full_env: enable, ..self@ }),
    {
        proof {
            use_type_invariant(&self);
        }
        let mut r = self;
        r.full_env = enable;
        r
    }

    /// Turns control-group mode on or off.
    pub fn cgroup(self, enable: bool) -> (r: Self)
        ensures
            r@ == (CommandView { cgroup: enable, ..self@ }),
    {
        proof {
            use_type_invariant(&self);
        }
        let mut r = self;
        r.cgroup = enable;
        r
    }

    /// The supervisor's path.
    pub fn isolate_path(&self) -> (p: &str)
        ensures
            p@ == self@.isolate_path,
    {
        self.isolate_path.as_str()
    }

    /// The box that the command addresses.
    pub fn box_id(&self) -> (id: u32)
        ensures
            id == self@.box_id,
    {
        self.box_id
    }
}

pub proof fn lemma_key_index_is(env: Seq<(Seq<char>, Seq<char>)>, key: Seq<char>, n: int)
    requires
        0 <= n <= env.len(),
        forall|j: int| 0 <= j < n ==> (#[trigger] env[j]).0 != key,
        n < env.len() ==> env[n].0 == key,
    ensures
        key_index(env, key) == n,
    decreases n,
{
    if n > 0 {
        let t = env.drop_first();
        assert forall|j: int| 0 <= j < n - 1 implies (#[trigger] t[j]).0 != key by {
            assert(t[j] == env[j + 1]);
        }
        lemma_key_index_is(t, key, n - 1);
    }
}


fn push_flag(args: &mut Vec<String>, prefix: &str, value: &str)
    ensures
        texts(final(args)@) == texts(old(args)@) + flag(prefix@, Some(value@)),
{
    push_text(args, concat2(prefix, value));
    assert(texts(args@) =~= texts(old(args)@) + flag(prefix@, Some(value@)));
}

fn push_word(args: &mut Vec<String>, word: &str)
    ensures
        texts(final(args)@) == texts(old(args)@).push(word@),
{
    push_text(args, word.to_owned());
}

fn push_seconds_flag(args: &mut Vec<String>, prefix: &str, value: Option<Seconds>)
    ensures
        texts(final(args)@) == texts(old(args)@) + flag(prefix@, seconds_text(value)),
{
    match value {
        Some(t) => {
            let text = t.to_text();
            push_flag(args, prefix, text.as_str());
        },
        None => {
            assert(texts(args@) =~= texts(old(args)@) + flag(prefix@, seconds_text(value)));
        },
    }
}

fn push_count_flag(args: &mut Vec<String>, prefix: &str, value: Option<u64>)
    ensures
        texts(final(args)@) == texts(old(args)@) + flag(prefix@, count_text(value)),
{
    match value {
        Some(n) => {
            let text = decimal_string(n);
            push_flag(args, prefix, text.as_str());
        },
        None => {
            assert(texts(args@) =~= texts(old(args)@) + flag(prefix@, count_text(value)));
        },
    }
}

fn push_small_count_flag(args: &mut Vec<String>, prefix: &str, value: Option<u32>)
    ensures
        texts(final(args)@) == texts(old(args)@) + flag(prefix@, small_count_text(value)),
{
    match value {
        Some(n) => {
            let text = decimal_string(n as u64);
            push_flag(args, prefix, text.as_str());
        },
        None => {
            assert(texts(args@) =~= texts(old(args)@) + flag(prefix@, small_count_text(value)));
        },
    }
}

fn push_path_flag(args: &mut Vec<String>, prefix: &str, value: &Option<String>)
    ensures
        texts(final(args)@) == texts(old(args)@) + flag(prefix@, crate::types::opt_text(*value)),
{
    match value {
        Some(path) => {
            push_flag(args, prefix, path.as_str());
        },
        None => {
            assert(texts(args@) =~= texts(old(args)@) + flag(
                prefix@,
                crate::types::opt_text(*value),
            ));
        },
    }
}

fn push_limit_args(args: &mut Vec<String>, l: &ResourceLimits, cgroup: bool)
    ensures
        texts(final(args)@) == texts(old(args)@) + limit_args(*l, cgroup),
{
    let ghost t0 = texts(args@);
    let ghost f1 = flag("--time="@, seconds_text(l.time_limit));
    let ghost f2 = flag("--wall-time="@, seconds_text(l.wall_time_limit));
    let ghost f3 = flag("--extra-time="@, seconds_text(l.extra_time));
    let ghost f4 = flag(
        if cgroup {
            "--cg-mem="@
        } else {
            "--mem="@
        },
        count_text(l.memory_limit),
    );
    let ghost f5 = flag("--stack="@, count_text(l.stack_limit));
    let ghost f6 = flag("--processes="@, small_count_text(l.max_processes));
    let ghost f7 = flag("--fsize="@, count_text(l.max_output));
    let ghost f8 = flag("--open-files="@, small_count_text(l.max_open_files));
    push_seconds_flag(args, "--time=", l.time_limit);
    push_seconds_flag(args, "--wall-time=", l.wall_time_limit);
    proof {
        lemma_add_assoc(t0, f1, f2);
    }
    push_seconds_flag(args, "--extra-time=", l.extra_time);
    proof {
        lemma_add_assoc(t0, f1 + f2, f3);
    }
    if cgroup {
        push_count_flag(args, "--cg-mem=", l.memory_limit);
    } else {
        push_count_flag(args, "--mem=", l.memory_limit);
    }
    proof {
        lemma_add_assoc(t0, f1 + f2 + f3, f4);
    }
    push_count_flag(args, "--stack=", l.stack_limit);
    proof {
        lemma_add_assoc(t0, f1 + f2 + f3 + f4, f5);
    }
    push_small_count_flag(args, "--processes=", l.max_processes);
    proof {
        lemma_add_assoc(t0, f1 + f2 + f3 + f4 + f5, f6);
    }
    push_count_flag(args, "--fsize=", l.max_output);
    proof {
        lemma_add_assoc(t0, f1 + f2 + f3 + f4 + f5 + f6, f7);
    }
    push_small_count_flag(args, "--open-files=", l.max_open_files);
    proof {
        lemma_add_assoc(t0, f1 + f2 + f3 + f4 + f5 + f6 + f7, f8);
    }
}

fn push_io_args(
    args: &mut Vec<String>,
    meta_file: &Option<String>,
    stdin: &Option<String>,
    stdout: &Option<String>,
    stderr: &Option<String>,
    working_dir: &Option<String>,
)
    ensures
        texts(final(args)@) == texts(old(args)@) + (flag(
            "--meta="@,
            crate::types::opt_text(*meta_file),
        ) + flag("--stdin="@, crate::types::opt_text(*stdin)) + flag(
            "--stdout="@,
            crate::types::opt_text(*stdout),
        ) + flag("--stderr="@, crate::types::opt_text(*stderr)) + flag(
            "--chdir="@,
            crate::types::opt_text(*working_dir),
        )),
{
    let ghost t0 = texts(args@);
    let ghost f1 = flag("--meta="@, crate::types::opt_text(*meta_file));
    let ghost f2 = flag("--stdin="@, crate::types::opt_text(*stdin));
    let ghost f3 = flag("--stdout="@, crate::types::opt_text(*stdout));
    let ghost f4 = flag("--stderr="@, crate::types::opt_text(*stderr));
    let ghost f5 = flag("--chdir="@, crate::types::opt_text(*working_dir));
    push_path_flag(args, "--meta=", meta_file);
    push_path_flag(args, "--stdin=", stdin);
    proof {
        lemma_add_assoc(t0, f1, f2);
    }
    push_path_flag(args, "--stdout=", stdout);
    proof {
        lemma_add_assoc(t0, f1 + f2, f3);
    }
    push_path_flag(args, "--stderr=", stderr);
    proof {
        lemma_add_assoc(t0, f1 + f2 + f3, f4);
    }
    push_path_flag(args, "--chdir=", working_dir);
    proof {
        lemma_add_assoc(t0, f1 + f2 + f3 + f4, f5);
    }
}

/// The `--dir` flag of one mount.
fn mount_flag(m: &MountConfig) -> (s: String)
    ensures
        s@ == mount_arg(m@),
{
    let mut s = "--dir=".to_owned();
    s.append(m.target.as_str());
    s.append("=");
    s.append(m.source.as_str());
    if m.writable {
        s.append(":rw");
    }
    if m.optional {
        s.append(":maybe");
    }
    assert(s@ =~= mount_arg(m@));
    s
}

fn push_mount_args(args: &mut Vec<String>, mounts: &Vec<MountConfig>, present: &Vec<bool>)
    requires
        present.len() == mounts.len(),
    ensures
        texts(final(args)@) == texts(old(args)@) + mount_args(mount_views(mounts@), present@),
{
    let ghost views = mount_views(mounts@);
    let mut i: usize = 0;
    assert(texts(args@) =~= texts(old(args)@) + mount_args_upto(views, present@, 0));
    while i < mounts.len()
        invariant
            i <= mounts.len(),
            present.len() == mounts.len(),
            views == mount_views(mounts@),
            texts(args@) == texts(old(args)@) + mount_args_upto(views, present@, i as int),
        decreases mounts.len() - i,
    {
        let m = &mounts[i];
        assert(views[i as int] == m@);
        if !m.optional || present[i] {
            push_text(args, mount_flag(m));
            assert(texts(args@) =~= texts(old(args)@) + mount_args_upto(
                views,
                present@,
                i + 1,
            ));
        }
        i += 1;
    }
}

fn push_env_args(
    args: &mut Vec<String>,
    full_env: bool,
    env: &Vec<(String, String)>,
    env_inherit: &Vec<String>,
)
    ensures
        texts(final(args)@) == texts(old(args)@) + (if full_env {
            seq!["--full-env"@]
        } else {
            Seq::empty()
        }) + Seq::new(env.len() as nat, |i: int| env_arg(pair_texts(env@)[i])) + Seq::new(
            env_inherit.len() as nat,
            |i: int| env_inherit_arg(texts(env_inherit@)[i]),
        ),
{
    if full_env {
        push_word(args, "--full-env");
    }
    let ghost a1 = texts(args@);
    assert(a1 =~= texts(old(args)@) + (if full_env {
        seq!["--full-env"@]
    } else {
        Seq::empty()
    }));
    let ghost pairs = pair_texts(env@);
    let mut i: usize = 0;
    assert(texts(args@) =~= a1 + Seq::new(0, |k: int| env_arg(pairs[k])));
    while i < env.len()
        invariant
            i <= env.len(),
            pairs == pair_texts(env@),
            texts(args@) == a1 + Seq::new(i as nat, |k: int| env_arg(pairs[k])),
        decreases env.len() - i,
    {
        let mut s = "--env=".to_owned();
        s.append(env[i].0.as_str());
        s.append("=");
        s.append(env[i].1.as_str());
        assert(s@ =~= env_arg(pairs[i as int]));
        push_text(args, s);
        assert(texts(args@) =~= a1 + Seq::new((i + 1) as nat, |k: int| env_arg(pairs[k])));
        i += 1;
    }
    let ghost a2 = texts(args@);
    let ghost keys = texts(env_inherit@);
    let mut j: usize = 0;
    assert(texts(args@) =~= a2 + Seq::new(0, |k: int| env_inherit_arg(keys[k])));
    while j < env_inherit.len()
        invariant
            j <= env_inherit.len(),
            keys == texts(env_inherit@),
            texts(args@) == a2 + Seq::new(j as nat, |k: int| env_inherit_arg(keys[k])),
        decreases env_inherit.len() - j,
    {
        push_flag(args, "--env=", env_inherit[j].as_str());
        assert(texts(args@) =~= a2 + Seq::new((j + 1) as nat, |k: int| env_inherit_arg(keys[k])));
        j += 1;
    }
}

pub proof fn lemma_texts_concat(a: Seq<String>, b: Seq<String>)
    ensures
        texts(a + b) == texts(a) + texts(b),
{
    assert(texts(a + b) =~= texts(a) + texts(b));
}

/// The flags of the mounts do not depend on what is on the host where no
/// mount is optional.
pub proof fn lemma_required_mounts(mounts: Seq<MountView>, p: Seq<bool>, q: Seq<bool>, n: int)
    requires
        n <= mounts.len(),
        forall|i: int| 0 <= i < n ==> !(#[trigger] mounts[i]).optional,
    ensures
        mount_args_upto(mounts, p, n) == mount_args_upto(mounts, q, n),
    decreases n,
{
    if n > 0 {
        lemma_required_mounts(mounts, p, q, n - 1);
    }
}

impl IsolateCommand {
    /// For each mount, whether it counts as present: a required mount
    /// always, an optional one where its source exists on the host now.
    pub fn probe_mounts(&self) -> (present: Vec<bool>)
        ensures
            present.len() == self@.mounts.len(),
            forall|i: int|
                0 <= i < present.len() && !(#[trigger] self@.mounts[i]).optional ==> present[i],
    {
        let mut present: Vec<bool> = Vec::new();
        let mut i: usize = 0;
        while i < self.mounts.len()
            invariant
                i <= self.mounts.len(),
                present.len() == i,
                forall|k: int|
                    0 <= k < i && !(#[trigger] mount_views(self.mounts@)[k]).optional
                        ==> present[k],
            decreases self.mounts.len() - i,
        {
            let m = &self.mounts[i];
            let here = if m.optional {
                path_exists(m.source.as_str())
            } else {
                true
            };
            present.push(here);
            i += 1;
        }
        present
    }

    /// The argument vector, given for each mount whether its source is
    /// present on the host.
    pub fn build_with(self, present: &Vec<bool>) -> (args: Vec<String>)
        requires
            present.len() == self@.mounts.len(),
        ensures
            texts(args@) == command_args(self@, present@),
            distinct_keys(self@.env),
    {
        proof {
            use_type_invariant(&self);
        }
        let mut args: Vec<String> = Vec::new();
        push_text(&mut args, self.isolate_path);
        let id = decimal_string(self.box_id as u64);
        push_text(&mut args, concat2("--box-id=", id.as_str()));
        if self.cgroup {
            push_word(&mut args, "--cg");
        }
        assert(texts(args@) =~= head_args(self@));
        match self.action {
            IsolateAction::Init => {
                push_word(&mut args, "--init");
            },
            IsolateAction::Cleanup => {
                push_word(&mut args, "--cleanup");
            },
            IsolateAction::Run => {
                push_word(&mut args, "--run");
                let ghost a0 = texts(args@);
                let ghost o1 = limit_args(self@.limits, self@.cgroup);
                let ghost o2 = mount_args(self@.mounts, present@);
                let ghost o3 = env_args(self@);
                let ghost o4 = io_args(self@);
                push_limit_args(&mut args, &self.limits, self.cgroup);
                push_mount_args(&mut args, &self.mounts, present);
                proof {
                    lemma_add_assoc(a0, o1, o2);
                }
                let ghost a2 = texts(args@);
                push_env_args(&mut args, self.full_env, &self.env, &self.env_inherit);
                proof {
                    let e1 = if self.full_env {
                        seq!["--full-env"@]
                    } else {
                        Seq::empty()
                    };
                    let e2 = Seq::new(self@.env.len(), |i: int| env_arg(self@.env[i]));
                    let e3 = Seq::new(
                        self@.env_inherit.len(),
                        |i: int| env_inherit_arg(self@.env_inherit[i]),
                    );
                    lemma_add_assoc(a2, e1, e2);
                    lemma_add_assoc(a2, e1 + e2, e3);
                    assert(texts(args@) == a2 + o3);
                    lemma_add_assoc(a0, o1 + o2, o3);
                }
                push_io_args(
                    &mut args,
                    &self.meta_file,
                    &self.stdin,
                    &self.stdout,
                    &self.stderr,
                    &self.working_dir,
                );
                proof {
                    lemma_add_assoc(a0, o1 + o2 + o3, o4);
                    assert(texts(args@) == a0 + run_options(self@, present@));
                }
                push_word(&mut args, "--");
                let ghost a3 = args@;
                let mut command = self.command;
                args.append(&mut command);
                proof {
                    lemma_texts_concat(a3, self.command@);
                    assert(texts(a3) =~= a0 + run_options(self@, present@) + seq!["--"@]);
                }
            },
        }
        args
    }

    /// The argument vector. An optional mount is written out only where its
    /// source exists on the host at this moment; everything else is fixed by
    /// the command alone.
    pub fn build(self) -> (args: Vec<String>)
        ensures
            exists|present: Seq<bool>|
                {
                    &&& present.len() == self@.mounts.len()
                    &&& #[trigger] command_args(self@, present) == texts(args@)
                },
            (forall|i: int| 0 <= i < self@.mounts.len() ==> !(#[trigger] self@.mounts[i]).optional)
                ==> forall|present: Seq<bool>| texts(args@) == #[trigger] command_args(self@, present),
            self@.action != IsolateAction::Run ==> forall|present: Seq<bool>|
                texts(args@) == #[trigger] command_args(self@, present),
            distinct_keys(self@.env),
    {
        let present = self.probe_mounts();
        let args = self.build_with(&present);
        proof {
            if forall|i: int|
                0 <= i < self@.mounts.len() ==> !(#[trigger] self@.mounts[i]).optional {
                assert forall|other: Seq<bool>| texts(args@) == #[trigger] command_args(
                    self@,
                    other,
                ) by {
                    lemma_required_mounts(
                        self@.mounts,
                        present@,
                        other,
                        self@.mounts.len() as int,
                    );
                }
            }
        }
        args
    }
}

} // verus!
