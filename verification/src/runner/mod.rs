//! Compiling and running programs: which limits apply, which command the
//! supervisor is given, and what its report means for the caller.

use vstd::prelude::*;
use crate::config::{Config, Language};
use crate::isolate::command::{
    env_set, mount_views, CommandView, IsolateAction, IsolateCommand,
};
use crate::isolate::error::IsolateError;
use crate::text::{pair_texts, texts};
use crate::types::{MountConfig, MountView, ResourceLimits};

pub mod compile;
pub mod execute;
pub mod interactive;

pub use compile::{default_compile_limits, CompileResult};
pub use interactive::InteractiveEvent;

verus! {

/// Why a compilation could not be carried out. What the compiler itself
/// complains about is no error: it is in the `CompileResult`.
#[derive(Debug)]
pub enum CompileError {
    /// The compiler failed.
    Failed { exit_code: i32, stderr: String },
    /// The compiler ran out of time.
    Timeout,
    /// The language has no compile step.
    NotCompiled(String),
    /// The supervisor failed.
    Isolate(IsolateError),
}

/// Why a program could not be run. How the program itself ends is no
/// error: it is in the `ExecutionResult`.
#[derive(Debug)]
pub enum ExecuteError {
    /// What is to run does not lie in the box.
    NotStarted(String),
    /// The supervisor failed.
    Isolate(IsolateError),
}

/// Why an interactive session failed.
#[derive(Debug)]
pub enum InteractiveError {
    /// The session has not started.
    NotStarted,
    /// The session is over.
    Terminated,
    /// A pipe could not be made.
    FifoCreation(String),
    /// Reading or writing failed.
    Io(String),
    /// The supervisor failed.
    Isolate(IsolateError),
}

/// Why compiling and running in one go failed, and in which of the two.
#[derive(Debug)]
pub enum CompileAndRunError {
    /// Compilation could not be carried out.
    Compile(CompileError),
    /// Compilation went through, the run could not be carried out.
    Execute(ExecuteError),
}

/// `base` with every pair of `more` set, in order.
pub open spec fn env_with(base: Seq<(Seq<char>, Seq<char>)>, more: Seq<(Seq<char>, Seq<char>)>) -> Seq<
    (Seq<char>, Seq<char>),
>
    decreases more.len(),
{
    if more.len() == 0 {
        base
    } else {
        env_set(env_with(base, more.drop_last()), more.last().0, more.last().1)
    }
}

/// The supervisor's path that `config` asks for.
pub open spec fn isolate_binary_of(config: &Config) -> Seq<char> {
    match config.isolate_path {
        Some(path) => path@,
        None => "isolate"@,
    }
}

/// A run of `program` in box `box_id` under `config`: in `/box`, with the
/// search path `path`, then the variables `env`, and with `mounts`.
pub open spec fn sandbox_command(
    config: &Config,
    box_id: u32,
    limits: ResourceLimits,
    path: Seq<char>,
    mounts: Seq<MountView>,
    env: Seq<(Seq<char>, Seq<char>)>,
    program: Seq<Seq<char>>,
) -> CommandView {
    CommandView {
        isolate_path: isolate_binary_of(config),
        action: IsolateAction::Run,
        box_id,
        limits,
        mounts,
        env: env_with(seq![("PATH"@, path)], env),
        env_inherit: Seq::empty(),
        full_env: false,
        meta_file: None,
        stdin: None,
        stdout: None,
        stderr: None,
        working_dir: Some("/box"@),
        command: program,
        cgroup: config.cgroup,
    }
}

/// Copies a list of mounts.
pub fn clone_mounts(mounts: &Vec<MountConfig>) -> (r: Vec<MountConfig>)
    ensures
        mount_views(r@) == mount_views(mounts@),
{
    let mut r: Vec<MountConfig> = Vec::new();
    let mut i: usize = 0;
    assert(mount_views(r@) =~= mount_views(mounts@).take(0));
    while i < mounts.len()
        invariant
            i <= mounts.len(),
            mount_views(r@) == mount_views(mounts@).take(i as int),
        decreases mounts.len() - i,
    {
        let m = mounts[i].duplicate();
        let ghost before = r@;
        let ghost all = mount_views(mounts@);
        r.push(m);
        proof {
            assert(all[i as int] == m@);
            assert(mount_views(before.push(m)) =~= mount_views(before).push(m@));
            assert(all.take(i + 1) =~= all.take(i as int).push(all[i as int]));
        }
        i += 1;
    }
    assert(mount_views(mounts@).take(mounts.len() as int) =~= mount_views(mounts@));
    r
}

/// Builds the run of `program` in box `box_id` under `config`.
pub(crate) fn build_sandbox_command(
    config: &Config,
    box_id: u32,
    limits: ResourceLimits,
    path: &str,
    mounts: Vec<MountConfig>,
    env: &Vec<(String, String)>,
    program: Vec<String>,
) -> (cmd: IsolateCommand)
    ensures
        cmd@ == sandbox_command(
            config,
            box_id,
            limits,
            path@,
            mount_views(mounts@),
            pair_texts(env@),
            texts(program@),
        ),
{
    let binary = config.isolate_binary();
    let mut cmd = IsolateCommand::new(binary.as_str(), box_id).action(IsolateAction::Run).cgroup(
        config.cgroup,
    ).limits(limits).working_dir("/box").env("PATH", path).mounts(mounts).command(program);
    let ghost base = seq![("PATH"@, path@)];
    let ghost pairs = pair_texts(env@);
    proof {
        assert(cmd@.env =~= base);
        assert(cmd@.mounts =~= mount_views(mounts@));
        assert(pairs.take(0) =~= Seq::empty());
    }
    let mut i: usize = 0;
    while i < env.len()
        invariant
            i <= env.len(),
            pairs == pair_texts(env@),
            cmd@ == (CommandView {
                env: env_with(base, pairs.take(i as int)),
                ..sandbox_command(
                    config,
                    box_id,
                    limits,
                    path@,
                    mount_views(mounts@),
                    pair_texts(env@),
                    texts(program@),
                )
            }),
        decreases env.len() - i,
    {
        proof {
            assert(pairs.take(i + 1).drop_last() =~= pairs.take(i as int));
            assert(pairs.take(i + 1).last() == pairs[i as int]);
        }
        cmd = cmd.env(env[i].0.as_str(), env[i].1.as_str());
        i += 1;
    }
    proof {
        assert(pairs.take(env.len() as int) =~= pairs);
    }
    cmd
}

/// The limits of a run: the configured defaults, overridden by those of
/// the language, overridden by those of the caller.
pub open spec fn run_limits_of(
    config: &Config,
    language: &Language,
    user: Option<ResourceLimits>,
) -> ResourceLimits {
    config.default_limits.merged_opt(language.run.limits).merged_opt(user)
}

/// The limits of a compilation: the compile defaults, overridden by those
/// of the language, overridden by those of the caller.
pub open spec fn compile_limits_of(
    language_limits: Option<ResourceLimits>,
    user: Option<ResourceLimits>,
) -> ResourceLimits {
    compile::compile_defaults().merged_opt(language_limits).merged_opt(user)
}

/// The limits that a reference stands for.
pub open spec fn deref_limits(o: Option<&ResourceLimits>) -> Option<ResourceLimits> {
    match o {
        Some(l) => Some(*l),
        None => None,
    }
}

/// In a stack of layers, each field comes from the topmost layer that sets
/// it: from the caller where the caller sets it, else from the language
/// where the language sets it, else from the defaults.
pub proof fn lemma_layered_limits(base: ResourceLimits, language: ResourceLimits, user: ResourceLimits)
    ensures
        ({
            let l = base.merged(language).merged(user);
            &&& l.time_limit == (if user.time_limit is Some {
                user.time_limit
            } else if language.time_limit is Some {
                language.time_limit
            } else {
                base.time_limit
            })
            &&& l.wall_time_limit == (if user.wall_time_limit is Some {
                user.wall_time_limit
            } else if language.wall_time_limit is Some {
                language.wall_time_limit
            } else {
                base.wall_time_limit
            })
            &&& l.extra_time == (if user.extra_time is Some {
                user.extra_time
            } else if language.extra_time is Some {
                language.extra_time
            } else {
                base.extra_time
            })
            &&& l.memory_limit == (if user.memory_limit is Some {
                user.memory_limit
            } else if language.memory_limit is Some {
                language.memory_limit
            } else {
                base.memory_limit
            })
            &&& l.stack_limit == (if user.stack_limit is Some {
                user.stack_limit
            } else if language.stack_limit is Some {
                language.stack_limit
            } else {
                base.stack_limit
            })
            &&& l.max_processes == (if user.max_processes is Some {
                user.max_processes
            } else if language.max_processes is Some {
                language.max_processes
            } else {
                base.max_processes
            })
            &&& l.max_output == (if user.max_output is Some {
                user.max_output
            } else if language.max_output is Some {
                language.max_output
            } else {
                base.max_output
            })
            &&& l.max_open_files == (if user.max_open_files is Some {
                user.max_open_files
            } else if language.max_open_files is Some {
                language.max_open_files
            } else {
                base.max_open_files
            })
        }),
{
}

/// Compiles and runs programs under one configuration.
#[derive(Debug, Clone)]
pub struct Runner {
    config: Config,
}

impl Runner {
    /// A runner under `config`.
    pub fn new(config: Config) -> (r: Self)
        ensures
            *r.spec_config() == config,
    {
        Runner { config }
    }

    /// The configuration.
    pub closed spec fn spec_config(&self) -> &Config {
        &self.config
    }

    /// The configuration.
    pub fn config(&self) -> (c: &Config)
        ensures
            c == self.spec_config(),
    {
        &self.config
    }

    /// The limits of a run of `language` where the caller asks for `user`.
    pub fn run_limits(&self, language: &Language, user: Option<&ResourceLimits>) -> (l:
        ResourceLimits)
        ensures
            l == run_limits_of(self.spec_config(), language, deref_limits(user)),
    {
        execute::run_limits(&self.config, language, user)
    }
}

} // verus!
