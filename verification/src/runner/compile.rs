//! The compile step.

use vstd::prelude::*;
use crate::config::language::expand_args;
use crate::config::{Config, Language};
use crate::isolate::command::{mount_views, CommandView, IsolateCommand};
use crate::isolate::error::IsolateError;
use crate::isolate::host::{
    chosen_path, lookup_candidates, needs_lookup, not_found_message, resolve_command,
};
use crate::runner::{
    build_sandbox_command, clone_mounts, compile_limits_of, deref_limits, sandbox_command,
    CompileError,
};
use crate::text::{pair_texts, texts};
use crate::types::{ExecutionResult, ResourceLimits, Seconds};

verus! {

/// How a compilation went.
#[derive(Debug, Clone)]
pub struct CompileResult {
    /// Whether the compiler exited with code 0.
    pub success: bool,
    /// What the compiler used and how it ended.
    pub execution: ExecutionResult,
    /// What the compiler printed; the supervisor's message where it
    /// printed nothing.
    pub output: String,
}

impl CompileResult {
    /// Whether compilation succeeded.
    pub fn is_success(&self) -> (b: bool)
        ensures
            b == (self.success && self.execution.exit_code == Some(0i32)),
    {
        self.success && match self.execution.exit_code {
            Some(code) => code == 0,
            None => false,
        }
    }

    /// Whether the program may be run: only after a successful
    /// compilation.
    pub fn allows_run(&self) -> (b: bool)
        ensures
            b == self.success,
    {
        self.success
    }
}

/// The limits of a compilation unless language or caller say otherwise:
/// 30 seconds of CPU time, 60 seconds of wall-clock time, 512 megabytes of
/// memory, 10 processes, 64 megabytes of output; the rest as standard.
pub open spec fn compile_defaults() -> ResourceLimits {
    ResourceLimits {
        time_limit: Some(Seconds { millis: 30000 }),
        wall_time_limit: Some(Seconds { millis: 60000 }),
        memory_limit: Some(524288),
        max_processes: Some(10),
        max_output: Some(65536),
        ..ResourceLimits::standard()
    }
}

/// The limits of a compilation unless language or caller say otherwise.
pub fn default_compile_limits() -> (l: ResourceLimits)
    ensures
        l == compile_defaults(),
{
    let standard = ResourceLimits::new();
    ResourceLimits {
        time_limit: Some(Seconds::from_millis(30000)),
        wall_time_limit: Some(Seconds::from_millis(60000)),
        memory_limit: Some(524288),
        max_processes: Some(10),
        max_output: Some(65536),
        stack_limit: standard.stack_limit,
        max_open_files: standard.max_open_files,
        extra_time: standard.extra_time,
    }
}

/// The limits of a compilation: the compile defaults, overridden by those
/// of the language, overridden by those of the caller.
pub fn compile_limits(language_limits: Option<&ResourceLimits>, user: Option<&ResourceLimits>) -> (l:
    ResourceLimits)
    ensures
        l == compile_limits_of(deref_limits(language_limits), deref_limits(user)),
{
    default_compile_limits().with_layer(language_limits).with_layer(user)
}

/// The compile command of a compiled language with its placeholders
/// filled: the source name for `{source}`, the output name for `{output}`
/// and `{binary}`.
pub open spec fn compile_template(language: &Language) -> Seq<Seq<char>>
    recommends
        language.compile is Some,
{
    let c = language.compile->0;
    expand_args(texts(c.command@), c.source_name@, c.output_name@)
}

/// The supervisor invocation that compiles a program of `language` in box
/// `box_id`, with `program` as the command to run: under the compile
/// limits, with the default search path, the compiler's variables and the
/// global mounts.
pub open spec fn compile_command_view(
    config: &Config,
    language: &Language,
    user: Option<ResourceLimits>,
    box_id: u32,
    program: Seq<Seq<char>>,
) -> CommandView
    recommends
        language.compile is Some,
{
    let c = language.compile->0;
    sandbox_command(
        config,
        box_id,
        compile_limits_of(c.limits, user),
        "/usr/bin:/bin"@,
        mount_views(config.sandbox_mounts@),
        pair_texts(c.env@),
        program,
    )
}

/// The compile command of `language` with its placeholders filled.
pub fn expand_compile_command(language: &Language) -> (r: Vec<String>)
    requires
        language.compile is Some,
    ensures
        texts(r@) == compile_template(language),
{
    match &language.compile {
        Some(c) => Language::expand_command(
            c.command.as_slice(),
            c.source_name.as_str(),
            c.output_name.as_str(),
        ),
        None => Vec::new(),
    }
}

/// The supervisor invocation that compiles a program of the compiled
/// language `language`, with `program` as the command to run.
pub fn compile_command_for(
    config: &Config,
    language: &Language,
    limits: Option<&ResourceLimits>,
    box_id: u32,
    program: Vec<String>,
) -> (cmd: IsolateCommand)
    requires
        language.compile is Some,
    ensures
        cmd@ == compile_command_view(config, language, deref_limits(limits), box_id, texts(program@)),
{
    match &language.compile {
        Some(c) => {
            let effective = compile_limits(
                match &c.limits {
                    Some(l) => Some(l),
                    None => None,
                },
                limits,
            );
            build_sandbox_command(
                config,
                box_id,
                effective,
                "/usr/bin:/bin",
                clone_mounts(&config.sandbox_mounts),
                &c.env,
                program,
            )
        },
        None => IsolateCommand::new("", box_id),
    }
}

/// The supervisor invocation that compiles a program of `language` in box
/// `box_id`. A language without a compile step is refused. The compiler is
/// looked up on the search path `path_var` of the host: where its name has
/// to be looked up and is found nowhere, that is the error; otherwise the
/// invocation is that of `compile_command_for` for the template with the
/// compiler's place put in, the place being what `chosen_path` gives for
/// the host's answers.
pub fn compile_command(
    config: &Config,
    language: &Language,
    limits: Option<&ResourceLimits>,
    box_id: u32,
    path_var: &str,
) -> (r: Result<IsolateCommand, CompileError>)
    ensures
        language.compile is None ==> (r matches Err(CompileError::NotCompiled(name)) && name@
            == language.name@),
        language.compile is Some ==> match r {
            Ok(cmd) => {
                &&& cmd@ == compile_command_view(
                    config,
                    language,
                    deref_limits(limits),
                    box_id,
                    cmd@.command,
                )
                &&& cmd@.command.len() == compile_template(language).len()
                &&& cmd@.command.skip(1) == compile_template(language).skip(1)
                &&& !needs_lookup(compile_template(language)) ==> cmd@.command
                    == compile_template(language)
            },
            Err(e) => {
                &&& needs_lookup(compile_template(language))
                &&& e matches CompileError::Isolate(IsolateError::CommandFailed(message))
                &&& message@ == not_found_message(compile_template(language)[0])
            },
        },
        language.compile is Some && needs_lookup(compile_template(language)) ==> exists|
            present: Seq<bool>,
            canonical: Option<Seq<char>>,
        |
            {
                &&& present.len() == lookup_candidates(
                    path_var@,
                    compile_template(language)[0],
                ).len()
                &&& match #[trigger] chosen_path(
                    lookup_candidates(path_var@, compile_template(language)[0]),
                    present,
                    canonical,
                ) {
                    Some(place) => r matches Ok(cmd) && cmd@.command == compile_template(
                        language,
                    ).update(0, place),
                    None => r is Err,
                }
            },
{
    if language.compile.is_none() {
        return Err(CompileError::NotCompiled(language.name.clone()));
    }
    let mut program = expand_compile_command(language);
    match resolve_command(&mut program, path_var) {
        Ok(_) => {},
        Err(e) => {
            proof {
                assert(texts(program@)[0] == program@[0]@);
            }
            return Err(CompileError::Isolate(e));
        },
    }
    Ok(compile_command_for(config, language, limits, box_id, program))
}

/// What the caller gets out of a compilation: whether the compiler exited
/// with code 0, and what it printed. Where it printed nothing, the
/// supervisor's message stands in, if there is one.
pub fn finish_compile(result: ExecutionResult, output: String) -> (r: CompileResult)
    ensures
        r.success == (result.exit_code == Some(0i32)),
        r.execution == result,
        r.output@ == (if output@.len() == 0 && result.message is Some {
            result.message->0@
        } else {
            output@
        }),
{
    let success = match result.exit_code {
        Some(code) => code == 0,
        None => false,
    };
    let shown = if output.as_str().is_empty() {
        match &result.message {
            Some(message) => message.clone(),
            None => output,
        }
    } else {
        output
    };
    CompileResult { success, execution: result, output: shown }
}

} // verus!
