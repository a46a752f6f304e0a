//! The run step.

use vstd::prelude::*;
use crate::config::language::expand_args;
use crate::config::{Config, Language};
use crate::isolate::command::{mount_views, CommandView, IsolateCommand};
use crate::isolate::error::IsolateError;
use crate::isolate::host::{
    chosen_path, lookup_candidates, needs_lookup, not_found_message, resolve_command,
    validate_mounts,
};
use crate::runner::{
    build_sandbox_command, clone_mounts, deref_limits, run_limits_of, sandbox_command,
    ExecuteError,
};
use crate::text::{concat3, pair_texts, texts};
use crate::types::{ExecutionResult, LimitExceeded, ResourceLimits};

verus! {

/// The limits of a run: the configured defaults, overridden by those of
/// the language, overridden by those of the caller.
pub fn run_limits(config: &Config, language: &Language, user: Option<&ResourceLimits>) -> (l:
    ResourceLimits)
    ensures
        l == run_limits_of(config, language, deref_limits(user)),
{
    let of_language: Option<&ResourceLimits> = match &language.run.limits {
        Some(l) => Some(l),
        None => None,
    };
    config.default_limits.with_layer(of_language).with_layer(user)
}

/// The file that has to lie in the box before a run: what compilation
/// produced for a compiled language, the source for an interpreted one.
pub open spec fn staged_file(language: &Language) -> Seq<char> {
    match language.compile {
        Some(c) => c.output_name@,
        None => language.source_file(),
    }
}

/// The run command with its placeholders filled. For a compiled language
/// `{source}` is the source name and `{output}` and `{binary}` are what
/// compilation produced; for an interpreted one all three are the source
/// name.
pub open spec fn run_template(language: &Language) -> Seq<Seq<char>> {
    match language.compile {
        Some(c) => expand_args(texts(language.run.command@), c.source_name@, c.output_name@),
        None => expand_args(
            texts(language.run.command@),
            language.source_file(),
            language.source_file(),
        ),
    }
}

/// What is reported where the file to run does not lie in the box.
pub open spec fn not_staged_message(language: &Language) -> Seq<char> {
    match language.compile {
        Some(c) => "binary '"@ + c.output_name@
            + "' not found in sandbox - was compilation run?"@,
        None => "source '"@ + language.source_file()
            + "' not found in sandbox - write source first"@,
    }
}

/// The supervisor invocation that runs a program of `language` in box
/// `box_id`, with `program` as the command to run: under the run limits,
/// with the language's search path and variables, and with the global
/// mounts followed by the language's.
pub open spec fn run_command_view(
    config: &Config,
    language: &Language,
    user: Option<ResourceLimits>,
    box_id: u32,
    program: Seq<Seq<char>>,
) -> CommandView {
    sandbox_command(
        config,
        box_id,
        run_limits_of(config, language, user),
        language.run.path@,
        mount_views(config.sandbox_mounts@) + mount_views(language.run.mounts@),
        pair_texts(language.run.env@),
        program,
    )
}

/// `e` is a reason for which the host refuses a run of `language`: its
/// program has to be looked up and is found nowhere, or one of its
/// required mounts has no source.
pub open spec fn run_refused_with(language: &Language, e: IsolateError) -> bool {
    ||| {
        &&& needs_lookup(run_template(language))
        &&& e matches IsolateError::CommandFailed(message)
        &&& message@ == not_found_message(run_template(language)[0])
    }
    ||| exists|i: int|
        {
            &&& 0 <= i < language.run.mounts@.len()
            &&& !(#[trigger] language.run.mounts@[i]).optional
            &&& e matches IsolateError::MountSourceNotFound(source)
            &&& source@ == language.run.mounts@[i].source@
        }
}

/// How a run of `language` is settled once the lookup of its program has
/// settled on `found`. With a place found, the command is the template
/// with that place put in, unless a required mount lacks its source, which
/// is then the refusal. With none found, there is no command and the
/// refusal is the program that was found nowhere.
pub open spec fn run_settled_as(
    language: &Language,
    command: Option<Seq<Seq<char>>>,
    refusal: Option<IsolateError>,
    found: Option<Seq<char>>,
) -> bool {
    match found {
        Some(place) => match command {
            Some(program) => program == run_template(language).update(0, place),
            None => refusal is Some && refusal->0 is MountSourceNotFound,
        },
        None => command is None && refusal is Some && refusal->0 is CommandFailed,
    }
}

/// The name of the file that has to lie in the box before a run.
pub fn staged_name(language: &Language) -> (s: String)
    ensures
        s@ == staged_file(language),
{
    match &language.compile {
        Some(c) => c.output_name.clone(),
        None => language.source_name(),
    }
}

/// The run command of `language` with its placeholders filled.
pub fn expand_run_command(language: &Language) -> (r: Vec<String>)
    ensures
        texts(r@) == run_template(language),
{
    match &language.compile {
        Some(c) => Language::expand_command(
            language.run.command.as_slice(),
            c.source_name.as_str(),
            c.output_name.as_str(),
        ),
        None => {
            let source = language.source_name();
            Language::expand_command(
                language.run.command.as_slice(),
                source.as_str(),
                source.as_str(),
            )
        },
    }
}

/// The error for a run whose file does not lie in the box.
pub fn not_staged(language: &Language) -> (e: ExecuteError)
    ensures
        e matches ExecuteError::NotStarted(message) && message@ == not_staged_message(language),
{
    match &language.compile {
        Some(c) => ExecuteError::NotStarted(
            concat3(
                "binary '",
                c.output_name.as_str(),
                "' not found in sandbox - was compilation run?",
            ),
        ),
        None => {
            let source = language.source_name();
            ExecuteError::NotStarted(
                concat3(
                    "source '",
                    source.as_str(),
                    "' not found in sandbox - write source first",
                ),
            )
        },
    }
}

/// The supervisor invocation that runs a program of `language`, with
/// `program` as the command to run.
pub fn run_command_for(
    config: &Config,
    language: &Language,
    limits: Option<&ResourceLimits>,
    box_id: u32,
    program: Vec<String>,
) -> (cmd: IsolateCommand)
    ensures
        cmd@ == run_command_view(config, language, deref_limits(limits), box_id, texts(program@)),
{
    let effective = run_limits(config, language, limits);
    let mut mounts = clone_mounts(&config.sandbox_mounts);
    let mut more = clone_mounts(&language.run.mounts);
    let ghost first = mounts@;
    let ghost second = more@;
    mounts.append(&mut more);
    proof {
        assert(mount_views(first + second) =~= mount_views(first) + mount_views(second));
    }
    build_sandbox_command(
        config,
        box_id,
        effective,
        language.run.path.as_str(),
        mounts,
        &language.run.env,
        program,
    )
}

/// The supervisor invocation that runs a program of `language` in box
/// `box_id`, after what the host says. The program is looked up on the
/// search path `path_var` of the host, then the sources of the language's
/// required mounts are checked. The error is the program that was found
/// nowhere or a required mount without its source; otherwise the invocation
/// is that of `run_command_for` for the template with the program's place
/// put in.
pub fn prepare_run(
    config: &Config,
    language: &Language,
    limits: Option<&ResourceLimits>,
    box_id: u32,
    path_var: &str,
) -> (r: Result<IsolateCommand, IsolateError>)
    ensures
        match r {
            Ok(cmd) => {
                &&& cmd@ == run_command_view(
                    config,
                    language,
                    deref_limits(limits),
                    box_id,
                    cmd@.command,
                )
                &&& cmd@.command.len() == run_template(language).len()
                &&& cmd@.command.skip(1) == run_template(language).skip(1)
                &&& !needs_lookup(run_template(language)) ==> cmd@.command == run_template(
                    language,
                )
            },
            Err(e) => run_refused_with(language, e),
        },
        !needs_lookup(run_template(language)) && (forall|i: int|
            0 <= i < language.run.mounts@.len() ==> (#[trigger] language.run.mounts@[i]).optional)
            ==> r is Ok,
        needs_lookup(run_template(language)) ==> exists|
            present: Seq<bool>,
            canonical: Option<Seq<char>>,
        |
            {
                &&& present.len() == lookup_candidates(path_var@, run_template(language)[0]).len()
                &&& run_settled_as(
                    language,
                    match r {
                        Ok(cmd) => Some(cmd@.command),
                        Err(_) => None,
                    },
                    match r {
                        Ok(_) => None,
                        Err(e) => Some(e),
                    },
                    #[trigger] chosen_path(
                        lookup_candidates(path_var@, run_template(language)[0]),
                        present,
                        canonical,
                    ),
                )
            },
{
    let mut program = expand_run_command(language);
    match resolve_command(&mut program, path_var) {
        Ok(_) => {},
        Err(e) => {
            proof {
                assert(texts(program@)[0] == program@[0]@);
            }
            return Err(e);
        },
    }
    match validate_mounts(language.run.mounts.as_slice()) {
        Ok(_) => {},
        Err(e) => {
            return Err(e);
        },
    }
    Ok(run_command_for(config, language, limits, box_id, program))
}

/// The supervisor invocation that runs a program of `language` in box
/// `box_id`. `staged` says whether the file to run lies in the box; where
/// it does not, nothing is run and the error says which file is missing.
/// Otherwise the outcome is that of `prepare_run`.
pub fn execute_command(
    config: &Config,
    language: &Language,
    limits: Option<&ResourceLimits>,
    box_id: u32,
    staged: bool,
    path_var: &str,
) -> (r: Result<IsolateCommand, ExecuteError>)
    ensures
        !staged ==> (r matches Err(ExecuteError::NotStarted(message)) && message@
            == not_staged_message(language)),
        staged ==> match r {
            Ok(cmd) => {
                &&& cmd@ == run_command_view(
                    config,
                    language,
                    deref_limits(limits),
                    box_id,
                    cmd@.command,
                )
                &&& cmd@.command.len() == run_template(language).len()
                &&& cmd@.command.skip(1) == run_template(language).skip(1)
                &&& !needs_lookup(run_template(language)) ==> cmd@.command == run_template(
                    language,
                )
            },
            Err(e) => e matches ExecuteError::Isolate(inner) && run_refused_with(language, inner),
        },
        staged && !needs_lookup(run_template(language)) && (forall|i: int|
            0 <= i < language.run.mounts@.len() ==> (#[trigger] language.run.mounts@[i]).optional)
            ==> r is Ok,
        staged && needs_lookup(run_template(language)) ==> exists|
            present: Seq<bool>,
            canonical: Option<Seq<char>>,
        |
            {
                &&& present.len() == lookup_candidates(path_var@, run_template(language)[0]).len()
                &&& run_settled_as(
                    language,
                    match r {
                        Ok(cmd) => Some(cmd@.command),
                        Err(_) => None,
                    },
                    match r {
                        Err(ExecuteError::Isolate(e)) => Some(e),
                        _ => None,
                    },
                    #[trigger] chosen_path(
                        lookup_candidates(path_var@, run_template(language)[0]),
                        present,
                        canonical,
                    ),
                )
            },
{
    if !staged {
        return Err(not_staged(language));
    }
    match prepare_run(config, language, limits, box_id, path_var) {
        Ok(cmd) => Ok(cmd),
        Err(e) => Err(ExecuteError::Isolate(e)),
    }
}

/// The result of a run as the caller gets it: where a memory limit was
/// set, a run that failed unexplained at that limit counts as out of
/// memory. Nothing else changes.
pub fn finish_execution(result: ExecutionResult, memory_limit: Option<u64>) -> (r: ExecutionResult)
    ensures
        r.limit_exceeded == (if memory_limit is Some && result.ran_out_of_memory(memory_limit->0) {
            LimitExceeded::Memory
        } else {
            result.limit_exceeded
        }),
        r == (ExecutionResult { limit_exceeded: r.limit_exceeded, ..result }),
{
    let mut r = result;
    match memory_limit {
        Some(limit) => {
            r.detect_memory_limit(limit);
        },
        None => {},
    }
    r
}

} // verus!
