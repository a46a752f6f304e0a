//! One run of the supervisor: what to hand it, and what to make of what
//! comes back.
//!
//! Starting the supervisor and reading its files is the caller's part. The
//! functions here fix the file names and paths beforehand and turn the
//! report and the captured output into a result afterwards.

use vstd::prelude::*;
use vstd::slice::slice_to_vec;
use vstd::string::StringExecFns;
use crate::isolate::box_manager::{
    host_path, name_allowed, sandbox_path_of, IsolateBox,
};
use crate::isolate::command::{CommandView, IsolateCommand};
use crate::isolate::error::IsolateError;
use crate::isolate::host::join;
use crate::isolate::meta::{report_of, MetaFile};
use crate::text::texts;
use crate::types::{opt_bytes, ExecutionResult, ExecutionResultView};

verus! {

/// The file names of a run are allowed in every box.
pub proof fn lemma_run_names_allowed()
    ensures
        name_allowed("meta.txt"@),
        name_allowed("stdin.txt"@),
        name_allowed("stdout.txt"@),
        name_allowed("stderr.txt"@),
        name_allowed("compile_stdin.txt"@),
        name_allowed("compile_stdout.txt"@),
        name_allowed("compile_stderr.txt"@),
        name_allowed("interactive_meta.txt"@),
{
    reveal_strlit("meta.txt");
    reveal_strlit("stdin.txt");
    reveal_strlit("stdout.txt");
    reveal_strlit("stderr.txt");
    reveal_strlit("compile_stdin.txt");
    reveal_strlit("compile_stdout.txt");
    reveal_strlit("compile_stderr.txt");
    reveal_strlit("interactive_meta.txt");
}

/// What a batch run needs on the host besides the supervisor itself.
#[derive(Debug)]
pub struct BatchPlan {
    /// The invocation, with report and redirections set.
    pub command: IsolateCommand,
    /// Where the supervisor writes its report: a path on the host.
    pub meta_path: String,
    /// Name, in the box, of the file that the program reads as standard
    /// input. It is written before the run, even where it is empty.
    pub stdin_name: String,
    /// What that file holds.
    pub stdin_data: Vec<u8>,
    /// Where the program's standard output ends up: a path on the host.
    pub stdout_path: String,
    /// Where the program's standard error ends up: a path on the host.
    pub stderr_path: String,
}

/// The names of the files of one kind of run.
pub struct RunNames {
    pub meta: Seq<char>,
    pub stdin: Seq<char>,
    pub stdout: Seq<char>,
    pub stderr: Seq<char>,
}

/// `command` with the report at its host path and the three redirections
/// at their sandbox paths.
pub open spec fn with_files(command: CommandView, box_path: Seq<char>, names: RunNames) -> CommandView {
    CommandView {
        meta_file: Some(host_path(box_path, names.meta)),
        stdin: Some(sandbox_path_of(names.stdin)),
        stdout: Some(sandbox_path_of(names.stdout)),
        stderr: Some(sandbox_path_of(names.stderr)),
        ..command
    }
}

/// The file names of a batch run.
pub open spec fn batch_names() -> RunNames {
    RunNames {
        meta: "meta.txt"@,
        stdin: "stdin.txt"@,
        stdout: "stdout.txt"@,
        stderr: "stderr.txt"@,
    }
}

/// The file names of a compilation.
pub open spec fn compile_names() -> RunNames {
    RunNames {
        meta: "meta.txt"@,
        stdin: "compile_stdin.txt"@,
        stdout: "compile_stdout.txt"@,
        stderr: "compile_stderr.txt"@,
    }
}

fn host_file(sandbox: &IsolateBox, name: &str) -> (p: String)
    ensures
        p@ == host_path(sandbox@.box_path, name@),
{
    let dir = join(sandbox.path(), "box");
    join(dir.as_str(), name)
}

fn sandbox_file(name: &str) -> (p: String)
    ensures
        p@ == sandbox_path_of(name@),
{
    join("/box", name)
}

fn plan_with(
    sandbox: &IsolateBox,
    command: IsolateCommand,
    meta: &str,
    stdin: &str,
    stdout: &str,
    stderr: &str,
    stdin_data: Vec<u8>,
) -> (plan: BatchPlan)
    ensures
        plan.command@ == with_files(
            command@,
            sandbox@.box_path,
            RunNames { meta: meta@, stdin: stdin@, stdout: stdout@, stderr: stderr@ },
        ),
        plan.meta_path@ == host_path(sandbox@.box_path, meta@),
        plan.stdin_name@ == stdin@,
        plan.stdin_data@ == stdin_data@,
        plan.stdout_path@ == host_path(sandbox@.box_path, stdout@),
        plan.stderr_path@ == host_path(sandbox@.box_path, stderr@),
{
    let meta_path = host_file(sandbox, meta);
    let configured = command.meta_file(meta_path.as_str()).stdin(
        sandbox_file(stdin).as_str(),
    ).stdout(sandbox_file(stdout).as_str()).stderr(sandbox_file(stderr).as_str());
    BatchPlan {
        command: configured,
        meta_path,
        stdin_name: stdin.to_owned(),
        stdin_data,
        stdout_path: host_file(sandbox, stdout),
        stderr_path: host_file(sandbox, stderr),
    }
}

/// Plans a batch run of `command` in `sandbox`. The program reads
/// `stdin_data`, or nothing, from `stdin.txt`; its output goes to
/// `stdout.txt` and `stderr.txt`, the report to `meta.txt`. The supervisor
/// is given the sandbox paths of the redirections and the host path of the
/// report.
pub fn plan_batch(sandbox: &IsolateBox, command: IsolateCommand, stdin_data: Option<&[u8]>) -> (plan:
    BatchPlan)
    ensures
        plan.command@ == with_files(command@, sandbox@.box_path, batch_names()),
        plan.meta_path@ == host_path(sandbox@.box_path, "meta.txt"@),
        plan.stdin_name@ == "stdin.txt"@,
        plan.stdin_data@ == (match stdin_data {
            Some(data) => data@,
            None => Seq::<u8>::empty(),
        }),
        plan.stdout_path@ == host_path(sandbox@.box_path, "stdout.txt"@),
        plan.stderr_path@ == host_path(sandbox@.box_path, "stderr.txt"@),
{
    let data: Vec<u8> = match stdin_data {
        Some(bytes) => slice_to_vec(bytes),
        None => Vec::new(),
    };
    plan_with(sandbox, command, "meta.txt", "stdin.txt", "stdout.txt", "stderr.txt", data)
}

/// Plans a compilation by `command` in `sandbox`. The compiler reads
/// nothing, from `compile_stdin.txt`; its output goes to
/// `compile_stdout.txt` and `compile_stderr.txt`, the report to `meta.txt`.
pub fn plan_compile(sandbox: &IsolateBox, command: IsolateCommand) -> (plan: BatchPlan)
    ensures
        plan.command@ == with_files(command@, sandbox@.box_path, compile_names()),
        plan.meta_path@ == host_path(sandbox@.box_path, "meta.txt"@),
        plan.stdin_name@ == "compile_stdin.txt"@,
        plan.stdin_data@ == Seq::<u8>::empty(),
        plan.stdout_path@ == host_path(sandbox@.box_path, "compile_stdout.txt"@),
        plan.stderr_path@ == host_path(sandbox@.box_path, "compile_stderr.txt"@),
{
    plan_with(
        sandbox,
        command,
        "meta.txt",
        "compile_stdin.txt",
        "compile_stdout.txt",
        "compile_stderr.txt",
        Vec::new(),
    )
}

/// What an interactive run needs on the host besides the supervisor.
#[derive(Debug)]
pub struct InteractivePlan {
    /// The invocation, with the report set and nothing redirected: the
    /// program talks through the supervisor's own pipes.
    pub command: IsolateCommand,
    /// Where the supervisor writes its report: a path on the host.
    pub meta_path: String,
}

/// Plans an interactive run of `command` in `sandbox`: the report goes to
/// `interactive_meta.txt`.
pub fn plan_interactive(sandbox: &IsolateBox, command: IsolateCommand) -> (plan: InteractivePlan)
    ensures
        plan.command@ == (CommandView {
            meta_file: Some(host_path(sandbox@.box_path, "interactive_meta.txt"@)),
            ..command@
        }),
        plan.meta_path@ == host_path(sandbox@.box_path, "interactive_meta.txt"@),
{
    let meta_path = host_file(sandbox, "interactive_meta.txt");
    InteractivePlan { command: command.meta_file(meta_path.as_str()), meta_path }
}

/// Splits an argument vector into the program to start and its arguments.
/// An empty vector cannot be started.
pub fn split_program(args: Vec<String>) -> (r: Result<(String, Vec<String>), IsolateError>)
    ensures
        match r {
            Ok((program, rest)) => args@.len() > 0 && program@ == args@[0]@ && texts(rest@)
                == texts(args@).skip(1),
            Err(e) => {
                &&& args@.len() == 0
                &&& e matches IsolateError::CommandFailed(message)
                &&& message@ == "empty command arguments"@
            },
        },
{
    if args.len() == 0 {
        return Err(IsolateError::CommandFailed("empty command arguments".to_owned()));
    }
    let mut rest = args;
    let program = rest.remove(0);
    assert(texts(rest@) =~= texts(args@).skip(1));
    Ok((program, rest))
}

/// The result that a report amounts to. Where the supervisor left no
/// report, what it wrote to its own standard error is the failure.
pub fn report_result(meta: Option<&str>, supervisor_stderr: &str) -> (r: Result<
    ExecutionResult,
    IsolateError,
>)
    ensures
        match meta {
            Some(content) => r matches Ok(result) && result@ == report_of(
                MetaFile::lenient(content@),
            ),
            None => r matches Err(IsolateError::CommandFailed(message)) && message@
                == supervisor_stderr@,
        },
{
    match meta {
        Some(content) => Ok(MetaFile::parse(content).to_execution_result()),
        None => Err(IsolateError::CommandFailed(supervisor_stderr.to_owned())),
    }
}

/// The result of a batch run: what the report says, with the captured
/// output attached where there is any. Where the supervisor left no
/// report, what it wrote to its own standard error is the failure.
pub fn batch_result(
    meta: Option<&str>,
    supervisor_stderr: &str,
    stdout: Option<Vec<u8>>,
    stderr: Option<Vec<u8>>,
) -> (r: Result<ExecutionResult, IsolateError>)
    ensures
        match meta {
            Some(content) => r matches Ok(result) && result@ == (ExecutionResultView {
                stdout: opt_bytes(stdout),
                stderr: opt_bytes(stderr),
                ..report_of(MetaFile::lenient(content@))
            }),
            None => r matches Err(IsolateError::CommandFailed(message)) && message@
                == supervisor_stderr@,
        },
{
    match report_result(meta, supervisor_stderr) {
        Ok(result) => {
            let mut result = result;
            result.stdout = stdout;
            result.stderr = stderr;
            Ok(result)
        },
        Err(e) => Err(e),
    }
}

/// The result of an interactive run once the program has exited: what the
/// report says. No report is a failure.
pub fn interactive_result(meta: Option<&str>) -> (r: Result<ExecutionResult, IsolateError>)
    ensures
        match meta {
            Some(content) => r matches Ok(result) && result@ == report_of(
                MetaFile::lenient(content@),
            ),
            None => r matches Err(IsolateError::CommandFailed(message)) && message@
                == "no meta file produced"@,
        },
{
    report_result(meta, "no meta file produced")
}

/// What a compiler printed: its standard output, then its standard error,
/// with a line feed between the two where neither is empty. A stream that
/// was not captured counts as empty.
pub open spec fn combined_output(stdout: Option<Seq<char>>, stderr: Option<Seq<char>>) -> Seq<char> {
    let out = match stdout {
        Some(s) => s,
        None => Seq::empty(),
    };
    let err = match stderr {
        Some(s) => s,
        None => Seq::empty(),
    };
    if out.len() > 0 && err.len() > 0 {
        out + seq!['\n'] + err
    } else {
        out + err
    }
}

/// What a compiler printed, from its two streams.
pub fn combine_output(stdout: Option<&str>, stderr: Option<&str>) -> (s: String)
    ensures
        s@ == combined_output(
            match stdout {
                Some(t) => Some(t@),
                None => None,
            },
            match stderr {
                Some(t) => Some(t@),
                None => None,
            },
        ),
{
    let mut s = String::new();
    match stdout {
        Some(out) => {
            s.append(out);
        },
        None => {},
    }
    let ghost out = s@;
    match stderr {
        Some(err) => {
            if !s.as_str().is_empty() && !err.is_empty() {
                s.push('\n');
                assert(out.push('\n') =~= out + seq!['\n']);
            }
            s.append(err);
        },
        None => {
            assert(out + Seq::<char>::empty() =~= out);
        },
    }
    assert(Seq::<char>::empty() + out =~= out);
    s
}

} // verus!
