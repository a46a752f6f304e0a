use silicube::isolate::process::{
    batch_result, combine_output, interactive_result, plan_batch, plan_compile, plan_interactive,
    report_result, split_program,
};
use silicube::isolate::{IsolateBox, IsolateCommand, IsolateError};
use silicube::types::{ExecutionStatus, ResourceLimits};

fn sandbox() -> IsolateBox {
    IsolateBox::new(7, "/var/local/lib/isolate/7", "isolate", false, true)
}

fn command() -> IsolateCommand {
    IsolateCommand::new("isolate", 7)
        .limits(ResourceLimits::none())
        .command(vec!["./main".to_owned()])
}

#[test]
fn batch_plan_uses_host_and_sandbox_paths() {
    let plan = plan_batch(&sandbox(), command(), Some(b"input"));
    assert_eq!(plan.meta_path, "/var/local/lib/isolate/7/box/meta.txt");
    assert_eq!(plan.stdin_name, "stdin.txt");
    assert_eq!(plan.stdin_data, b"input");
    assert_eq!(plan.stdout_path, "/var/local/lib/isolate/7/box/stdout.txt");
    assert_eq!(plan.stderr_path, "/var/local/lib/isolate/7/box/stderr.txt");
    assert_eq!(
        plan.command.build(),
        vec![
            "isolate",
            "--box-id=7",
            "--run",
            "--meta=/var/local/lib/isolate/7/box/meta.txt",
            "--stdin=/box/stdin.txt",
            "--stdout=/box/stdout.txt",
            "--stderr=/box/stderr.txt",
            "--",
            "./main",
        ]
    );
}

#[test]
fn batch_plan_without_input_writes_an_empty_file() {
    let plan = plan_batch(&sandbox(), command(), None);
    assert_eq!(plan.stdin_name, "stdin.txt");
    assert!(plan.stdin_data.is_empty());
}

#[test]
fn compile_plan_has_its_own_files() {
    let plan = plan_compile(&sandbox(), command());
    assert_eq!(plan.meta_path, "/var/local/lib/isolate/7/box/meta.txt");
    assert_eq!(plan.stdin_name, "compile_stdin.txt");
    assert!(plan.stdin_data.is_empty());
    assert_eq!(plan.stdout_path, "/var/local/lib/isolate/7/box/compile_stdout.txt");
    assert_eq!(plan.stderr_path, "/var/local/lib/isolate/7/box/compile_stderr.txt");
    assert_eq!(
        plan.command.build(),
        vec![
            "isolate",
            "--box-id=7",
            "--run",
            "--meta=/var/local/lib/isolate/7/box/meta.txt",
            "--stdin=/box/compile_stdin.txt",
            "--stdout=/box/compile_stdout.txt",
            "--stderr=/box/compile_stderr.txt",
            "--",
            "./main",
        ]
    );
}

#[test]
fn interactive_plan_sets_only_the_report() {
    let plan = plan_interactive(&sandbox(), command());
    assert_eq!(plan.meta_path, "/var/local/lib/isolate/7/box/interactive_meta.txt");
    assert_eq!(
        plan.command.build(),
        vec![
            "isolate",
            "--box-id=7",
            "--run",
            "--meta=/var/local/lib/isolate/7/box/interactive_meta.txt",
            "--",
            "./main",
        ]
    );
}

#[test]
fn program_and_arguments() {
    let (program, rest) = split_program(vec!["isolate".to_owned(), "--init".to_owned()]).unwrap();
    assert_eq!(program, "isolate");
    assert_eq!(rest, vec!["--init"]);
    assert!(matches!(
        split_program(Vec::new()),
        Err(IsolateError::CommandFailed(m)) if m == "empty command arguments"
    ));
}

#[test]
fn missing_report_is_the_supervisors_failure() {
    assert!(matches!(
        report_result(None, "isolate: cannot run"),
        Err(IsolateError::CommandFailed(m)) if m == "isolate: cannot run"
    ));
    assert!(matches!(
        batch_result(None, "boom", Some(vec![1]), None),
        Err(IsolateError::CommandFailed(m)) if m == "boom"
    ));
    assert!(matches!(
        interactive_result(None),
        Err(IsolateError::CommandFailed(m)) if m == "no meta file produced"
    ));
}

#[test]
fn batch_result_attaches_the_output() {
    let result = batch_result(
        Some("time:0.010\nstatus:RE\nexitcode:1\n"),
        "",
        Some(b"out".to_vec()),
        None,
    )
    .unwrap();
    assert_eq!(result.status, ExecutionStatus::RuntimeError);
    assert_eq!(result.exit_code, Some(1));
    assert_eq!(result.time.as_millis(), 10);
    assert_eq!(result.stdout.as_deref(), Some(&b"out"[..]));
    assert!(result.stderr.is_none());
    let plain = report_result(Some("exitcode:0\n"), "ignored").unwrap();
    assert!(plain.is_success());
    assert!(plain.stdout.is_none());
    let interactive = interactive_result(Some("exitsig:9\nstatus:SG\n")).unwrap();
    assert_eq!(interactive.signal, Some(9));
}

#[test]
fn compiler_output_is_joined_by_a_line_feed() {
    assert_eq!(combine_output(Some("out"), Some("err")), "out\nerr");
    assert_eq!(combine_output(Some("out"), Some("")), "out");
    assert_eq!(combine_output(Some(""), Some("err")), "err");
    assert_eq!(combine_output(Some("out"), None), "out");
    assert_eq!(combine_output(None, Some("err")), "err");
    assert_eq!(combine_output(None, None), "");
    assert_eq!(combine_output(Some("a\n"), Some("b")), "a\n\nb");
}
