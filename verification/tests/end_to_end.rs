use silicube::config::{CompileConfig, Config, FileExtension, Language, RunConfig};
use silicube::isolate::{IsolateAction, IsolateCommand, MetaFile};
use silicube::runner::execute::run_limits;
use silicube::runner::interactive::{strip_line_ending, SessionState};
use silicube::types::{ExecutionStatus, LimitExceeded, ResourceLimits, Seconds};

fn secs(seconds: f64) -> Seconds {
    Seconds::from_millis((seconds * 1000.0).round() as u64)
}

fn as_f64(seconds: Seconds) -> f64 {
    seconds.as_millis() as f64 / 1000.0
}

#[test]
fn init_and_cleanup_vectors() {
    let init = IsolateCommand::new("isolate", 0).action(IsolateAction::Init).build();
    assert_eq!(init, vec!["isolate", "--box-id=0", "--init"]);
    let cleanup = IsolateCommand::new("isolate", 5)
        .action(IsolateAction::Cleanup)
        .cgroup(true)
        .build();
    assert_eq!(cleanup, vec!["isolate", "--box-id=5", "--cg", "--cleanup"]);
}

#[test]
fn full_run_flags_in_order() {
    let limits = ResourceLimits {
        time_limit: Some(secs(2.0)),
        wall_time_limit: Some(secs(5.0)),
        memory_limit: Some(262144),
        stack_limit: Some(131072),
        max_processes: Some(4),
        max_output: Some(65536),
        max_open_files: Some(128),
        extra_time: Some(secs(0.5)),
    };
    let args = IsolateCommand::new("isolate", 0)
        .action(IsolateAction::Run)
        .limits(limits)
        .command(vec!["./main".to_string()])
        .build();
    assert_eq!(
        args,
        vec![
            "isolate",
            "--box-id=0",
            "--run",
            "--time=2",
            "--wall-time=5",
            "--extra-time=0.5",
            "--mem=262144",
            "--stack=131072",
            "--processes=4",
            "--fsize=65536",
            "--open-files=128",
            "--",
            "./main",
        ]
    );
    assert_eq!(&args[args.len() - 2..], ["--", "./main"]);
}

#[test]
fn meta_time_limit() {
    let meta = MetaFile::parse("time:2.001\ntime-wall:2.500\nstatus:TO\nmessage:Time limit exceeded\n");
    assert_eq!(meta.status(), ExecutionStatus::TimeLimitExceeded);
    assert_eq!(meta.limit_exceeded(), LimitExceeded::Time);
    assert!((as_f64(meta.time()) - 2.001).abs() < 1e-9);
    assert_eq!(meta.time().as_millis(), 2001);
    assert_eq!(meta.wall_time().as_millis(), 2500);
}

#[test]
fn meta_wall_time_limit() {
    let meta = MetaFile::parse("time:1\ntime-wall:5.001\nstatus:TO\nmessage:Wall time limit exceeded\n");
    assert_eq!(meta.limit_exceeded(), LimitExceeded::WallTime);
    assert_eq!(meta.time().as_millis(), 1000);
}

#[test]
fn meta_out_of_memory() {
    let meta = MetaFile::parse("time:0.1\ncg-mem:262144\nstatus:SG\nexitsig:9\nmessage:Out of memory\n");
    assert_eq!(meta.status(), ExecutionStatus::Signaled);
    assert_eq!(meta.limit_exceeded(), LimitExceeded::Memory);
    assert_eq!(meta.memory(), 262144);
    assert_eq!(meta.signal(), Some(9));
}

fn language_with_limits(limits: Option<ResourceLimits>) -> Language {
    Language {
        name: "C++".to_owned(),
        extension: FileExtension::new("cpp").unwrap(),
        compile: Some(CompileConfig {
            command: vec!["/usr/bin/g++".to_owned(), "{source}".to_owned()],
            source_name: "main.cpp".to_owned(),
            output_name: "main".to_owned(),
            env: Vec::new(),
            limits: None,
        }),
        run: RunConfig {
            command: vec!["./{binary}".to_owned()],
            env: Vec::new(),
            mounts: Vec::new(),
            path: "/usr/bin:/bin".to_owned(),
            limits,
        },
    }
}

#[test]
fn layered_limits() {
    let mut config = Config::empty();
    config.default_limits = ResourceLimits {
        time_limit: Some(secs(2.0)),
        memory_limit: Some(256 * ResourceLimits::MB),
        ..Default::default()
    };
    let language = language_with_limits(Some(ResourceLimits {
        time_limit: Some(secs(5.0)),
        ..ResourceLimits::none()
    }));
    let user = ResourceLimits {
        memory_limit: Some(128 * ResourceLimits::MB),
        ..ResourceLimits::none()
    };
    let effective = run_limits(&config, &language, Some(&user));
    assert_eq!(effective.time_limit, Some(secs(5.0)));
    assert_eq!(effective.memory_limit, Some(128 * ResourceLimits::MB));
    let defaults = ResourceLimits::default();
    assert_eq!(effective.wall_time_limit, defaults.wall_time_limit);
    assert_eq!(effective.stack_limit, defaults.stack_limit);
    assert_eq!(effective.max_processes, defaults.max_processes);
    assert_eq!(effective.max_output, defaults.max_output);
    assert_eq!(effective.max_open_files, defaults.max_open_files);
    assert_eq!(effective.extra_time, defaults.extra_time);

    let without_user = run_limits(&config, &language, None);
    assert_eq!(without_user.time_limit, Some(secs(5.0)));
    assert_eq!(without_user.memory_limit, Some(256 * ResourceLimits::MB));
    let plain = run_limits(&config, &language_with_limits(None), None);
    assert_eq!(plain.time_limit, Some(secs(2.0)));
}

#[test]
fn interactive_alternation_of_lines() {
    let mut session = SessionState::new();
    assert!(session.check_write().is_ok());
    assert_eq!(strip_line_ending("a\n"), "a");
    assert!(session.check_write().is_ok());
    assert_eq!(strip_line_ending("b\r\n"), "b");
    session.close_stdin();
    assert!(session.check_write().is_err());
    assert!(session.begin_wait().is_ok());
    assert!(session.begin_wait().is_err());
    let report = MetaFile::parse("time:0.010\nexitcode:0\n").to_execution_result();
    assert!(report.is_success());
    assert_eq!(report.exit_code, Some(0));
}
