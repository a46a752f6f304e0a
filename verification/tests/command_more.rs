use silicube::isolate::{IsolateAction, IsolateCommand};
use silicube::types::{MountConfig, ResourceLimits};

fn mount(source: &str, target: &str, writable: bool, optional: bool) -> MountConfig {
    MountConfig {
        source: source.to_owned(),
        target: target.to_owned(),
        writable,
        optional,
    }
}

fn run(id: u32) -> IsolateCommand {
    IsolateCommand::new("isolate", id).limits(ResourceLimits::none())
}

#[test]
fn a_variable_set_twice_keeps_its_place_and_takes_the_new_value() {
    let args = run(1)
        .env("A", "1")
        .env("B", "2")
        .env("A", "3")
        .command(vec!["x".to_owned()])
        .build();
    assert_eq!(
        args,
        vec!["isolate", "--box-id=1", "--run", "--env=A=3", "--env=B=2", "--", "x"]
    );
}

#[test]
fn options_come_in_the_supervisors_order() {
    let args = run(2)
        .cgroup(true)
        .limits(ResourceLimits::none().with_memory_limit(1024))
        .working_dir("/box")
        .stderr("/box/e")
        .stdout("/box/o")
        .stdin("/box/i")
        .meta_file("/host/meta")
        .env_inherit("LANG")
        .env("K", "V")
        .full_env(true)
        .mount(mount("/lib", "/lib", false, false))
        .command(vec!["prog".to_owned(), "--time=9".to_owned()])
        .build();
    assert_eq!(
        args,
        vec![
            "isolate",
            "--box-id=2",
            "--cg",
            "--run",
            "--cg-mem=1024",
            "--dir=/lib=/lib",
            "--full-env",
            "--env=K=V",
            "--env=LANG",
            "--meta=/host/meta",
            "--stdin=/box/i",
            "--stdout=/box/o",
            "--stderr=/box/e",
            "--chdir=/box",
            "--",
            "prog",
            "--time=9",
        ]
    );
}

#[test]
fn unset_limits_leave_no_flag() {
    let args = run(0).command(vec!["./main".to_owned()]).build();
    assert_eq!(args, vec!["isolate", "--box-id=0", "--run", "--", "./main"]);
    let only_time = run(0)
        .limits(ResourceLimits::none().with_max_processes(3))
        .command(vec!["./main".to_owned()])
        .build();
    assert_eq!(
        only_time,
        vec!["isolate", "--box-id=0", "--run", "--processes=3", "--", "./main"]
    );
}

#[test]
fn optional_mount_is_written_only_where_its_source_is() {
    let here = mount("/", "/host-root", false, true);
    let gone = mount("/no/such/source/anywhere", "/gone", true, true);
    let required_gone = mount("/no/such/source/anywhere", "/needed", true, false);
    let args = run(0)
        .mounts(vec![here, gone, required_gone])
        .command(vec!["x".to_owned()])
        .build();
    assert_eq!(
        args,
        vec![
            "isolate",
            "--box-id=0",
            "--run",
            "--dir=/host-root=/:maybe",
            "--dir=/needed=/no/such/source/anywhere:rw",
            "--",
            "x",
        ]
    );
}

#[test]
fn build_with_takes_the_hosts_answers_as_given() {
    let mounts = vec![
        mount("/a", "/a", true, true),
        mount("/b", "/b", false, true),
        mount("/c", "/c", false, false),
    ];
    let args = run(0)
        .mounts(mounts)
        .command(vec!["x".to_owned()])
        .build_with(&vec![true, false, false]);
    assert_eq!(
        args,
        vec!["isolate", "--box-id=0", "--run", "--dir=/a=/a:rw:maybe", "--dir=/c=/c", "--", "x"]
    );
}

#[test]
fn probe_counts_required_mounts_as_present() {
    let cmd = run(0).mounts(vec![
        mount("/no/such/source/anywhere", "/x", false, false),
        mount("/no/such/source/anywhere", "/y", false, true),
        mount("/", "/z", false, true),
    ]);
    assert_eq!(cmd.probe_mounts(), vec![true, false, true]);
}

#[test]
fn lifecycle_actions_ignore_everything_else() {
    for (action, word) in [(IsolateAction::Init, "--init"), (IsolateAction::Cleanup, "--cleanup")] {
        let args = IsolateCommand::new("isolate", 4294967295)
            .action(action)
            .cgroup(true)
            .full_env(true)
            .mount(mount("/a", "/a", true, false))
            .meta_file("/m")
            .command(vec!["x".to_owned()])
            .build();
        assert_eq!(args, vec!["isolate", "--box-id=4294967295", "--cg", word]);
    }
}

#[test]
fn new_command_runs_with_the_standard_limits() {
    let args = IsolateCommand::new("isolate", 0).build();
    assert_eq!(
        args,
        vec![
            "isolate",
            "--box-id=0",
            "--run",
            "--time=2",
            "--wall-time=5",
            "--extra-time=0.5",
            "--mem=262144",
            "--stack=262144",
            "--processes=1",
            "--fsize=65536",
            "--open-files=64",
            "--",
        ]
    );
}
