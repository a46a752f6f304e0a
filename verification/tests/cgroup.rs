use silicube::isolate::cgroup::{
    cgroup_state, controllers_file, lists_controller, setup_ops, subtree_control_file, CgroupOp,
    CgroupState,
};

#[test]
fn controllers_are_whitespace_separated_words() {
    assert!(lists_controller("cpuset cpu io memory hugetlb pids\n", "memory"));
    assert!(lists_controller("memory", "memory"));
    assert!(lists_controller("\tmemory\n", "memory"));
    assert!(lists_controller("cpu\u{a0}memory", "memory"));
    assert!(!lists_controller("cpuset cpu io pids\n", "memory"));
    assert!(!lists_controller("memoryx xmemory", "memory"));
    assert!(!lists_controller("mem ory", "memory"));
    assert!(!lists_controller("", "memory"));
    assert!(!lists_controller("a b", ""));
    for text in ["a b  c", " memory", "memory ", "x\nmemory\ty", "me mory", ""] {
        assert_eq!(
            lists_controller(text, "memory"),
            text.split_whitespace().any(|w| w == "memory")
        );
    }
}

#[test]
fn state_of_the_hierarchy() {
    assert_eq!(cgroup_state(None, None), CgroupState::Unavailable);
    assert_eq!(cgroup_state(None, Some("memory")), CgroupState::Unavailable);
    assert_eq!(cgroup_state(Some("cpu pids"), Some("memory")), CgroupState::Unavailable);
    assert_eq!(cgroup_state(Some("cpu memory"), Some("memory pids")), CgroupState::Ready);
    assert_eq!(cgroup_state(Some("cpu memory"), Some("pids")), CgroupState::NeedsSetup);
    assert_eq!(cgroup_state(Some("cpu memory"), None), CgroupState::NeedsSetup);
}

fn shown(op: &CgroupOp) -> String {
    match op {
        CgroupOp::EnsureDir(path) => format!("mkdir {path}"),
        CgroupOp::Write { path, content } => format!("write {path} <- {content}"),
    }
}

#[test]
fn setup_steps_in_order() {
    let ops: Vec<String> = setup_ops("/sys/fs/cgroup/isolate", 4321).iter().map(shown).collect();
    assert_eq!(
        ops,
        vec![
            "mkdir /sys/fs/cgroup/init",
            "write /sys/fs/cgroup/init/cgroup.procs <- 4321",
            "write /sys/fs/cgroup/cgroup.subtree_control <- +memory +pids",
            "mkdir /sys/fs/cgroup/isolate",
            "write /sys/fs/cgroup/isolate/cgroup.subtree_control <- +memory +pids",
        ]
    );
}

#[test]
fn control_files() {
    assert_eq!(controllers_file(), "/sys/fs/cgroup/cgroup.controllers");
    assert_eq!(
        subtree_control_file("/sys/fs/cgroup/isolate"),
        "/sys/fs/cgroup/isolate/cgroup.subtree_control"
    );
}
