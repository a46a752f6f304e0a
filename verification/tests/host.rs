use std::path::Path;

use silicube::isolate::host::{
    apply_lookup, candidates, check_mounts, choose_path, first_existing, join, probe_required,
    split,
};
use silicube::isolate::{resolve_command, validate_mounts, IsolateError};
use silicube::types::MountConfig;

fn mount(source: &str, optional: bool) -> MountConfig {
    MountConfig {
        source: source.to_owned(),
        target: "/t".to_owned(),
        writable: false,
        optional,
    }
}

#[test]
fn joining_paths() {
    assert_eq!(join("/usr/bin", "gcc"), "/usr/bin/gcc");
    assert_eq!(join("/usr/bin/", "gcc"), "/usr/bin/gcc");
    assert_eq!(join("", "gcc"), "gcc");
    assert_eq!(join("/usr/bin", "/bin/sh"), "/bin/sh");
    assert_eq!(join("/box", ""), "/box/");
    for (base, name) in [("/a", "b"), ("/a/", "b"), ("", "b"), ("/a", "/b"), ("a", ""), ("/", "x")] {
        assert_eq!(Path::new(&join(base, name)), Path::new(base).join(name).as_path());
    }
}

#[test]
fn splitting_a_search_path() {
    assert_eq!(split("/bin:/usr/bin", ':'), vec!["/bin", "/usr/bin"]);
    assert_eq!(split("", ':'), vec![""]);
    assert_eq!(split(":/bin:", ':'), vec!["", "/bin", ""]);
    for text in ["a:b:c", "::", "abc", ":", "a:"] {
        let expected: Vec<&str> = text.split(':').collect();
        assert_eq!(split(text, ':'), expected);
    }
}

#[test]
fn candidates_in_search_order() {
    assert_eq!(
        candidates("/usr/local/bin:/usr/bin/::/bin", "cc"),
        vec!["/usr/local/bin/cc", "/usr/bin/cc", "cc", "/bin/cc"]
    );
}

#[test]
fn required_mounts_are_checked_in_order() {
    let mounts = vec![mount("/a", false), mount("/b", true), mount("/c", false), mount("/d", false)];
    assert!(check_mounts(&mounts, &vec![true, false, true, true]).is_ok());
    match check_mounts(&mounts, &vec![true, false, false, false]) {
        Err(IsolateError::MountSourceNotFound(source)) => assert_eq!(source, "/c"),
        other => panic!("expected MountSourceNotFound, got {other:?}"),
    }
    assert!(check_mounts(&[], &Vec::new()).is_ok());
}

#[test]
fn validate_mounts_asks_the_host() {
    assert!(validate_mounts(&[]).is_ok());
    assert!(validate_mounts(&[mount("/", false)]).is_ok());
    assert!(validate_mounts(&[mount("/no/such/source/anywhere", true)]).is_ok());
    match validate_mounts(&[mount("/", false), mount("/no/such/source/anywhere", false)]) {
        Err(IsolateError::MountSourceNotFound(source)) => {
            assert_eq!(source, "/no/such/source/anywhere")
        }
        other => panic!("expected MountSourceNotFound, got {other:?}"),
    }
    assert_eq!(
        probe_required(&[mount("/", false), mount("/no/such/x", false), mount("/no/such/x", true)]),
        vec![true, false, true]
    );
}

#[test]
fn a_command_with_a_slash_stays_as_it_is() {
    let mut command = vec!["./main".to_owned(), "arg".to_owned()];
    assert!(resolve_command(&mut command, "/no/such/dir").is_ok());
    assert_eq!(command, vec!["./main", "arg"]);
    let mut empty: Vec<String> = Vec::new();
    assert!(resolve_command(&mut empty, "/bin").is_ok());
    assert!(empty.is_empty());
}

#[test]
fn a_program_that_is_nowhere_is_an_error() {
    let mut command = vec!["no-such-program-here".to_owned(), "arg".to_owned()];
    match resolve_command(&mut command, "/no/such/dir:/") {
        Err(IsolateError::CommandFailed(message)) => {
            assert_eq!(message, "command 'no-such-program-here' not found in PATH")
        }
        other => panic!("expected CommandFailed, got {other:?}"),
    }
    assert_eq!(command, vec!["no-such-program-here", "arg"]);
}

#[test]
fn a_program_on_the_search_path_is_resolved_through_links() {
    let mut command = vec!["sh".to_owned(), "-c".to_owned(), "true".to_owned()];
    assert!(resolve_command(&mut command, "/no/such/dir:/bin:/usr/bin").is_ok());
    let expected = Path::new("/bin/sh").canonicalize().unwrap();
    assert_eq!(Path::new(&command[0]), expected.as_path());
    assert_ne!(command[0], "sh");
    assert_eq!(&command[1..], ["-c", "true"]);
}

#[test]
fn first_existing_candidate_wins() {
    assert_eq!(first_existing(&vec!["/no/such/x".to_owned(), "/no/such/y".to_owned()]), None);
    let found = first_existing(&vec!["/no/such/x".to_owned(), "/".to_owned(), "/bin".to_owned()]);
    assert_eq!(found.as_deref(), Some("/"));
    assert_eq!(first_existing(&Vec::new()), None);
}

#[test]
fn lookup_outcome_goes_into_the_command() {
    let mut command = vec!["cc".to_owned(), "-O2".to_owned()];
    assert!(apply_lookup(&mut command, Some("/usr/bin/cc".to_owned())).is_ok());
    assert_eq!(command, vec!["/usr/bin/cc", "-O2"]);
    let mut command = vec!["cc".to_owned(), "-O2".to_owned()];
    assert!(matches!(
        apply_lookup(&mut command, None),
        Err(IsolateError::CommandFailed(m)) if m == "command 'cc' not found in PATH"
    ));
    assert_eq!(command, vec!["cc", "-O2"]);
}

#[test]
fn the_first_candidate_that_exists_is_chosen() {
    let places = vec!["/a/cc".to_owned(), "/b/cc".to_owned(), "/c/cc".to_owned()];
    let chosen = |present: [bool; 3], canonical: Option<&str>| {
        choose_path(&places, &present.to_vec(), canonical.map(str::to_owned))
    };
    assert_eq!(chosen([false, true, true], None).as_deref(), Some("/b/cc"));
    assert_eq!(chosen([true, false, false], None).as_deref(), Some("/a/cc"));
    assert_eq!(chosen([false, false, true], None).as_deref(), Some("/c/cc"));
    assert_eq!(chosen([false, true, true], Some("/store/cc")).as_deref(), Some("/store/cc"));
    assert_eq!(chosen([false, false, false], None), None);
    assert_eq!(chosen([false, false, false], Some("/store/cc")), None);
    assert_eq!(choose_path(&Vec::new(), &Vec::new(), None), None);
}

#[test]
fn lookup_on_the_host_settles_on_the_first_place_there_is() {
    let places = vec![
        "/no/such/dir/sh".to_owned(),
        "/bin/sh".to_owned(),
        "/".to_owned(),
    ];
    let expected = Path::new("/bin/sh").canonicalize().unwrap();
    assert_eq!(first_existing(&places).as_deref().map(Path::new), Some(expected.as_path()));
}
