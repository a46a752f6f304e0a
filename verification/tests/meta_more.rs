use silicube::isolate::{MetaFile, MetaParseError};
use silicube::types::{ExecutionStatus, LimitExceeded};

#[test]
fn every_entry_line_is_kept_trimmed() {
    let meta = MetaFile::parse("  key  :  value : x \n\tother\t:\t1\t\r\n\nlast:  \n");
    assert_eq!(meta.get("key"), Some("value : x"));
    assert_eq!(meta.get("other"), Some("1"));
    assert_eq!(meta.get("last"), Some(""));
    assert_eq!(meta.get("missing"), None);
}

#[test]
fn later_line_overrides_earlier() {
    let meta = MetaFile::parse("a:1\nb:2\na:3\n");
    assert_eq!(meta.get("a"), Some("3"));
    assert_eq!(meta.get("b"), Some("2"));
}

#[test]
fn lenient_parse_passes_over_what_is_no_entry() {
    let meta = MetaFile::parse("no colon here\n: no key\n   \nexitcode:3");
    assert_eq!(meta.get("exitcode"), Some("3"));
    assert_eq!(meta.get(""), None);
    assert_eq!(meta.exit_code(), Some(3));
}

#[test]
fn parse_agrees_with_line_splitting_of_the_standard_library() {
    let content = "a:1\r\nb:2\rc:3\n\n  d : 4";
    let meta = MetaFile::parse(content);
    for line in content.lines() {
        if let Some((key, value)) = line.trim().split_once(':') {
            if !key.trim().is_empty() {
                assert_eq!(meta.get(key.trim()), Some(value.trim()));
            }
        }
    }
    assert_eq!(meta.get("b"), Some("2\rc:3"));
}

#[test]
fn strict_parse_names_the_first_bad_line() {
    let err = MetaFile::try_parse("a:1\r\n\r\n  bad line  \r\n:x\n").unwrap_err();
    assert_eq!(
        err,
        MetaParseError {
            line_number: 3,
            line: "  bad line  ".to_owned(),
            message: "missing colon separator".to_owned(),
        }
    );
    let err = MetaFile::try_parse("a:1\n   :x\nbad").unwrap_err();
    assert_eq!(err.line_number, 2);
    assert_eq!(err.line, "   :x");
    assert_eq!(err.message, "empty key before colon");
}

#[test]
fn strict_parse_of_a_good_report_is_the_lenient_one() {
    let content = "time:0.5\n\nstatus:RE\nexitcode:1\n";
    let strict = MetaFile::try_parse(content).unwrap();
    let lenient = MetaFile::parse(content);
    for key in ["time", "status", "exitcode", "nothing"] {
        assert_eq!(strict.get(key), lenient.get(key));
    }
    assert!(MetaFile::try_parse("").is_ok());
}

#[test]
fn status_codes() {
    assert_eq!(MetaFile::parse("").status(), ExecutionStatus::Okay);
    assert_eq!(MetaFile::parse("status:OK").status(), ExecutionStatus::Okay);
    assert_eq!(MetaFile::parse("status:RE").status(), ExecutionStatus::RuntimeError);
    assert_eq!(MetaFile::parse("status:XX").status(), ExecutionStatus::InternalError);
    assert_eq!(MetaFile::parse("status:to").status(), ExecutionStatus::InternalError);
    assert_eq!(MetaFile::parse("status:").status(), ExecutionStatus::InternalError);
}

#[test]
fn memory_prefers_the_control_group() {
    assert_eq!(MetaFile::parse("cg-mem:10\nmax-rss:5").memory(), 10);
    assert_eq!(MetaFile::parse("max-rss:5").memory(), 5);
    assert_eq!(MetaFile::parse("cg-mem:x\nmax-rss:5").memory(), 5);
    assert_eq!(MetaFile::parse("").memory(), 0);
    let meta = MetaFile::parse("cg-mem:10\nmax-rss:5");
    assert_eq!(meta.cg_memory(), Some(10));
    assert_eq!(meta.max_rss(), Some(5));
}

#[test]
fn killed_and_message() {
    let meta = MetaFile::parse("killed:1\nmessage:Caught fatal signal 11\n");
    assert!(meta.killed());
    assert_eq!(meta.message(), Some("Caught fatal signal 11".to_owned()));
    assert!(!MetaFile::parse("").killed());
    assert_eq!(MetaFile::parse("").message(), None);
}

#[test]
fn limit_from_message_comes_before_status() {
    let meta = MetaFile::parse("status:TO\nmessage:Out of memory");
    assert_eq!(meta.limit_exceeded(), LimitExceeded::Memory);
    let meta = MetaFile::parse("status:TO\nmessage:something else");
    assert_eq!(meta.limit_exceeded(), LimitExceeded::Time);
    let meta = MetaFile::parse("status:SG\nmessage:something else");
    assert_eq!(meta.limit_exceeded(), LimitExceeded::NotExceeded);
}

#[test]
fn message_case_is_ignored() {
    assert_eq!(
        LimitExceeded::from_message(Some("WALL TIME LIMIT")),
        LimitExceeded::WallTime
    );
    assert_eq!(LimitExceeded::from_message(Some("OUTPUT")), LimitExceeded::Output);
    assert_eq!(LimitExceeded::from_lowercase("OUTPUT"), LimitExceeded::NotExceeded);
    assert_eq!(LimitExceeded::from_lowercase("output"), LimitExceeded::Output);
    assert_eq!(
        LimitExceeded::from_lowercase("time limit on the wall"),
        LimitExceeded::WallTime
    );
}

#[test]
fn result_of_a_report_has_no_output() {
    let result = MetaFile::parse("time:1.5\ntime-wall:2\ncg-mem:7\nexitcode:0\nmessage:m")
        .to_execution_result();
    assert_eq!(result.time.as_millis(), 1500);
    assert_eq!(result.wall_time.as_millis(), 2000);
    assert_eq!(result.memory, 7);
    assert_eq!(result.cg_memory, Some(7));
    assert_eq!(result.max_rss, None);
    assert_eq!(result.message.as_deref(), Some("m"));
    assert!(result.stdout.is_none());
    assert!(result.stderr.is_none());
    assert!(result.is_success());
}

#[test]
fn default_report_is_empty() {
    let meta = MetaFile::default();
    assert_eq!(meta.get("time"), None);
    assert_eq!(meta.status(), ExecutionStatus::Okay);
}

#[test]
fn parse_takes_any_text() {
    for content in [
        "",
        "\n",
        ":",
        ":::",
        "\r\r\n\r",
        "\u{0}:\u{0}",
        "key",
        "   \t  ",
        "é:ü\n日本:語\n",
        "a:b\u{2028}c:d",
        "\u{a0}k\u{a0}:\u{3000}v\u{3000}",
    ] {
        let meta = MetaFile::parse(content);
        let _ = meta.to_execution_result();
        let _ = MetaFile::try_parse(content);
    }
    assert_eq!(MetaFile::parse("é:ü\n日本:語\n").get("日本"), Some("語"));
    assert_eq!(MetaFile::parse("\u{a0}k\u{a0}:\u{3000}v\u{3000}").get("k"), Some("v"));
    assert_eq!(MetaFile::parse("a:b\u{2028}c:d").get("a"), Some("b\u{2028}c:d"));
}
