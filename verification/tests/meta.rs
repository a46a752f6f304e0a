use silicube::isolate::MetaFile;
use silicube::types::{ExecutionStatus, LimitExceeded, Seconds};

fn as_f64(seconds: Seconds) -> f64 {
    seconds.as_millis() as f64 / 1000.0
}

#[test]
fn test_parse_success_meta() {
    let content = r#"
time:0.042
time-wall:0.050
max-rss:3456
exitcode:0
"#;
    let meta = MetaFile::parse(content);

    assert_eq!(meta.status(), ExecutionStatus::Okay);
    assert!((as_f64(meta.time()) - 0.042).abs() < 0.001);
    assert!((as_f64(meta.wall_time()) - 0.050).abs() < 0.001);
    assert_eq!(meta.memory(), 3456);
    assert_eq!(meta.exit_code(), Some(0));
    assert_eq!(meta.signal(), None);
}

#[test]
fn test_parse_tle_meta() {
    let content = r#"
time:2.001
time-wall:2.500
max-rss:1234
status:TO
message:Time limit exceeded
"#;
    let meta = MetaFile::parse(content);

    assert_eq!(meta.status(), ExecutionStatus::TimeLimitExceeded);
    assert_eq!(meta.message(), Some("Time limit exceeded".to_string()));
    assert_eq!(meta.limit_exceeded(), LimitExceeded::Time);
}

#[test]
fn test_limit_exceeded_wall_time() {
    let content = r#"
time:1.000
time-wall:5.001
status:TO
message:Wall time limit exceeded
"#;
    let meta = MetaFile::parse(content);

    assert_eq!(meta.status(), ExecutionStatus::TimeLimitExceeded);
    assert_eq!(meta.limit_exceeded(), LimitExceeded::WallTime);
}

#[test]
fn test_limit_exceeded_memory() {
    let content = r#"
time:0.100
cg-mem:262144
status:SG
exitsig:9
message:Out of memory
"#;
    let meta = MetaFile::parse(content);

    assert_eq!(meta.status(), ExecutionStatus::Signaled);
    assert_eq!(meta.limit_exceeded(), LimitExceeded::Memory);
}

#[test]
fn test_limit_exceeded_output() {
    let content = r#"
time:0.050
status:SG
message:Output limit exceeded
"#;
    let meta = MetaFile::parse(content);

    assert_eq!(meta.status(), ExecutionStatus::Signaled);
    assert_eq!(meta.limit_exceeded(), LimitExceeded::Output);
}

#[test]
fn test_limit_exceeded_none_for_success() {
    let content = r#"
time:0.042
exitcode:0
"#;
    let meta = MetaFile::parse(content);

    assert_eq!(meta.status(), ExecutionStatus::Okay);
    assert_eq!(meta.limit_exceeded(), LimitExceeded::NotExceeded);
}

#[test]
fn test_limit_exceeded_fallback_to_status() {
    // When status is TO but no message, should infer Time limit
    let content = r#"
time:2.001
status:TO
"#;
    let meta = MetaFile::parse(content);

    assert_eq!(meta.status(), ExecutionStatus::TimeLimitExceeded);
    assert_eq!(meta.limit_exceeded(), LimitExceeded::Time);
}

#[test]
fn test_parse_signal_meta() {
    let content = r#"
time:0.010
time-wall:0.020
max-rss:1000
exitsig:11
status:SG
message:Caught fatal signal 11
"#;
    let meta = MetaFile::parse(content);

    assert_eq!(meta.status(), ExecutionStatus::Signaled);
    assert_eq!(meta.signal(), Some(11));
}

#[test]
fn test_parse_cgroup_mem() {
    let content = r#"
time:0.100
cg-mem:524288
max-rss:512000
"#;
    let meta = MetaFile::parse(content);

    // Should prefer cg-mem over max-rss
    assert_eq!(meta.memory(), 524288);
}

#[test]
fn test_to_execution_result() {
    let content = r#"
time:1.234
time-wall:1.500
max-rss:65536
exitcode:0
"#;
    let meta = MetaFile::parse(content);
    let result = meta.to_execution_result();

    assert_eq!(result.status, ExecutionStatus::Okay);
    assert_eq!(result.limit_exceeded, LimitExceeded::NotExceeded);
    assert!((as_f64(result.time) - 1.234).abs() < 0.001);
    assert_eq!(result.memory, 65536);
    assert_eq!(result.exit_code, Some(0));
}

#[test]
fn test_to_execution_result_with_limit() {
    let content = r#"
time:2.001
time-wall:2.500
status:TO
message:Time limit exceeded
"#;
    let meta = MetaFile::parse(content);
    let result = meta.to_execution_result();

    assert_eq!(result.status, ExecutionStatus::TimeLimitExceeded);
    assert_eq!(result.limit_exceeded, LimitExceeded::Time);
}

#[test]
fn test_try_parse_success() {
    let content = "time:0.042\ntime-wall:0.050";
    let meta = MetaFile::try_parse(content).unwrap();
    assert!((as_f64(meta.time()) - 0.042).abs() < 0.001);
}

#[test]
fn test_try_parse_empty_lines() {
    let content = "\n\ntime:0.042\n\n";
    let meta = MetaFile::try_parse(content).unwrap();
    assert!((as_f64(meta.time()) - 0.042).abs() < 0.001);
}

#[test]
fn test_try_parse_whitespace_handling() {
    let content = "  time  :  0.042  ";
    let meta = MetaFile::try_parse(content).unwrap();
    assert!((as_f64(meta.time()) - 0.042).abs() < 0.001);
}

#[test]
fn test_try_parse_value_with_colon() {
    // Values can contain colons (e.g., timestamps or messages)
    let content = "message:Error at 12:30:45";
    let meta = MetaFile::try_parse(content).unwrap();
    assert_eq!(meta.message(), Some("Error at 12:30:45".to_string()));
}

#[test]
fn test_try_parse_missing_colon() {
    let content = "time:0.042\ninvalid line\nexitcode:0";
    let err = MetaFile::try_parse(content).unwrap_err();
    assert_eq!(err.line_number, 2);
    assert_eq!(err.line, "invalid line");
    assert!(err.message.contains("missing colon"));
}

#[test]
fn test_try_parse_empty_key() {
    let content = ":value";
    let err = MetaFile::try_parse(content).unwrap_err();
    assert_eq!(err.line_number, 1);
    assert!(err.message.contains("empty key"));
}

#[test]
fn test_parse_lenient_skips_invalid() {
    // parse() should skip invalid lines without error
    let content = "time:0.042\ninvalid line\nexitcode:0";
    let meta = MetaFile::parse(content);
    assert!((as_f64(meta.time()) - 0.042).abs() < 0.001);
    assert_eq!(meta.exit_code(), Some(0));
}
