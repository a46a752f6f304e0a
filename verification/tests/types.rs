use silicube::types::{
    ExecutionResult, ExecutionStatus, LimitExceeded, MountConfig, ResourceLimits, Seconds,
};

fn secs(seconds: f64) -> Seconds {
    Seconds::from_millis((seconds * 1000.0).round() as u64)
}

fn as_f64(seconds: Seconds) -> f64 {
    seconds.as_millis() as f64 / 1000.0
}

// ResourceLimits tests

#[test]
fn resource_limits_default_has_all_fields() {
    let limits = ResourceLimits::default();
    assert!(limits.time_limit.is_some());
    assert!(limits.wall_time_limit.is_some());
    assert!(limits.memory_limit.is_some());
    assert!(limits.stack_limit.is_some());
    assert!(limits.max_processes.is_some());
    assert!(limits.max_output.is_some());
    assert!(limits.max_open_files.is_some());
    assert!(limits.extra_time.is_some());
}

#[test]
fn resource_limits_new_equals_default() {
    let new = ResourceLimits::new();
    let default = ResourceLimits::default();
    assert_eq!(new.time_limit, default.time_limit);
    assert_eq!(new.memory_limit, default.memory_limit);
}

#[test]
fn resource_limits_builder_methods() {
    let limits = ResourceLimits::new()
        .with_time_limit(secs(5.0))
        .with_wall_time_limit(secs(10.0))
        .with_memory_limit(1024)
        .with_stack_limit(512)
        .with_max_processes(4)
        .with_max_output(2048);

    assert_eq!(limits.time_limit, Some(secs(5.0)));
    assert_eq!(limits.wall_time_limit, Some(secs(10.0)));
    assert_eq!(limits.memory_limit, Some(1024));
    assert_eq!(limits.stack_limit, Some(512));
    assert_eq!(limits.max_processes, Some(4));
    assert_eq!(limits.max_output, Some(2048));
}

#[test]
fn with_overrides_empty_preserves_base() {
    let base = ResourceLimits::default();
    let empty = ResourceLimits {
        time_limit: None,
        wall_time_limit: None,
        memory_limit: None,
        stack_limit: None,
        max_processes: None,
        max_output: None,
        max_open_files: None,
        extra_time: None,
    };

    let result = base.with_overrides(&empty);
    assert_eq!(result.time_limit, base.time_limit);
    assert_eq!(result.wall_time_limit, base.wall_time_limit);
    assert_eq!(result.memory_limit, base.memory_limit);
    assert_eq!(result.stack_limit, base.stack_limit);
    assert_eq!(result.max_processes, base.max_processes);
    assert_eq!(result.max_output, base.max_output);
    assert_eq!(result.max_open_files, base.max_open_files);
    assert_eq!(result.extra_time, base.extra_time);
}

#[test]
fn with_overrides_replaces_values() {
    let base = ResourceLimits::default();
    let overrides = ResourceLimits {
        time_limit: Some(secs(10.0)),
        memory_limit: Some(512 * ResourceLimits::MB),
        ..Default::default()
    };

    let result = base.with_overrides(&overrides);
    assert_eq!(result.time_limit, Some(secs(10.0)));
    assert_eq!(result.memory_limit, Some(512 * ResourceLimits::MB));
    // Other fields should come from base (or be base defaults)
    assert_eq!(result.wall_time_limit, base.wall_time_limit);
}

#[test]
fn with_overrides_partial_override() {
    let base = ResourceLimits {
        time_limit: Some(secs(2.0)),
        memory_limit: Some(256 * ResourceLimits::MB),
        max_processes: None,
        ..Default::default()
    };
    let overrides = ResourceLimits {
        time_limit: Some(secs(5.0)),
        max_processes: Some(4),
        ..Default::default()
    };

    let result = base.with_overrides(&overrides);
    assert_eq!(result.time_limit, Some(secs(5.0))); // Overridden
    assert_eq!(result.memory_limit, Some(256 * ResourceLimits::MB)); // From base
    assert_eq!(result.max_processes, Some(4)); // Overridden (was None in base)
}

// ExecutionStatus tests

#[test]
fn execution_status_from_isolate_status_ok() {
    assert_eq!(
        ExecutionStatus::from_isolate_status("OK"),
        ExecutionStatus::Okay
    );
}

#[test]
fn execution_status_from_isolate_status_re() {
    assert_eq!(
        ExecutionStatus::from_isolate_status("RE"),
        ExecutionStatus::RuntimeError
    );
}

#[test]
fn execution_status_from_isolate_status_to() {
    assert_eq!(
        ExecutionStatus::from_isolate_status("TO"),
        ExecutionStatus::TimeLimitExceeded
    );
}

#[test]
fn execution_status_from_isolate_status_sg() {
    assert_eq!(
        ExecutionStatus::from_isolate_status("SG"),
        ExecutionStatus::Signaled
    );
}

#[test]
fn execution_status_from_isolate_status_xx() {
    assert_eq!(
        ExecutionStatus::from_isolate_status("XX"),
        ExecutionStatus::InternalError
    );
}

#[test]
fn execution_status_from_isolate_status_unknown_defaults_to_internal_error() {
    assert_eq!(
        ExecutionStatus::from_isolate_status("UNKNOWN"),
        ExecutionStatus::InternalError
    );
    assert_eq!(
        ExecutionStatus::from_isolate_status(""),
        ExecutionStatus::InternalError
    );
    assert_eq!(
        ExecutionStatus::from_isolate_status("ok"),
        ExecutionStatus::InternalError
    );
}

// LimitExceeded tests

#[test]
fn limit_exceeded_from_message_none() {
    assert_eq!(
        LimitExceeded::from_message(None),
        LimitExceeded::NotExceeded
    );
}

#[test]
fn limit_exceeded_from_message_time_limit() {
    assert_eq!(
        LimitExceeded::from_message(Some("Time limit exceeded")),
        LimitExceeded::Time
    );
    assert_eq!(
        LimitExceeded::from_message(Some("time limit exceeded")),
        LimitExceeded::Time
    );
    assert_eq!(
        LimitExceeded::from_message(Some("TIME LIMIT EXCEEDED")),
        LimitExceeded::Time
    );
}

#[test]
fn limit_exceeded_from_message_wall_time() {
    assert_eq!(
        LimitExceeded::from_message(Some("Wall time limit exceeded")),
        LimitExceeded::WallTime
    );
    assert_eq!(
        LimitExceeded::from_message(Some("wall time limit exceeded")),
        LimitExceeded::WallTime
    );
}

#[test]
fn limit_exceeded_from_message_memory() {
    assert_eq!(
        LimitExceeded::from_message(Some("Memory limit exceeded")),
        LimitExceeded::Memory
    );
    assert_eq!(
        LimitExceeded::from_message(Some("Out of memory")),
        LimitExceeded::Memory
    );
    assert_eq!(
        LimitExceeded::from_message(Some("out of memory")),
        LimitExceeded::Memory
    );
}

#[test]
fn limit_exceeded_from_message_output() {
    assert_eq!(
        LimitExceeded::from_message(Some("Output limit exceeded")),
        LimitExceeded::Output
    );
    assert_eq!(
        LimitExceeded::from_message(Some("output limit")),
        LimitExceeded::Output
    );
}

#[test]
fn limit_exceeded_from_message_unknown() {
    assert_eq!(
        LimitExceeded::from_message(Some("Some other error")),
        LimitExceeded::NotExceeded
    );
    assert_eq!(
        LimitExceeded::from_message(Some("")),
        LimitExceeded::NotExceeded
    );
}

#[test]
fn limit_exceeded_is_exceeded() {
    assert!(!LimitExceeded::NotExceeded.is_exceeded());
    assert!(LimitExceeded::Time.is_exceeded());
    assert!(LimitExceeded::WallTime.is_exceeded());
    assert!(LimitExceeded::Memory.is_exceeded());
    assert!(LimitExceeded::Output.is_exceeded());
}

// ExecutionResult tests

#[test]
fn execution_result_is_success_true() {
    let result = ExecutionResult {
        status: ExecutionStatus::Okay,
        exit_code: Some(0),
        ..Default::default()
    };
    assert!(result.is_success());
}

#[test]
fn execution_result_is_success_false_non_zero_exit() {
    let result = ExecutionResult {
        status: ExecutionStatus::Okay,
        exit_code: Some(1),
        ..Default::default()
    };
    assert!(!result.is_success());
}

#[test]
fn execution_result_is_success_false_bad_status() {
    let result = ExecutionResult {
        status: ExecutionStatus::RuntimeError,
        exit_code: Some(0),
        ..Default::default()
    };
    assert!(!result.is_success());
}

#[test]
fn execution_result_is_success_false_no_exit_code() {
    let result = ExecutionResult {
        status: ExecutionStatus::Okay,
        exit_code: None,
        ..Default::default()
    };
    assert!(!result.is_success());
}

#[test]
fn execution_result_default() {
    let result = ExecutionResult::default();
    assert_eq!(result.status, ExecutionStatus::Okay);
    assert_eq!(result.limit_exceeded, LimitExceeded::NotExceeded);
    assert_eq!(as_f64(result.time), 0.0);
    assert_eq!(as_f64(result.wall_time), 0.0);
    assert_eq!(result.memory, 0);
    assert!(result.exit_code.is_none());
    assert!(result.signal.is_none());
    assert!(result.message.is_none());
    assert!(result.stdout.is_none());
    assert!(result.stderr.is_none());
}

// MountConfig tests

#[test]
fn mount_config_default_read_only() {
    let mount = MountConfig {
        source: "/src".to_string(),
        target: "/dest".to_string(),
        writable: false,
        optional: false,
    };
    assert!(!mount.writable);
}
