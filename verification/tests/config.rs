use std::path::PathBuf;

use silicube::config::{
    default_cg_root, default_sandbox_path, CompileConfig, Config, ConfigError, FileExtension,
    Language, RunConfig, DEFAULT_SANDBOX_PATH,
};
use silicube::types::{ResourceLimits, Seconds};

fn secs(seconds: f64) -> Seconds {
    Seconds::from_millis((seconds * 1000.0).round() as u64)
}

fn words(list: &[&str]) -> Vec<String> {
    list.iter().map(|w| w.to_string()).collect()
}

fn cpp17() -> Language {
    Language {
        name: "C++ 17 (GCC)".to_owned(),
        extension: FileExtension::new("cpp").unwrap(),
        compile: Some(CompileConfig {
            command: words(&["g++", "-std=c++17", "-O2", "{source}", "-o", "{output}"]),
            source_name: "main.cpp".to_owned(),
            output_name: "main".to_owned(),
            env: Vec::new(),
            limits: None,
        }),
        run: RunConfig {
            command: words(&["./{binary}"]),
            env: Vec::new(),
            mounts: Vec::new(),
            path: DEFAULT_SANDBOX_PATH.to_owned(),
            limits: None,
        },
    }
}

fn python3() -> Language {
    Language {
        name: "Python 3".to_owned(),
        extension: FileExtension::new("py").unwrap(),
        compile: None,
        run: RunConfig {
            command: words(&["python3", "{source}"]),
            env: Vec::new(),
            mounts: Vec::new(),
            path: DEFAULT_SANDBOX_PATH.to_owned(),
            limits: None,
        },
    }
}

fn sample_config() -> Config {
    let mut config = Config::empty();
    config.languages.push(("cpp17".to_owned(), cpp17()));
    config.languages.push(("python3".to_owned(), python3()));
    config
}

#[test]
fn get_language_found() {
    let config = sample_config();
    let result = config.get_language("cpp17");
    assert!(result.is_ok());
    assert_eq!(result.unwrap().name, "C++ 17 (GCC)");
}

#[test]
fn get_language_not_found() {
    let config = sample_config();
    let result = config.get_language("nonexistent");
    assert!(result.is_err());
    match result {
        Err(ConfigError::LanguageNotFound(name)) => assert_eq!(name, "nonexistent"),
        _ => panic!("expected LanguageNotFound error"),
    }
}

#[test]
fn get_language_empty_config() {
    let config = Config::empty();
    let result = config.get_language("cpp17");
    assert!(result.is_err());
}

#[test]
fn isolate_binary_default() {
    let config = Config::empty();
    assert_eq!(PathBuf::from(config.isolate_binary()), PathBuf::from("isolate"));
}

#[test]
fn isolate_binary_custom_path() {
    let config = Config {
        isolate_path: Some("/usr/local/bin/isolate".to_owned()),
        cgroup: false,
        cg_root: default_cg_root(),
        sandbox_mounts: Vec::new(),
        default_limits: ResourceLimits::default(),
        languages: Vec::new(),
    };
    assert_eq!(
        PathBuf::from(config.isolate_binary()),
        PathBuf::from("/usr/local/bin/isolate")
    );
}

#[test]
fn effective_limits_no_override() {
    let config = sample_config();
    let result = config.effective_limits(None);
    assert_eq!(result.time_limit, config.default_limits.time_limit);
    assert_eq!(result.memory_limit, config.default_limits.memory_limit);
}

#[test]
fn effective_limits_with_override() {
    let config = sample_config();
    let overrides = ResourceLimits {
        time_limit: Some(secs(10.0)),
        memory_limit: Some(512 * 1024),
        ..Default::default()
    };
    let result = config.effective_limits(Some(&overrides));
    assert_eq!(result.time_limit, Some(secs(10.0)));
    assert_eq!(result.memory_limit, Some(512 * 1024));
}

#[test]
fn effective_limits_partial_override() {
    let config = sample_config();
    let overrides = ResourceLimits {
        time_limit: Some(secs(10.0)),
        memory_limit: None,
        ..Default::default()
    };
    let result = config.effective_limits(Some(&overrides));
    assert_eq!(result.time_limit, Some(secs(10.0)));
    // Memory should come from default
    assert_eq!(result.memory_limit, config.default_limits.memory_limit);
}

#[test]
fn config_empty_has_no_languages() {
    let config = Config::empty();
    assert!(config.languages.is_empty());
}

#[test]
fn config_empty_has_default_limits() {
    let config = Config::empty();
    // Default limits should still be populated
    assert!(config.default_limits.time_limit.is_some());
}

#[test]
fn config_empty_has_the_documented_defaults() {
    let config = Config::empty();
    assert!(config.isolate_path.is_none());
    assert!(!config.cgroup);
    assert_eq!(config.cg_root, "/sys/fs/cgroup/isolate");
    assert_eq!(default_cg_root(), "/sys/fs/cgroup/isolate");
    assert!(config.sandbox_mounts.is_empty());
    assert_eq!(default_sandbox_path(), "/usr/bin:/bin");
}

#[test]
fn later_language_with_the_same_id_counts() {
    let mut config = sample_config();
    let mut other = python3();
    other.name = "Not C++".to_owned();
    config.languages.push(("cpp17".to_owned(), other));
    assert_eq!(config.get_language("cpp17").unwrap().name, "Not C++");
    assert!(config.has_language("python3"));
    assert!(!config.has_language("java"));
}

#[test]
fn validate_accepts_complete_languages() {
    assert!(sample_config().validate().is_ok());
    assert!(Config::empty().validate().is_ok());
}

fn invalid_message(config: &Config) -> String {
    match config.validate() {
        Err(ConfigError::Invalid(message)) => message,
        other => panic!("expected Invalid, got {other:?}"),
    }
}

#[test]
fn validate_names_what_a_language_lacks() {
    let mut config = Config::empty();
    let mut lang = python3();
    lang.name = String::new();
    config.languages.push(("test".to_owned(), lang));
    assert_eq!(invalid_message(&config), "language 'test' has empty name");

    let mut config = Config::empty();
    let mut lang = python3();
    lang.extension = FileExtension::new("").unwrap();
    config.languages.push(("test".to_owned(), lang));
    assert_eq!(invalid_message(&config), "language 'test' has empty extension");

    let mut config = Config::empty();
    let mut lang = python3();
    lang.run.command = Vec::new();
    config.languages.push(("test".to_owned(), lang));
    assert_eq!(invalid_message(&config), "language 'test' has empty run command");

    let mut config = Config::empty();
    let mut lang = cpp17();
    lang.compile.as_mut().unwrap().command = Vec::new();
    config.languages.push(("test".to_owned(), lang));
    assert_eq!(
        invalid_message(&config),
        "language 'test' has empty compile command"
    );
}

#[test]
fn validate_reports_the_first_faulty_language() {
    let mut config = sample_config();
    let mut nameless = python3();
    nameless.name = String::new();
    let mut commandless = python3();
    commandless.run.command = Vec::new();
    config.languages.push(("b".to_owned(), commandless));
    config.languages.push(("a".to_owned(), nameless));
    assert_eq!(invalid_message(&config), "language 'b' has empty run command");
}

#[test]
fn file_extension_errors_are_invalid_chars() {
    assert!(matches!(
        FileExtension::new("a/b"),
        Err(ConfigError::InvalidFileExtChars)
    ));
    assert!(matches!(
        FileExtension::new("tar.gz"),
        Err(ConfigError::InvalidFileExtChars)
    ));
    assert_eq!(FileExtension::new("c++").unwrap().as_str(), "c++");
}
