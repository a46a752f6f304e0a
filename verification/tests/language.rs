use silicube::config::{
    CompileConfig, FileExtension, Language, RunConfig, DEFAULT_SANDBOX_PATH,
};

#[test]
fn file_extension_new_valid() {
    let ext = FileExtension::new("cpp").unwrap();
    assert_eq!(ext.to_string(), "cpp");
}

#[test]
fn file_extension_new_valid_with_numbers() {
    let ext = FileExtension::new("f90").unwrap();
    assert_eq!(ext.to_string(), "f90");
}

#[test]
fn file_extension_new_empty() {
    let ext = FileExtension::new("").unwrap();
    assert!(ext.is_empty());
}

#[test]
fn file_extension_new_rejects_slash() {
    let result = FileExtension::new("path/ext");
    assert!(result.is_err());
}

#[test]
fn file_extension_new_rejects_dot() {
    let result = FileExtension::new(".cpp");
    assert!(result.is_err());
}

#[test]
fn file_extension_new_rejects_multiple_dots() {
    let result = FileExtension::new(".tar.gz");
    assert!(result.is_err());
}

#[test]
fn file_extension_is_empty() {
    let empty = FileExtension::new("").unwrap();
    let non_empty = FileExtension::new("rs").unwrap();
    assert!(empty.is_empty());
    assert!(!non_empty.is_empty());
}

#[test]
fn file_extension_display() {
    let ext = FileExtension::new("py").unwrap().to_string();
    assert_eq!(format!("{ext}"), "py");
}

#[test]
fn expand_command_source_placeholder() {
    let cmd = vec![
        "gcc".to_owned(),
        "-o".to_owned(),
        "out".to_owned(),
        "{source}".to_owned(),
    ];
    let result = Language::expand_command(&cmd, "main.c", "main");
    assert_eq!(result, vec!["gcc", "-o", "out", "main.c"]);
}

#[test]
fn expand_command_output_placeholder() {
    let cmd = vec![
        "gcc".to_owned(),
        "-o".to_owned(),
        "{output}".to_owned(),
        "main.c".to_owned(),
    ];
    let result = Language::expand_command(&cmd, "main.c", "main");
    assert_eq!(result, vec!["gcc", "-o", "main", "main.c"]);
}

#[test]
fn expand_command_binary_placeholder() {
    let cmd = vec!["./{binary}".to_owned()];
    let result = Language::expand_command(&cmd, "main.cpp", "main");
    assert_eq!(result, vec!["./main"]);
}

#[test]
fn expand_command_multiple_placeholders() {
    let cmd = vec![
        "gcc".to_owned(),
        "{source}".to_owned(),
        "-o".to_owned(),
        "{output}".to_owned(),
    ];
    let result = Language::expand_command(&cmd, "test.c", "test");
    assert_eq!(result, vec!["gcc", "test.c", "-o", "test"]);
}

#[test]
fn expand_command_no_placeholders() {
    let cmd = vec!["echo".to_owned(), "hello".to_owned()];
    let result = Language::expand_command(&cmd, "main.c", "main");
    assert_eq!(result, vec!["echo", "hello"]);
}

#[test]
fn expand_command_empty() {
    let cmd: Vec<String> = vec![];
    let result = Language::expand_command(&cmd, "main.c", "main");
    assert!(result.is_empty());
}

#[test]
fn expand_command_placeholder_in_middle() {
    let cmd = vec!["prefix-{source}-suffix".to_owned()];
    let result = Language::expand_command(&cmd, "main.c", "main");
    assert_eq!(result, vec!["prefix-main.c-suffix"]);
}

#[test]
fn language_is_compiled_true() {
    let lang = Language {
        name: "C++".to_owned(),
        extension: FileExtension::new("cpp").unwrap(),
        compile: Some(CompileConfig {
            command: vec!["g++".to_owned()],
            source_name: "main.cpp".to_owned(),
            output_name: "main".to_owned(),
            env: Vec::new(),
            limits: None,
        }),
        run: RunConfig {
            command: vec!["./{binary}".to_owned()],
            env: Vec::new(),
            mounts: vec![],
            path: DEFAULT_SANDBOX_PATH.to_owned(),
            limits: None,
        },
    };
    assert!(lang.is_compiled());
}

#[test]
fn language_is_compiled_false() {
    let lang = Language {
        name: "Python".to_owned(),
        extension: FileExtension::new("py").unwrap(),
        compile: None,
        run: RunConfig {
            command: vec!["python3".to_owned(), "{source}".to_owned()],
            env: Vec::new(),
            mounts: vec![],
            path: DEFAULT_SANDBOX_PATH.to_owned(),
            limits: None,
        },
    };
    assert!(!lang.is_compiled());
}

#[test]
fn language_source_name_compiled() {
    let lang = Language {
        name: "C++".to_owned(),
        extension: FileExtension::new("cpp").unwrap(),
        compile: Some(CompileConfig {
            command: vec!["g++".to_owned()],
            source_name: "solution.cpp".to_owned(),
            output_name: "solution".to_owned(),
            env: Vec::new(),
            limits: None,
        }),
        run: RunConfig {
            command: vec!["./{binary}".to_owned()],
            env: Vec::new(),
            mounts: vec![],
            path: DEFAULT_SANDBOX_PATH.to_owned(),
            limits: None,
        },
    };
    assert_eq!(lang.source_name(), "solution.cpp");
}

#[test]
fn language_source_name_interpreted() {
    let lang = Language {
        name: "Python".to_owned(),
        extension: FileExtension::new("py").unwrap(),
        compile: None,
        run: RunConfig {
            command: vec!["python3".to_owned(), "{source}".to_owned()],
            env: Vec::new(),
            mounts: vec![],
            path: DEFAULT_SANDBOX_PATH.to_owned(),
            limits: None,
        },
    };
    assert_eq!(lang.source_name(), "main.py");
}

#[test]
fn run_config_default_path() {
    assert_eq!(DEFAULT_SANDBOX_PATH, "/usr/bin:/bin");
}
