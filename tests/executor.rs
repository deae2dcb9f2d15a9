use jerm::executor::{expand_cd_path, split_lines, CommandResult, ExecutorError};

#[test]
fn expansion_of_targets() {
    let home = Some("/home/u".to_string());
    assert_eq!(expand_cd_path("~", "/w", &home).unwrap(), "/home/u");
    assert_eq!(expand_cd_path("~/src", "/w", &home).unwrap(), "/home/u/src");
    assert_eq!(expand_cd_path("/tmp", "/w", &home).unwrap(), "/tmp");
    assert_eq!(expand_cd_path("sub", "/w", &home).unwrap(), "/w/sub");
    assert_eq!(expand_cd_path("../x", "/w", &home).unwrap(), "/w/../x");
    assert!(matches!(expand_cd_path("-", "/w", &home), Err(ExecutorError::InvalidPath(_))));
    assert!(matches!(expand_cd_path("~", "/w", &None), Err(ExecutorError::InvalidPath(_))));
}

#[test]
fn error_messages() {
    assert_eq!(ExecutorError::NotADirectory("f".to_string()).message(), "Not a directory: f");
    assert_eq!(ExecutorError::InvalidPath("p".to_string()).message(), "Invalid path: p");
    assert_eq!(ExecutorError::DirectoryNotFound("d".to_string()).message(), "Directory not found: d");
}

#[test]
fn result_lines_and_success() {
    let r = CommandResult { stdout: vec!["a".to_string()], stderr: vec!["b".to_string(), "c".to_string()], exit_code: 0 };
    assert!(r.success());
    assert_eq!(r.all_lines(), vec!["a", "b", "c"]);
    let f = CommandResult { stdout: vec![], stderr: vec![], exit_code: 1 };
    assert!(!f.success());
    assert!(f.all_lines().is_empty());
}

#[test]
fn output_is_split_into_lines() {
    assert_eq!(split_lines("a\nb\r\nc"), vec!["a", "b", "c"]);
    assert_eq!(split_lines("a\n"), vec!["a"]);
    assert_eq!(split_lines("\n\nx"), vec!["", "", "x"]);
    assert!(split_lines("").is_empty());
    assert_eq!(split_lines("hello"), vec!["hello"]);
}
