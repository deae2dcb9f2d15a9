use jerm::parser::{parse_command, trim_str, ParsedCommand};

#[test]
fn test_parse_empty() {
    assert_eq!(parse_command(""), ParsedCommand::Empty);
    assert_eq!(parse_command("   "), ParsedCommand::Empty);
}

#[test]
fn test_parse_cd() {
    assert_eq!(parse_command("cd"), ParsedCommand::Cd(None));
    assert_eq!(
        parse_command("cd /tmp"),
        ParsedCommand::Cd(Some("/tmp".to_string()))
    );
    assert_eq!(
        parse_command("cd ~/projects"),
        ParsedCommand::Cd(Some("~/projects".to_string()))
    );
}

#[test]
fn test_parse_cd_list() {
    assert_eq!(parse_command("cd -list"), ParsedCommand::CdList);
    assert_eq!(parse_command("cd --list"), ParsedCommand::CdList);
}

#[test]
fn test_parse_clear() {
    assert_eq!(parse_command("clear"), ParsedCommand::Clear);
}

#[test]
fn test_parse_exit() {
    assert_eq!(parse_command("exit"), ParsedCommand::Exit);
    assert_eq!(parse_command("quit"), ParsedCommand::Exit);
}

#[test]
fn test_parse_shell() {
    assert_eq!(
        parse_command("ls -la"),
        ParsedCommand::Shell("ls -la".to_string())
    );
    assert_eq!(
        parse_command("echo hello world"),
        ParsedCommand::Shell("echo hello world".to_string())
    );
}

#[test]
fn test_parse_jerm_save() {
    assert_eq!(parse_command("jerm save"), ParsedCommand::JermSave);
}

#[test]
fn test_parse_jerm_goto() {
    assert_eq!(parse_command("jerm goto"), ParsedCommand::JermGoto);
}

#[test]
fn test_parse_jerm_unknown() {
    assert_eq!(
        parse_command("jerm unknown"),
        ParsedCommand::Shell("jerm unknown".to_string())
    );
}

#[test]
fn surrounding_whitespace_is_trimmed() {
    assert_eq!(parse_command("  \tcd   /tmp  \n"), ParsedCommand::Cd(Some("/tmp".to_string())));
    assert_eq!(parse_command("  ls  -l  "), ParsedCommand::Shell("ls  -l".to_string()));
    assert_eq!(parse_command("\u{3000}exit\u{a0}"), ParsedCommand::Exit);
}

#[test]
fn heads_match_whole_words_only() {
    assert_eq!(parse_command("cdx"), ParsedCommand::Shell("cdx".to_string()));
    assert_eq!(parse_command("clear now"), ParsedCommand::Clear);
    assert_eq!(parse_command("jerm"), ParsedCommand::Shell("jerm".to_string()));
    assert_eq!(parse_command("jerm  save"), ParsedCommand::JermSave);
    assert_eq!(parse_command("jerm save extra"), ParsedCommand::Shell("jerm save extra".to_string()));
    assert_eq!(parse_command("cd a b"), ParsedCommand::Cd(Some("a b".to_string())));
}

#[test]
fn trim_removes_unicode_whitespace() {
    assert_eq!(trim_str("\u{2003} a b \u{85}"), "a b");
    assert_eq!(trim_str("   "), "");
}
