use jerm::bookmarks::ShortcutManager;
use jerm::browser::DirEntry;
use jerm::executor::{CommandResult, ExecutorError};
use jerm::git::{GitMessage, GitStatus};
use jerm::session::{App, AppMode, Effect, Key, PromptPart};

fn app_in(dir: &str) -> App {
    App::with_home(dir.to_string(), ShortcutManager::new(), Some("/home/u".to_string()))
}

fn type_line(app: &mut App, line: &str) -> Effect {
    for c in line.chars() {
        app.handle_key(Key::Char(c));
    }
    app.handle_key(Key::Enter)
}

fn dir(name: &str, parent: &str) -> DirEntry {
    DirEntry { name: name.to_string(), path: format!("{}/{}", parent, name), is_dir: true }
}

#[test]
fn history_navigation() {
    let mut app = app_in("/work");
    for cmd in ["a", "b", "c"] {
        app.input = cmd.to_string();
        app.cursor_pos = 1;
        app.add_to_history(cmd);
        app.clear_input();
    }
    app.history_prev();
    assert_eq!(app.input, "c");
    app.history_prev();
    assert_eq!(app.input, "b");
    app.history_prev();
    assert_eq!(app.input, "a");
    app.history_prev();
    assert_eq!(app.input, "a");
    app.history_next();
    assert_eq!(app.input, "b");
    app.history_next();
    app.history_next();
    assert_eq!(app.input, "");
    assert_eq!(app.history_index, None);
}

#[test]
fn history_skips_blank_and_repeated_lines() {
    let mut app = app_in("/work");
    app.add_to_history("ls");
    app.add_to_history("  ls  ");
    app.add_to_history("   ");
    app.add_to_history("pwd");
    app.add_to_history("ls");
    assert_eq!(app.history, vec!["ls", "pwd", "ls"]);
}

#[test]
fn history_prev_on_empty_history_does_nothing() {
    let mut app = app_in("/work");
    app.history_prev();
    assert_eq!(app.history_index, None);
    app.history_next();
    assert_eq!(app.input, "");
}

#[test]
fn editing_uses_character_positions() {
    let mut app = app_in("/work");
    for c in "héllo".chars() {
        app.insert_char(c);
    }
    assert_eq!(app.cursor_pos, 5);
    app.cursor_left();
    app.cursor_left();
    app.insert_char('日');
    assert_eq!(app.input, "hél日lo");
    app.delete_char();
    app.delete_char();
    assert_eq!(app.input, "hélo");
    assert_eq!(app.cursor_pos, 2);
    app.cursor_home();
    app.delete_char();
    assert_eq!(app.input, "hélo");
    app.cursor_end();
    assert_eq!(app.cursor_pos, 4);
    app.cursor_right();
    assert_eq!(app.cursor_pos, 4);
}

#[test]
fn prompt_shows_home_and_status() {
    let mut app = app_in("/home/u/src");
    assert_eq!(app.prompt_string(), "~/src $ ");
    app.git_status = Some(GitStatus {
        branch: "main".to_string(),
        is_detached: false,
        is_dirty: true,
        ahead: 2,
        behind: 13,
    });
    assert_eq!(app.prompt(), "~/src main* \u{2191}2 \u{2193}13 $ ");
}

#[test]
fn end_to_end_navigator_scenario() {
    let mut app = app_in("/data");
    assert!(app.output.is_empty());
    let effect = type_line(&mut app, "cd -list");
    let target = match effect {
        Effect::OpenNavigator(d) => d,
        other => panic!("unexpected {:?}", other),
    };
    assert_eq!(target, "/data");
    app.enter_navigation_mode(&vec![dir("alpha", "/data"), dir("beta", "/data")]);
    assert_eq!(app.mode, AppMode::NavigationList);
    app.handle_key(Key::Down);
    let into = match app.handle_key(Key::Right) {
        Effect::EnterDirectory(d) => d,
        other => panic!("unexpected {:?}", other),
    };
    assert_eq!(into, "/data/alpha");
    app.navigation_state.enter_selected(&vec![dir("inner", "/data/alpha")]);
    assert_eq!(app.navigation_state.current_path, "/data/alpha");
    assert_eq!(app.navigation_state.selected_index, 0);
    let before = app.output.len();
    app.handle_key(Key::Enter);
    assert_eq!(app.mode, AppMode::Normal);
    assert_eq!(app.current_dir, "/data/alpha");
    assert_eq!(app.output.len(), before + 1);
    assert_eq!(app.output.last().unwrap(), "cd /data/alpha");
}

#[test]
fn navigator_commit_after_descent() {
    let mut app = app_in("/data");
    app.enter_navigation_mode(&vec![dir("alpha", "/data")]);
    app.handle_key(Key::Down);
    app.handle_key(Key::Right);
    app.navigation_state.enter_selected(&vec![dir("inner", "/data/alpha")]);
    app.handle_key(Key::Down);
    app.handle_key(Key::Enter);
    assert_eq!(app.current_dir, "/data/alpha/inner");
    assert_eq!(app.output, vec!["cd /data/alpha/inner"]);
}

#[test]
fn navigator_enter_commits_highlighted_entry() {
    let mut app = app_in("/data");
    app.enter_navigation_mode(&vec![dir("alpha", "/data")]);
    app.handle_key(Key::Down);
    app.handle_key(Key::Enter);
    assert_eq!(app.current_dir, "/data/alpha");
    assert_eq!(app.output, vec!["cd /data/alpha"]);
}

#[test]
fn navigator_escape_keeps_directory() {
    let mut app = app_in("/data");
    app.enter_navigation_mode(&vec![dir("alpha", "/data")]);
    app.handle_key(Key::Down);
    app.handle_key(Key::Esc);
    assert_eq!(app.mode, AppMode::Normal);
    assert_eq!(app.current_dir, "/data");
    assert!(app.output.is_empty());
}

#[test]
fn enter_echoes_and_dispatches() {
    let mut app = app_in("/w");
    match type_line(&mut app, "  ls -la ") {
        Effect::RunShell(c) => assert_eq!(c, "ls -la"),
        other => panic!("unexpected {:?}", other),
    }
    assert_eq!(app.output, vec!["/w $   ls -la "]);
    assert_eq!(app.history, vec!["ls -la"]);
    assert_eq!(app.input, "");
    assert_eq!(app.cursor_pos, 0);
    match type_line(&mut app, "cd") {
        Effect::ChangeDirectory(t) => assert_eq!(t, "~"),
        other => panic!("unexpected {:?}", other),
    }
    assert!(matches!(type_line(&mut app, "jerm save"), Effect::SaveBookmark));
    type_line(&mut app, "clear");
    assert!(app.output.is_empty());
    type_line(&mut app, "exit");
    assert!(app.should_quit);
}

#[test]
fn cd_and_shell_results() {
    let mut app = app_in("/w");
    app.finish_cd(Ok("/tmp".to_string()));
    assert_eq!(app.current_dir, "/tmp");
    app.finish_cd(Err(ExecutorError::DirectoryNotFound("nope".to_string())));
    assert_eq!(app.current_dir, "/tmp");
    assert_eq!(app.output, vec!["cd: Directory not found: nope"]);
    app.finish_shell(Ok(CommandResult {
        stdout: vec!["o1".to_string(), "o2".to_string()],
        stderr: vec!["e1".to_string()],
        exit_code: 1,
    }));
    assert_eq!(app.output[1..], ["o1", "o2", "e1"]);
    app.finish_shell(Err(ExecutorError::ExecutionFailed("boom".to_string())));
    assert_eq!(app.output.last().unwrap(), "Error: Failed to execute command: boom");
}

#[test]
fn interrupt_and_end_of_input() {
    let mut app = app_in("/w");
    app.handle_key(Key::Char('x'));
    app.handle_key(Key::Ctrl('d'));
    assert!(!app.should_quit);
    app.handle_key(Key::Ctrl('c'));
    assert_eq!(app.output, vec!["/w $ x^C"]);
    assert_eq!(app.input, "");
    assert!(!app.should_quit);
    app.handle_key(Key::Ctrl('l'));
    assert!(app.output.is_empty());
    app.handle_key(Key::Ctrl('c'));
    assert!(app.should_quit);
}

#[test]
fn bookmark_picker_and_slots() {
    let mut app = app_in("/w");
    type_line(&mut app, "jerm goto");
    assert_eq!(app.mode, AppMode::Normal);
    app.save_bookmark_at(100);
    assert_eq!(app.output.last().unwrap(), "Shortcut saved: /w");
    app.current_dir = "/v".to_string();
    app.save_bookmark_at(200);
    type_line(&mut app, "jerm goto");
    assert_eq!(app.mode, AppMode::ShortcutSelection);
    assert_eq!(app.selected_shortcut_index, 0);
    app.handle_key(Key::Down);
    app.handle_key(Key::Down);
    assert_eq!(app.selected_shortcut_index, 1);
    let path = match app.handle_key(Key::Enter) {
        Effect::JumpBookmark(p) => p,
        other => panic!("unexpected {:?}", other),
    };
    assert_eq!(path, "/w");
    assert_eq!(app.mode, AppMode::Normal);
    app.finish_jump(path, true, 300);
    assert_eq!(app.current_dir, "/w");
    assert_eq!(app.output.last().unwrap(), "cd /w");
    assert_eq!(app.shortcuts.get_shortcut(1).unwrap().path, "/w");
    match app.handle_key(Key::Ctrl('2')) {
        Effect::JumpBookmark(p) => assert_eq!(p, "/v"),
        other => panic!("unexpected {:?}", other),
    }
    assert!(matches!(app.handle_key(Key::Ctrl('3')), Effect::Nothing));
    app.finish_jump("/gone".to_string(), false, 400);
    assert_eq!(app.output.last().unwrap(), "Error: /gone no longer exists");
    assert_eq!(app.current_dir, "/w");
}

#[test]
fn status_requests_follow_directory() {
    let mut app = app_in("/w");
    match app.status_request() {
        Some(GitMessage::UpdateStatus { dir, with_fetch }) => {
            assert_eq!(dir, "/w");
            assert!(!with_fetch);
        }
        other => panic!("unexpected {:?}", other),
    }
    assert!(app.status_request().is_none());
    app.finish_cd(Ok("/x".to_string()));
    assert!(matches!(app.status_request(), Some(GitMessage::UpdateStatus { .. })));
}

#[test]
fn poll_takes_newest_status() {
    let mut app = app_in("/w");
    let st = |b: &str| GitStatus { branch: b.to_string(), is_detached: false, is_dirty: false, ahead: 0, behind: 0 };
    let msgs = vec![
        GitMessage::StatusUpdate(Some(st("one"))),
        GitMessage::StatusUpdate(Some(st("two"))),
        GitMessage::Shutdown,
    ];
    assert!(app.poll_git_updates(&msgs, 1000).is_none());
    assert_eq!(app.git_status.as_ref().unwrap().branch, "two");
    match app.poll_git_updates(&vec![GitMessage::StatusUpdate(None)], 30_000) {
        Some(GitMessage::UpdateStatus { with_fetch, .. }) => assert!(with_fetch),
        other => panic!("unexpected {:?}", other),
    }
    assert!(app.git_status.is_none());
}

#[test]
fn prompt_segments_join_to_prompt() {
    let mut app = app_in("/home/u");
    app.git_status = Some(GitStatus {
        branch: "dev".to_string(),
        is_detached: false,
        is_dirty: false,
        ahead: 0,
        behind: 4,
    });
    let segs = app.prompt_segments();
    let joined: String = segs.iter().map(|(t, _)| t.as_str()).collect();
    assert_eq!(joined, app.prompt_string());
    assert_eq!(joined, "~ dev \u{2193}4 $ ");
    assert_eq!(segs[1], ("dev".to_string(), PromptPart::Branch));
    assert_eq!(segs[3], ("\u{2193}4".to_string(), PromptPart::Counts));
}

#[test]
fn confirming_on_parent_entry_keeps_browsed_directory() {
    let mut app = app_in("/data");
    app.enter_navigation_mode(&vec![dir("alpha", "/data")]);
    app.handle_key(Key::Enter);
    assert_eq!(app.current_dir, "/data");
    assert_eq!(app.output, vec!["cd /data"]);
    assert_eq!(app.mode, AppMode::Normal);
}
