use jerm::git::{
    get_git_status, parse_ahead_behind, parse_u32, porcelain_dirty, worker_step, GitError, GitMessage, GitQuery,
    StatusAnswers, WorkerAction,
};

#[test]
fn status_without_upstream() {
    let ab = parse_ahead_behind(false, "fatal: no upstream configured");
    assert_eq!(ab, (0, 0));
    let st = get_git_status(true, Ok("main".to_string()), Err(GitError::Timeout), Ok(true), Ok(ab)).unwrap();
    assert_eq!(st.branch, "main");
    assert!(!st.is_detached);
    assert!(st.is_dirty);
    assert_eq!((st.ahead, st.behind), (0, 0));
    let clean = get_git_status(true, Ok("main".to_string()), Err(GitError::Timeout), Ok(false), Ok(ab)).unwrap();
    assert!(!clean.is_dirty);
}

#[test]
fn detached_head_uses_short_hash() {
    let st = get_git_status(true, Ok("HEAD".to_string()), Ok("abc1234".to_string()), Ok(false), Ok((1, 2))).unwrap();
    assert!(st.is_detached);
    assert_eq!(st.branch, "abc1234");
    assert_eq!((st.ahead, st.behind), (1, 2));
    let failed = get_git_status(true, Ok("HEAD".to_string()), Err(GitError::CommandFailed("x".to_string())), Ok(false), Ok((0, 0)));
    assert!(matches!(failed, Err(GitError::CommandFailed(_))));
}

#[test]
fn not_a_repository() {
    let r = get_git_status(false, Ok("main".to_string()), Ok("h".to_string()), Ok(false), Ok((0, 0)));
    assert!(matches!(r, Err(GitError::NotARepository)));
}

#[test]
fn ahead_behind_parsing() {
    assert_eq!(parse_ahead_behind(true, "3\t5\n"), (3, 5));
    assert_eq!(parse_ahead_behind(true, "  12   0 "), (12, 0));
    assert_eq!(parse_ahead_behind(true, "3"), (0, 0));
    assert_eq!(parse_ahead_behind(true, "1 2 3"), (0, 0));
    assert_eq!(parse_ahead_behind(true, "x 7"), (0, 7));
    assert_eq!(parse_ahead_behind(true, "4294967296 +1"), (0, 1));
}

#[test]
fn u32_parsing() {
    let s = "+42";
    assert_eq!(parse_u32(s, 0, 3), Some(42));
    assert_eq!(parse_u32("4294967295", 0, 10), Some(u32::MAX));
    assert_eq!(parse_u32("4294967296", 0, 10), None);
    assert_eq!(parse_u32("+", 0, 1), None);
    assert_eq!(parse_u32("", 0, 0), None);
    assert_eq!(parse_u32("-1", 0, 2), None);
    assert_eq!(parse_u32("007", 0, 3), Some(7));
}

#[test]
fn worker_protocol() {
    match worker_step(Some(GitMessage::UpdateStatus { dir: "/r".to_string(), with_fetch: true })) {
        WorkerAction::Refresh { dir, with_fetch } => {
            assert_eq!(dir, "/r");
            assert!(with_fetch);
        }
        other => panic!("unexpected {:?}", other),
    }
    assert!(matches!(worker_step(Some(GitMessage::Shutdown)), WorkerAction::Stop));
    assert!(matches!(worker_step(None), WorkerAction::Stop));
    assert!(matches!(worker_step(Some(GitMessage::StatusUpdate(None))), WorkerAction::Ignore));
}

#[test]
fn first_failing_query_decides_the_error() {
    let r = get_git_status(
        true,
        Err(GitError::CommandFailed("branch".to_string())),
        Ok("h".to_string()),
        Err(GitError::CommandFailed("dirty".to_string())),
        Ok((0, 0)),
    );
    assert!(matches!(r, Err(GitError::CommandFailed(m)) if m == "branch"));
    let r = get_git_status(
        true,
        Ok("main".to_string()),
        Err(GitError::Timeout),
        Err(GitError::CommandFailed("dirty".to_string())),
        Err(GitError::Timeout),
    );
    assert!(matches!(r, Err(GitError::CommandFailed(m)) if m == "dirty"));
}

#[test]
fn query_plan_follows_answers() {
    let mut a = StatusAnswers::new();
    assert_eq!(a.next_query(), Some(GitQuery::IsRepo));
    a.is_repo = Some(false);
    assert_eq!(a.next_query(), None);
    a.is_repo = Some(true);
    assert_eq!(a.next_query(), Some(GitQuery::Branch));
    a.branch = Some(Ok("HEAD".to_string()));
    assert_eq!(a.next_query(), Some(GitQuery::ShortHash));
    a.short_hash = Some(Err(GitError::Timeout));
    assert_eq!(a.next_query(), None);
    a.short_hash = Some(Ok("abc".to_string()));
    assert_eq!(a.next_query(), Some(GitQuery::Dirty));
    a.is_dirty = Some(Ok(true));
    assert_eq!(a.next_query(), Some(GitQuery::AheadBehind));
    a.ahead_behind = Some(Ok((0, 0)));
    assert_eq!(a.next_query(), None);
    let mut b = StatusAnswers::new();
    b.is_repo = Some(true);
    b.branch = Some(Ok("main".to_string()));
    assert_eq!(b.next_query(), Some(GitQuery::Dirty));
    b.is_dirty = Some(Err(GitError::Timeout));
    assert_eq!(b.next_query(), None);
}

#[test]
fn porcelain_output_decides_dirty() {
    assert!(matches!(porcelain_dirty(true, " M src/lib.rs\n", String::new()), Ok(true)));
    assert!(matches!(porcelain_dirty(true, "", String::new()), Ok(false)));
    assert!(matches!(porcelain_dirty(false, "", "fatal".to_string()), Err(GitError::CommandFailed(m)) if m == "fatal"));
}
