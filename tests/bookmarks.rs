use jerm::bookmarks::{Shortcut, ShortcutManager, ShortcutsData};

fn now_ms() -> i64 {
    chrono::Utc::now().timestamp_millis()
}

#[test]
fn test_manager_new() {
    let manager = ShortcutManager::new();
    let _ = manager.get_shortcuts();
}

#[test]
fn test_get_shortcut_bounds() {
    let manager = ShortcutManager::new();
    assert!(manager.get_shortcut(0).is_none());
    assert!(manager.get_shortcut(10).is_none());
}

#[test]
fn test_shortcut_new() {
    let shortcut = Shortcut::new("/tmp".to_string());
    assert_eq!(shortcut.path, "/tmp");
    assert!(shortcut.created_at <= now_ms());
    assert_eq!(shortcut.created_at, shortcut.last_accessed);
}

#[test]
fn test_shortcut_touch() {
    let mut shortcut = Shortcut::new("/tmp".to_string());
    let first_accessed = shortcut.last_accessed;
    shortcut.touch();
    assert!(shortcut.last_accessed >= first_accessed);
}

#[test]
fn test_display_name() {
    let shortcut = Shortcut::new("/tmp".to_string());
    assert_eq!(shortcut.display_name(), "/tmp");
}

#[test]
fn test_time_ago_now() {
    let shortcut = Shortcut::new("/tmp".to_string());
    assert_eq!(shortcut.time_ago(), "now");
}

#[test]
fn test_time_ago_minutes() {
    let mut shortcut = Shortcut::new("/tmp".to_string());
    shortcut.last_accessed = now_ms() - 5 * 60_000;
    assert_eq!(shortcut.time_ago(), "5m");
}

#[test]
fn test_time_ago_hours() {
    let mut shortcut = Shortcut::new("/tmp".to_string());
    shortcut.last_accessed = now_ms() - 2 * 3_600_000;
    assert_eq!(shortcut.time_ago(), "2h");
}

#[test]
fn test_time_ago_days() {
    let mut shortcut = Shortcut::new("/tmp".to_string());
    shortcut.last_accessed = now_ms() - 3 * 86_400_000;
    assert_eq!(shortcut.time_ago(), "3d");
}

#[test]
fn test_time_ago_weeks() {
    let mut shortcut = Shortcut::new("/tmp".to_string());
    shortcut.last_accessed = now_ms() - 2 * 7 * 86_400_000;
    assert_eq!(shortcut.time_ago(), "2w");
}

#[test]
fn test_time_ago_months() {
    let mut shortcut = Shortcut::new("/tmp".to_string());
    shortcut.last_accessed = now_ms() - 45 * 86_400_000;
    assert_eq!(shortcut.time_ago(), "1mo");
}

#[test]
fn time_ago_boundaries() {
    let s = Shortcut::new_at("/x".to_string(), 0);
    assert_eq!(s.time_ago_at(59_999), "now");
    assert_eq!(s.time_ago_at(-5_000), "now");
    assert_eq!(s.time_ago_at(60_000), "1m");
    assert_eq!(s.time_ago_at(3_599_999), "59m");
    assert_eq!(s.time_ago_at(3_600_000), "1h");
    assert_eq!(s.time_ago_at(86_400_000), "1d");
    assert_eq!(s.time_ago_at(7 * 86_400_000), "1w");
    assert_eq!(s.time_ago_at(28 * 86_400_000), "4w");
    assert_eq!(s.time_ago_at(29 * 86_400_000), "4w");
    assert_eq!(s.time_ago_at(30 * 86_400_000), "1mo");
    assert_eq!(s.time_ago_at(75 * 86_400_000), "2mo");
    assert_eq!(s.time_ago_at(400 * 86_400_000), "13mo");
}

#[test]
fn display_name_abbreviates_home() {
    let s = Shortcut::new_at("/home/ann/src".to_string(), 0);
    assert_eq!(s.display_name_in(&Some("/home/ann".to_string())), "~/src");
    assert_eq!(s.display_name_in(&Some("/home/bob".to_string())), "/home/ann/src");
    assert_eq!(s.display_name_in(&None), "/home/ann/src");
}

fn manager_with(times: &[(&str, i64)]) -> ShortcutManager {
    let mut m = ShortcutManager::new();
    for (p, t) in times {
        m.add_shortcut_at(p.to_string(), *t);
    }
    m
}

fn ranked_paths(m: &ShortcutManager) -> Vec<String> {
    m.get_shortcuts().into_iter().map(|s| s.path).collect()
}

#[test]
fn bookmarks_rank_by_recency_and_touch_moves_first() {
    let mut m = manager_with(&[("/t1", 100), ("/t3", 300), ("/t2", 200)]);
    assert_eq!(ranked_paths(&m), vec!["/t3", "/t2", "/t1"]);
    m.touch_shortcut_at("/t1", 400);
    assert_eq!(ranked_paths(&m), vec!["/t1", "/t3", "/t2"]);
    assert_eq!(m.get_shortcut(1).unwrap().path, "/t1");
    assert_eq!(m.get_shortcut(3).unwrap().path, "/t2");
    assert!(m.get_shortcut(4).is_none());
}

#[test]
fn equal_times_keep_stored_order() {
    let m = manager_with(&[("/a", 5), ("/b", 5), ("/c", 9)]);
    assert_eq!(ranked_paths(&m), vec!["/c", "/a", "/b"]);
}

#[test]
fn adding_existing_path_touches_it() {
    let mut m = manager_with(&[("/a", 1), ("/b", 2)]);
    m.add_shortcut_at("/a".to_string(), 10);
    assert_eq!(m.len(), 2);
    let first = m.get_shortcut(1).unwrap();
    assert_eq!(first.path, "/a");
    assert_eq!(first.last_accessed, 10);
    assert_eq!(first.created_at, 1);
}

#[test]
fn slots_stop_at_nine() {
    let times: Vec<(String, i64)> = (0..12).map(|i| (format!("/d{}", i), i as i64)).collect();
    let mut m = ShortcutManager::new();
    for (p, t) in &times {
        m.add_shortcut_at(p.clone(), *t);
    }
    assert_eq!(m.get_shortcut(9).unwrap().path, "/d3");
    assert!(m.get_shortcut(10).is_none());
}

#[test]
fn remove_and_touch_missing() {
    let mut m = manager_with(&[("/a", 1), ("/b", 2)]);
    m.touch_shortcut_at("/zzz", 50);
    assert_eq!(ranked_paths(&m), vec!["/b", "/a"]);
    m.remove_shortcut("/b");
    assert_eq!(ranked_paths(&m), vec!["/a"]);
    m.remove_shortcut("/a");
    assert!(m.is_empty());
}

#[test]
fn stored_duplicates_keep_first() {
    let data = ShortcutsData {
        shortcuts: vec![
            Shortcut::new_at("/a".to_string(), 1),
            Shortcut::new_at("/a".to_string(), 7),
            Shortcut::new_at("/b".to_string(), 3),
        ],
    };
    let m = ShortcutManager::from_data(data);
    assert_eq!(m.len(), 2);
    assert_eq!(m.data().shortcuts[0].last_accessed, 1);
}

#[test]
fn slots_hold_the_nine_most_recent() {
    let mut m = ShortcutManager::new();
    for i in 0..12 {
        m.add_shortcut_at(format!("/d{}", i), i as i64);
    }
    let slots: Vec<String> = m.slots().into_iter().map(|s| s.path).collect();
    assert_eq!(slots.len(), 9);
    assert_eq!(slots[0], "/d11");
    assert_eq!(slots[8], "/d3");
    let small = manager_with(&[("/a", 1)]);
    assert_eq!(small.slots().len(), 1);
}
