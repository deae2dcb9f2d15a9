use jerm::browser::{build_entries, DirEntry, NavigationState};

fn dir(name: &str, parent: &str) -> DirEntry {
    DirEntry { name: name.to_string(), path: format!("{}/{}", parent, name), is_dir: true }
}

fn file(name: &str, parent: &str) -> DirEntry {
    DirEntry { name: name.to_string(), path: format!("{}/{}", parent, name), is_dir: false }
}

fn names(state: &NavigationState) -> Vec<String> {
    state.entries.iter().map(|e| e.name.clone()).collect()
}

#[test]
fn test_navigation_state_new() {
    let state = NavigationState::new();
    assert!(state.entries.is_empty());
    assert_eq!(state.selected_index, 0);
}

#[test]
fn test_start_navigation() {
    let mut state = NavigationState::new();
    state.start_navigation("/tmp".to_string(), &Vec::new());
    assert_eq!(state.current_path, "/tmp");
}

#[test]
fn test_move_up_at_zero() {
    let mut state = NavigationState::new();
    state.move_up();
    assert_eq!(state.selected_index, 0);
}

#[test]
fn test_move_down_empty() {
    let mut state = NavigationState::new();
    state.move_down();
    assert_eq!(state.selected_index, 0);
}

#[test]
fn listing_is_filtered_and_sorted_case_insensitively() {
    let listing = vec![
        dir("beta", "/home/u"),
        file("notes.txt", "/home/u"),
        dir(".hidden", "/home/u"),
        dir("Alpha", "/home/u"),
        dir("gamma", "/home/u"),
    ];
    let mut state = NavigationState::new();
    state.start_navigation("/home/u".to_string(), &listing);
    assert_eq!(names(&state), vec!["..", "Alpha", "beta", "gamma"]);
    assert_eq!(state.entries[0].path, "/home");
    assert!(state.entries[0].is_dir);
}

#[test]
fn root_has_no_parent_entry() {
    let entries = build_entries("/", &vec![dir("usr", ""), dir("etc", "")]);
    let n: Vec<&str> = entries.iter().map(|e| e.name.as_str()).collect();
    assert_eq!(n, vec!["etc", "usr"]);
}

#[test]
fn moves_stay_in_bounds() {
    let listing = vec![dir("a", "/r"), dir("b", "/r")];
    let mut state = NavigationState::new();
    state.start_navigation("/r".to_string(), &listing);
    assert_eq!(state.entries.len(), 3);
    for _ in 0..5 {
        state.move_down();
    }
    assert_eq!(state.selected_index, 2);
    for _ in 0..5 {
        state.move_up();
    }
    assert_eq!(state.selected_index, 0);
    assert_eq!(state.scroll_offset, 0);
}

#[test]
fn adjust_scroll_keeps_selection_visible() {
    let listing: Vec<DirEntry> = (0..10).map(|i| dir(&format!("d{}", i), "/r")).collect();
    let mut state = NavigationState::new();
    state.start_navigation("/r".to_string(), &listing);
    for _ in 0..7 {
        state.move_down();
    }
    state.adjust_scroll(3);
    assert_eq!(state.selected_index, 7);
    assert_eq!(state.scroll_offset, 5);
    for _ in 0..4 {
        state.move_up();
    }
    assert_eq!(state.selected_index, 3);
    assert_eq!(state.scroll_offset, 3);
    let visible = state.get_visible_entries(3);
    let idx: Vec<usize> = visible.iter().map(|(i, _)| *i).collect();
    assert_eq!(idx, vec![3, 4, 5]);
    assert!(state.is_selected(3));
    assert!(!state.is_selected(4));
}

#[test]
fn visible_window_near_end_is_short() {
    let listing = vec![dir("a", "/r"), dir("b", "/r")];
    let mut state = NavigationState::new();
    state.start_navigation("/r".to_string(), &listing);
    state.move_down();
    state.move_down();
    state.adjust_scroll(1);
    assert_eq!(state.scroll_offset, 2);
    assert_eq!(state.get_visible_entries(5).len(), 1);
}

#[test]
fn enter_and_go_up() {
    let top = vec![dir("proj", "/home")];
    let mut state = NavigationState::new();
    state.start_navigation("/home".to_string(), &top);
    assert_eq!(state.enter_target(), None);
    state.enter_selected(&vec![dir("x", "/")]);
    assert_eq!(state.current_path, "/home");
    state.move_down();
    assert_eq!(state.enter_target(), Some("/home/proj".to_string()));
    state.enter_selected(&vec![dir("src", "/home/proj")]);
    assert_eq!(state.current_path, "/home/proj");
    assert_eq!(state.selected_index, 0);
    assert_eq!(names(&state), vec!["..", "src"]);
    assert_eq!(state.go_up_target(), Some("/home".to_string()));
    state.go_up(&top);
    assert_eq!(state.current_path, "/home");
    assert_eq!(state.get_selected_path(), Some("/".to_string()));
}

#[test]
fn go_up_at_root_is_noop() {
    let mut state = NavigationState::new();
    state.start_navigation("/".to_string(), &vec![dir("etc", "")]);
    state.go_up(&vec![dir("other", "")]);
    assert_eq!(state.current_path, "/");
    assert_eq!(names(&state), vec!["etc"]);
}

#[test]
fn refresh_clamps_selection() {
    let many: Vec<DirEntry> = (0..5).map(|i| dir(&format!("d{}", i), "/r")).collect();
    let mut state = NavigationState::new();
    state.start_navigation("/r".to_string(), &many);
    for _ in 0..5 {
        state.move_down();
    }
    state.adjust_scroll(2);
    assert_eq!(state.selected_index, 5);
    assert_eq!(state.scroll_offset, 4);
    state.refresh_entries(&vec![dir("d0", "/r")]);
    assert_eq!(state.selected_index, 1);
    assert_eq!(state.scroll_offset, 4);
    state.adjust_scroll(2);
    assert_eq!(state.scroll_offset, 1);
    state.refresh_entries(&Vec::new());
    assert_eq!(state.selected_index, 0);
}

#[test]
fn empty_listing_gives_no_selection() {
    let mut state = NavigationState::new();
    state.start_navigation(String::new(), &Vec::new());
    assert!(state.entries.is_empty());
    assert_eq!(state.get_selected_path(), None);
}
