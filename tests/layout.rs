use jerm::layout::{header_text, layout_view, sidebar_label, str_width, wrap_line};

#[test]
fn wrap_ascii_line() {
    assert_eq!(wrap_line("abcdefg", 3), vec!["abc", "def", "g"]);
    assert_eq!(wrap_line("abc", 3), vec!["abc"]);
    assert_eq!(wrap_line("", 3), vec![""]);
    assert_eq!(wrap_line("abc", 0), vec![""]);
}

#[test]
fn wrap_counts_wide_and_zero_width() {
    assert_eq!(wrap_line("a日本", 3), vec!["a日", "本"]);
    assert_eq!(wrap_line("e\u{301}e\u{301}e", 2), vec!["e\u{301}e\u{301}", "e"]);
    assert_eq!(str_width("日本a"), 5);
    assert_eq!(str_width("e\u{301}"), 1);
    assert_eq!(str_width("\u{7}"), 0);
}

#[test]
fn layout_scrolls_to_bottom_and_places_cursor() {
    let output = vec!["one".to_string(), "twotwo".to_string()];
    let v = layout_view(&output, "$ ", "abcd", 2, 4, 3);
    assert_eq!(v.input_row, 3);
    assert_eq!(v.scroll, 2);
    assert_eq!(v.rows, vec!["wo", "$ ab", "cd"]);
    assert_eq!(v.cursor, Some((0, 2)));
}

#[test]
fn layout_without_scroll() {
    let v = layout_view(&Vec::new(), "> ", "hé", 2, 10, 5);
    assert_eq!(v.scroll, 0);
    assert_eq!(v.rows, vec!["> hé"]);
    assert_eq!(v.cursor, Some((4, 0)));
}

#[test]
fn cursor_out_of_view_is_not_drawn() {
    let v = layout_view(&Vec::new(), "", "abcdefgh", 0, 2, 1);
    assert_eq!(v.scroll, 3);
    assert_eq!(v.rows, vec!["gh"]);
    assert_eq!(v.cursor, None);
}

#[test]
fn zero_width_viewport_wraps_at_one_column() {
    let v = layout_view(&Vec::new(), "", "ab", 1, 0, 5);
    assert_eq!(v.rows, vec!["a", "b"]);
    assert_eq!(v.cursor, Some((0, 1)));
}

#[test]
fn sidebar_labels_fit_the_row() {
    assert_eq!(sidebar_label("~/src", 2, 23, false), ("~/src".to_string(), 13));
    assert_eq!(sidebar_label("/very/long/path/name", 2, 20, false), ("..ong/path/name".to_string(), 0));
    assert_eq!(sidebar_label("/abcdef", 2, 5, false), ("/ab".to_string(), 0));
    assert_eq!(sidebar_label("/abc", 2, 24, true), ("/abc".to_string(), 13));
}

#[test]
fn navigator_header_keeps_the_tail() {
    assert_eq!(header_text("/home/user/projects", 10), "..ojects");
    assert_eq!(header_text("/tmp", 10), "/tmp");
    assert_eq!(header_text("/tmp/abcd", 10), "..p/abcd");
    assert_eq!(header_text("/tmp/abc", 10), "/tmp/abc");
}

#[test]
fn narrow_navigator_header() {
    assert_eq!(header_text("/a", 3), "..");
    assert_eq!(header_text("/", 3), "/");
    assert_eq!(header_text("/abc", 0), "..");
    assert_eq!(header_text("", 0), "");
}
