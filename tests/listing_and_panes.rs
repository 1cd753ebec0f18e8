use std::collections::HashMap;

use dirnav::{folded_precedes, name_precedes, DirectorySnapshot, ScanEntry, Status, Style, Tab, TermOp, Viewport};

fn entry(name: &str, is_dir: bool) -> ScanEntry {
    ScanEntry { name: name.to_string(), is_dir }
}

fn strings(parts: &[&str]) -> Vec<String> {
    parts.iter().map(|p| p.to_string()).collect()
}

fn tab_of(scan: Vec<ScanEntry>, status: Status) -> Tab {
    Tab::new(DirectorySnapshot::from_scan(strings(&["home"]), scan), status)
}

/// Applies terminal commands to a grid of cells, as a terminal would.
fn paint(screen: &mut HashMap<(u16, u16), (char, Style)>, cursor: &mut (u16, u16), ops: &[TermOp]) {
    for op in ops {
        match op {
            TermOp::ClearAll => screen.clear(),
            TermOp::MoveTo { col, row } => *cursor = (*col, *row),
            TermOp::Print { text, style } => {
                for c in text.chars() {
                    screen.insert(*cursor, (c, *style));
                    cursor.0 += 1;
                }
            }
        }
    }
}

#[test]
fn directories_first_then_files_case_insensitive() {
    let scan = vec![
        entry("b", true),
        entry("C.txt", false),
        entry("Zed", true),
        entry("a.txt", false),
        entry("B", true),
        entry("a", true),
    ];
    let tab = tab_of(scan, Status::Primary);
    assert_eq!(tab.dir_entries(), strings(&["a", "B", "b", "Zed"]));
    assert_eq!(tab.file_entries(), strings(&["a.txt", "C.txt"]));
    assert_eq!(tab.get_entries(), strings(&["a", "B", "b", "Zed", "a.txt", "C.txt"]));
}

#[test]
fn listing_does_not_depend_on_read_order() {
    let first = tab_of(
        vec![entry("x", false), entry("M", true), entry("k", true), entry("Y", false)],
        Status::Primary,
    );
    let second = tab_of(
        vec![entry("k", true), entry("Y", false), entry("M", true), entry("x", false)],
        Status::Primary,
    );
    assert_eq!(first.get_entries(), second.get_entries());
    assert_eq!(first.get_entries(), strings(&["k", "M", "x", "Y"]));
}

#[test]
fn a_name_reported_twice_is_listed_once() {
    let tab = tab_of(vec![entry("d", true), entry("d", true), entry("f", false)], Status::Primary);
    assert_eq!(tab.get_entries(), strings(&["d", "f"]));
}

#[test]
fn name_order_folds_case() {
    assert!(name_precedes(&"a".to_string(), &"B".to_string()));
    assert!(!name_precedes(&"B".to_string(), &"a".to_string()));
    assert!(name_precedes(&"B".to_string(), &"b".to_string()));
    assert!(name_precedes(&"ab".to_string(), &"abc".to_string()));
    assert!(!name_precedes(&"x".to_string(), &"x".to_string()));
}

#[test]
fn draw_primary_pane() {
    let tab = tab_of(vec![entry("docs", true), entry("readme", false)], Status::Primary);
    let vp = Viewport { width: 12, height: 5, home_col: 3, home_row: 4 };
    let expected = vec![
        TermOp::MoveTo { col: 0, row: 0 },
        TermOp::Print { text: "docs  ".to_string(), style: Style::Listing },
        TermOp::MoveTo { col: 0, row: 1 },
        TermOp::Print { text: "readme".to_string(), style: Style::Listing },
        TermOp::MoveTo { col: 3, row: 4 },
    ];
    assert_eq!(tab.draw(&vp), expected);
}

#[test]
fn draw_secondary_pane_cuts_long_names_and_rows() {
    let tab = tab_of(
        vec![entry("averyverylongname", false), entry("b", false), entry("c", false)],
        Status::Secondary,
    );
    let vp = Viewport { width: 9, height: 2, home_col: 0, home_row: 0 };
    let expected = vec![
        TermOp::MoveTo { col: 4, row: 0 },
        TermOp::Print { text: "aver".to_string(), style: Style::Listing },
        TermOp::MoveTo { col: 4, row: 1 },
        TermOp::Print { text: "b   ".to_string(), style: Style::Listing },
        TermOp::MoveTo { col: 0, row: 0 },
    ];
    assert_eq!(tab.draw(&vp), expected);
}

#[test]
fn parent_pane_is_not_drawn() {
    let tab = tab_of(vec![entry("a", true)], Status::Parent);
    let vp = Viewport { width: 20, height: 5, home_col: 0, home_row: 0 };
    assert_eq!(tab.draw(&vp), vec![]);
    assert_eq!(tab.clear(&vp), vec![]);
}

#[test]
fn clear_blanks_each_row() {
    let tab = tab_of(vec![entry("a", true), entry("b", false)], Status::Primary);
    let vp = Viewport { width: 6, height: 5, home_col: 1, home_row: 1 };
    let expected = vec![
        TermOp::MoveTo { col: 0, row: 0 },
        TermOp::Print { text: "   ".to_string(), style: Style::Plain },
        TermOp::MoveTo { col: 0, row: 1 },
        TermOp::Print { text: "   ".to_string(), style: Style::Plain },
        TermOp::MoveTo { col: 1, row: 1 },
    ];
    assert_eq!(tab.clear(&vp), expected);
    assert_eq!(Tab::clear2(), vec![TermOp::ClearAll]);
}

#[test]
fn draw_clear_draw_equals_draw() {
    let tab = tab_of(
        vec![entry("src", true), entry("Cargo.toml", false), entry("a-long-file-name.rs", false)],
        Status::Primary,
    );
    let vp = Viewport { width: 20, height: 10, home_col: 0, home_row: 0 };
    let mut before = HashMap::new();
    for col in 0..20u16 {
        for row in 0..5u16 {
            before.insert((col, row), ('#', Style::Plain));
        }
    }
    let mut once = before.clone();
    let mut cursor_once = (5, 5);
    paint(&mut once, &mut cursor_once, &tab.draw(&vp));

    let mut thrice = before.clone();
    let mut cursor_thrice = (5, 5);
    paint(&mut thrice, &mut cursor_thrice, &tab.draw(&vp));
    paint(&mut thrice, &mut cursor_thrice, &tab.clear(&vp));
    paint(&mut thrice, &mut cursor_thrice, &tab.draw(&vp));

    assert_eq!(once, thrice);
    assert_eq!(cursor_once, cursor_thrice);
    assert_eq!(cursor_once, (0, 0));
    assert_eq!(once.get(&(3, 0)), Some(&(' ', Style::Listing)));
}

#[test]
fn highlight_and_unhighlight_rewrite_the_cursor_row() {
    let tab = tab_of(vec![entry("abc", false)], Status::Primary);
    let vp = Viewport { width: 10, height: 5, home_col: 2, home_row: 3 };
    assert_eq!(
        tab.highlight_line(&vp),
        vec![
            TermOp::MoveTo { col: 0, row: 0 },
            TermOp::Print { text: "abc  ".to_string(), style: Style::Highlight },
            TermOp::MoveTo { col: 2, row: 3 },
        ]
    );
    assert_eq!(
        tab.unhighlight_line(&vp),
        vec![
            TermOp::MoveTo { col: 0, row: 0 },
            TermOp::Print { text: "abc  ".to_string(), style: Style::Listing },
            TermOp::MoveTo { col: 2, row: 3 },
        ]
    );
}

#[test]
fn panes_show_listing_preview_and_highlight() {
    let mut tab = Tab::new(
        DirectorySnapshot::from_scan(strings(&["p"]), vec![entry("d", true)]),
        Status::Primary,
    );
    let child = DirectorySnapshot::from_scan(strings(&["p", "d"]), vec![entry("e", false)]);
    tab.update_child_tabs(vec![Some(child)]);
    let vp = Viewport { width: 4, height: 3, home_col: 0, home_row: 0 };
    assert_eq!(
        tab.draw_panes(&vp),
        vec![
            TermOp::MoveTo { col: 0, row: 0 },
            TermOp::Print { text: "d ".to_string(), style: Style::Listing },
            TermOp::MoveTo { col: 0, row: 0 },
            TermOp::MoveTo { col: 2, row: 0 },
            TermOp::Print { text: "e ".to_string(), style: Style::Listing },
            TermOp::MoveTo { col: 0, row: 0 },
            TermOp::MoveTo { col: 0, row: 0 },
            TermOp::Print { text: "d ".to_string(), style: Style::Highlight },
            TermOp::MoveTo { col: 0, row: 0 },
        ]
    );
    assert_eq!(
        tab.clear_panes(&vp),
        vec![
            TermOp::MoveTo { col: 2, row: 0 },
            TermOp::Print { text: "  ".to_string(), style: Style::Plain },
            TermOp::MoveTo { col: 0, row: 0 },
            TermOp::MoveTo { col: 0, row: 0 },
            TermOp::Print { text: "  ".to_string(), style: Style::Plain },
            TermOp::MoveTo { col: 0, row: 0 },
        ]
    );
}

#[test]
fn folded_order_compares_lowercase_forms_then_names() {
    let s = |x: &str| x.to_string();
    assert!(folded_precedes(&s("Apple"), &s("apple"), &s("banana"), &s("banana")));
    assert!(!folded_precedes(&s("banana"), &s("banana"), &s("Apple"), &s("apple")));
    assert!(folded_precedes(&s("Ab"), &s("ab"), &s("ab"), &s("ab")));
    assert!(!folded_precedes(&s("ab"), &s("ab"), &s("Ab"), &s("ab")));
    assert!(!folded_precedes(&s("same"), &s("same"), &s("same"), &s("same")));
    assert!(folded_precedes(&s("z"), &s("a"), &s("a"), &s("b")));
}
