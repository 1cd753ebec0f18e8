use dirnav::{DirectorySnapshot, NavError, ScanEntry, Status, Style, Tab, TermOp, Viewport};

fn entry(name: &str, is_dir: bool) -> ScanEntry {
    ScanEntry { name: name.to_string(), is_dir }
}

fn path(parts: &[&str]) -> Vec<String> {
    parts.iter().map(|p| p.to_string()).collect()
}

fn listing(parts: &[&str], scan: Vec<ScanEntry>) -> DirectorySnapshot {
    DirectorySnapshot::from_scan(path(parts), scan)
}

fn vp() -> Viewport {
    Viewport { width: 40, height: 10, home_col: 0, home_row: 0 }
}

fn padded(text: &str, width: usize) -> String {
    format!("{:<width$}", text, width = width)
}

/// `/tmp/x` holding directories `a`, `b` and the file `c.txt`; `b` holds `inner.txt`.
fn tab_x() -> Tab {
    let snap = listing(
        &["tmp", "x"],
        vec![entry("c.txt", false), entry("b", true), entry("a", true)],
    );
    let mut tab = Tab::new(snap, Status::Primary);
    let a = listing(&["tmp", "x", "a"], vec![]);
    let b = listing(&["tmp", "x", "b"], vec![entry("inner.txt", false)]);
    tab.update_child_tabs(vec![Some(a), Some(b)]);
    tab
}

#[test]
fn scenario_listing_moves_descend_and_ascend() {
    let mut tab = tab_x();
    assert_eq!(tab.get_entries(), path(&["a", "b", "c.txt"]));
    assert_eq!(tab.current_entry_index(), Some(0));

    let ops = tab.move_down(&vp());
    assert_eq!(tab.current_entry_index(), Some(1));
    let expected = vec![
        // the preview of `a`, which is empty, is cleared
        TermOp::MoveTo { col: 0, row: 0 },
        // row 0 back to plain, row 1 highlighted
        TermOp::MoveTo { col: 0, row: 0 },
        TermOp::Print { text: padded("a", 20), style: Style::Listing },
        TermOp::MoveTo { col: 0, row: 0 },
        TermOp::MoveTo { col: 0, row: 1 },
        TermOp::Print { text: padded("b", 20), style: Style::Highlight },
        TermOp::MoveTo { col: 0, row: 0 },
        // the preview of `b` in the right half
        TermOp::MoveTo { col: 20, row: 0 },
        TermOp::Print { text: padded("inner.txt", 20), style: Style::Listing },
        TermOp::MoveTo { col: 0, row: 0 },
    ];
    assert_eq!(ops, expected);

    assert_eq!(tab.go_to_child_tab(), Ok(()));
    assert_eq!(tab.dir_path(), path(&["tmp", "x", "b"]));
    assert_eq!(tab.current_entry_index(), Some(0));
    assert_eq!(tab.status(), Status::Primary);
    assert_eq!(tab.get_entries(), path(&["inner.txt"]));
    assert!(tab.has_parent_tab());

    assert_eq!(tab.go_to_parent_tab(), Ok(()));
    assert_eq!(tab.dir_path(), path(&["tmp", "x"]));
    assert_eq!(tab.current_entry_index(), Some(1));
    assert_eq!(tab.get_entries(), path(&["a", "b", "c.txt"]));
}

#[test]
fn scenario_empty_directory() {
    let mut tab = Tab::new(listing(&["tmp", "empty"], vec![]), Status::Primary);
    assert_eq!(tab.current_entry_index(), None);
    assert_eq!(tab.draw(&vp()), vec![TermOp::MoveTo { col: 0, row: 0 }]);
    assert_eq!(tab.move_down(&vp()), vec![]);
    assert_eq!(tab.current_entry_index(), None);
    assert_eq!(tab.move_up(&vp()), vec![]);
    assert_eq!(tab.current_entry_index(), None);
    assert_eq!(tab.go_to_child_tab(), Err(NavError::NotADirectory));
    assert_eq!(tab.current_entry_index(), None);
    assert_eq!(tab.dir_path(), path(&["tmp", "empty"]));
    assert_eq!(tab.highlight_line(&vp()), vec![]);
}

#[test]
fn scenario_root_ascend_is_noop() {
    let mut tab = Tab::new(
        listing(&[], vec![entry("tmp", true), entry("etc", true)]),
        Status::Primary,
    );
    assert_eq!(tab.parent_path(), None);
    tab.move_down(&vp());
    assert_eq!(tab.go_to_parent_tab(), Ok(()));
    assert_eq!(tab.dir_path(), path(&[]));
    assert_eq!(tab.current_entry_index(), Some(1));
    assert_eq!(tab.get_entries(), path(&["etc", "tmp"]));
    assert!(!tab.has_parent_tab());
    let other = listing(&[], vec![]);
    assert_eq!(tab.update_parent(other), Err(NavError::WrongDirectory));
}

#[test]
fn fresh_tab_cursor_is_first_entry_or_none() {
    let tab = Tab::new(listing(&["d"], vec![entry("f", false)]), Status::Primary);
    assert_eq!(tab.current_entry_index(), Some(0));
    let empty = Tab::new(listing(&["d"], vec![]), Status::Secondary);
    assert_eq!(empty.current_entry_index(), None);
    assert_eq!(empty.status(), Status::Secondary);
}

#[test]
fn descend_then_ascend_restores_cursor() {
    let snap = listing(
        &["r"],
        vec![entry("one", true), entry("two", true), entry("three", true), entry("z", false)],
    );
    let mut tab = Tab::new(snap, Status::Primary);
    let reads: Vec<Option<DirectorySnapshot>> = tab
        .missing_child_paths()
        .into_iter()
        .map(|p| p.map(|p| DirectorySnapshot::from_scan(p, vec![entry("k", false)])))
        .collect();
    tab.update_child_tabs(reads);
    tab.move_down(&vp());
    tab.move_down(&vp());
    assert_eq!(tab.current_entry_index(), Some(2));
    assert_eq!(tab.get_entries()[2], "two");
    assert_eq!(tab.go_to_child_tab(), Ok(()));
    assert_eq!(tab.dir_path(), path(&["r", "two"]));
    assert_eq!(tab.go_to_parent_tab(), Ok(()));
    assert_eq!(tab.current_entry_index(), Some(2));
    assert_eq!(tab.dir_path(), path(&["r"]));
    // the subdirectory's tab came back into its slot
    assert_eq!(tab.missing_child_paths(), vec![None, None, None]);
}

#[test]
fn moves_clamp_at_both_ends() {
    let mut tab = tab_x();
    for _ in 0..5 {
        tab.move_down(&vp());
    }
    assert_eq!(tab.current_entry_index(), Some(2));
    assert_eq!(tab.move_down(&vp()), vec![]);
    assert_eq!(tab.current_entry_index(), Some(2));
    for _ in 0..5 {
        tab.move_up(&vp());
    }
    assert_eq!(tab.current_entry_index(), Some(0));
    assert_eq!(tab.move_up(&vp()), vec![]);
    assert_eq!(tab.current_entry_index(), Some(0));
}

#[test]
fn move_onto_file_clears_preview_and_draws_none() {
    let mut tab = tab_x();
    tab.move_down(&vp());
    let ops = tab.move_down(&vp());
    assert_eq!(tab.current_entry_index(), Some(2));
    let expected = vec![
        // the preview of `b`: one row blanked
        TermOp::MoveTo { col: 20, row: 0 },
        TermOp::Print { text: padded("", 20), style: Style::Plain },
        TermOp::MoveTo { col: 0, row: 0 },
        TermOp::MoveTo { col: 0, row: 1 },
        TermOp::Print { text: padded("b", 20), style: Style::Listing },
        TermOp::MoveTo { col: 0, row: 0 },
        TermOp::MoveTo { col: 0, row: 2 },
        TermOp::Print { text: padded("c.txt", 20), style: Style::Highlight },
        TermOp::MoveTo { col: 0, row: 0 },
    ];
    assert_eq!(ops, expected);
}

#[test]
fn descend_errors() {
    let mut tab = tab_x();
    tab.move_down(&vp());
    tab.move_down(&vp());
    assert_eq!(tab.go_to_child_tab(), Err(NavError::NotADirectory));
    assert_eq!(tab.dir_path(), path(&["tmp", "x"]));

    let mut unread = Tab::new(listing(&["tmp", "x"], vec![entry("a", true)]), Status::Primary);
    assert_eq!(unread.go_to_child_tab(), Err(NavError::Unread));
    assert_eq!(unread.dir_path(), path(&["tmp", "x"]));
    assert_eq!(unread.current_entry_index(), Some(0));
}

#[test]
fn child_listing_of_another_directory_is_not_cached() {
    let mut tab = Tab::new(listing(&["tmp", "x"], vec![entry("a", true)]), Status::Primary);
    let wrong = listing(&["tmp", "y", "a"], vec![]);
    tab.update_child_tabs(vec![Some(wrong)]);
    assert_eq!(tab.missing_child_paths(), vec![Some(path(&["tmp", "x", "a"]))]);
    tab.update_child_tabs(vec![None]);
    assert_eq!(tab.missing_child_paths(), vec![Some(path(&["tmp", "x", "a"]))]);
    tab.update_child_tabs(vec![Some(listing(&["tmp", "x", "a"], vec![]))]);
    assert_eq!(tab.missing_child_paths(), vec![None]);
}

#[test]
fn ascend_needs_parent_read() {
    let mut tab = Tab::new(listing(&["tmp", "x"], vec![entry("f", false)]), Status::Primary);
    assert_eq!(tab.parent_path(), Some(path(&["tmp"])));
    assert_eq!(tab.go_to_parent_tab(), Err(NavError::Unread));
    assert_eq!(tab.dir_path(), path(&["tmp", "x"]));

    let wrong = listing(&["var"], vec![]);
    assert_eq!(tab.update_parent(wrong), Err(NavError::WrongDirectory));
    assert!(!tab.has_parent_tab());

    let parent = listing(
        &["tmp"],
        vec![entry("w", true), entry("x", true), entry("y", true), entry("notes", false)],
    );
    assert_eq!(tab.update_parent(parent), Ok(()));
    assert!(tab.has_parent_tab());
    assert_eq!(tab.go_to_parent_tab(), Ok(()));
    assert_eq!(tab.dir_path(), path(&["tmp"]));
    assert_eq!(tab.current_entry_index(), Some(1));
    assert_eq!(tab.get_entries(), path(&["w", "x", "y", "notes"]));
    assert_eq!(tab.missing_child_paths(), vec![Some(path(&["tmp", "w"])), None, Some(path(&["tmp", "y"]))]);
}

#[test]
fn ascend_when_parent_no_longer_lists_the_directory() {
    let mut tab = Tab::new(listing(&["tmp", "gone"], vec![]), Status::Primary);
    let parent = listing(&["tmp"], vec![entry("a", true), entry("b", true)]);
    assert_eq!(tab.update_parent(parent), Ok(()));
    assert_eq!(tab.go_to_parent_tab(), Ok(()));
    assert_eq!(tab.dir_path(), path(&["tmp"]));
    assert_eq!(tab.current_entry_index(), Some(0));
}
