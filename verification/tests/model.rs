use clearsheet::display::{project, window, DisplayLine};
use clearsheet::sheet::{folded_match, CheatSheet, Section, ShortcutRow};

fn row(shortcut: &str, description: &str) -> ShortcutRow {
    ShortcutRow { shortcut: shortcut.to_string(), description: description.to_string() }
}

fn nav_sheet() -> CheatSheet {
    CheatSheet {
        name: "vim".to_string(),
        title: "Title".to_string(),
        sections: vec![Section {
            header: "Nav".to_string(),
            rows: vec![row("j", "down"), row("k", "up")],
        }],
    }
}

fn numbered_lines(n: usize) -> Vec<DisplayLine> {
    (0..n).map(|i| DisplayLine::Title(format!("line {}", i))).collect()
}

#[test]
fn matches_query_empty_is_always_true() {
    assert!(row("Ctrl+S", "Save file").matches_query(""));
    assert!(row("", "").matches_query(""));
}

#[test]
fn matches_query_is_case_insensitive_on_both_fields() {
    let r = row("Ctrl+S", "Save file");
    assert!(r.matches_query("save"));
    assert!(r.matches_query("CTRL"));
    assert!(!r.matches_query("xyz"));
}

#[test]
fn matches_query_folds_non_ascii_letters() {
    let r = row("Ä", "Öffnen");
    assert!(r.matches_query("ä"));
    assert!(r.matches_query("öFF"));
    assert!(!r.matches_query("ü"));
}

#[test]
fn matches_query_needs_a_contiguous_part() {
    let r = row("gg", "go to top");
    assert!(r.matches_query("to t"));
    assert!(!r.matches_query("got"));
    assert!(!r.matches_query("go to top "));
}

#[test]
fn folded_match_compares_as_given() {
    assert!(folded_match("ctrl+s", "save file", "save"));
    assert!(folded_match("ctrl+s", "save file", "+s"));
    assert!(!folded_match("ctrl+s", "save file", "Save"));
    assert!(folded_match("a", "b", ""));
}

#[test]
fn project_orders_title_sections_and_rows() {
    let lines = project(&nav_sheet(), "");
    assert_eq!(
        lines,
        vec![
            DisplayLine::Title("Title".to_string()),
            DisplayLine::Blank,
            DisplayLine::SectionHeader("Nav".to_string()),
            DisplayLine::Blank,
            DisplayLine::ColumnHeader,
            DisplayLine::DataRow("j".to_string(), "down".to_string()),
            DisplayLine::DataRow("k".to_string(), "up".to_string()),
            DisplayLine::Blank,
        ]
    );
}

#[test]
fn project_drops_rows_that_fail_the_filter() {
    let lines = project(&nav_sheet(), "up");
    assert_eq!(
        lines,
        vec![
            DisplayLine::Title("Title".to_string()),
            DisplayLine::Blank,
            DisplayLine::SectionHeader("Nav".to_string()),
            DisplayLine::Blank,
            DisplayLine::ColumnHeader,
            DisplayLine::DataRow("k".to_string(), "up".to_string()),
            DisplayLine::Blank,
        ]
    );
}

#[test]
fn project_keeps_column_header_when_no_row_passes() {
    let lines = project(&nav_sheet(), "zzz");
    assert_eq!(
        lines,
        vec![
            DisplayLine::Title("Title".to_string()),
            DisplayLine::Blank,
            DisplayLine::SectionHeader("Nav".to_string()),
            DisplayLine::Blank,
            DisplayLine::ColumnHeader,
            DisplayLine::Blank,
        ]
    );
}

#[test]
fn project_of_sheet_without_sections_is_title_only() {
    let sheet = CheatSheet { name: "n".to_string(), title: "T".to_string(), sections: vec![] };
    assert_eq!(project(&sheet, "x"), vec![DisplayLine::Title("T".to_string()), DisplayLine::Blank]);
}

#[test]
fn project_twice_gives_the_same_lines() {
    let sheet = nav_sheet();
    assert_eq!(project(&sheet, "J"), project(&sheet, "J"));
}

#[test]
fn project_runs_sections_in_document_order() {
    let sheet = CheatSheet {
        name: "n".to_string(),
        title: "T".to_string(),
        sections: vec![
            Section { header: "".to_string(), rows: vec![row("a", "one")] },
            Section { header: "B".to_string(), rows: vec![row("b", "two")] },
        ],
    };
    assert_eq!(
        project(&sheet, "o"),
        vec![
            DisplayLine::Title("T".to_string()),
            DisplayLine::Blank,
            DisplayLine::SectionHeader("".to_string()),
            DisplayLine::Blank,
            DisplayLine::ColumnHeader,
            DisplayLine::DataRow("a".to_string(), "one".to_string()),
            DisplayLine::Blank,
            DisplayLine::SectionHeader("B".to_string()),
            DisplayLine::Blank,
            DisplayLine::ColumnHeader,
            DisplayLine::DataRow("b".to_string(), "two".to_string()),
            DisplayLine::Blank,
        ]
    );
}

#[test]
fn window_clamps_offset_past_the_end() {
    let lines = numbered_lines(10);
    let (visible, offset) = window(&lines, 100, 4);
    assert_eq!(offset, 6);
    assert_eq!(visible.len(), 4);
    assert_eq!(visible, &lines[6..10]);
}

#[test]
fn window_of_height_zero_is_empty() {
    let lines = numbered_lines(10);
    assert!(window(&lines, 0, 0).0.is_empty());
    assert!(window(&lines, 5, 0).0.is_empty());
    assert!(window(&lines, 100, 0).0.is_empty());
    assert_eq!(window(&lines, 100, 0).1, 10);
}

#[test]
fn window_inside_the_lines_starts_at_the_offset() {
    let lines = numbered_lines(10);
    let (visible, offset) = window(&lines, 3, 4);
    assert_eq!(offset, 3);
    assert_eq!(visible, &lines[3..7]);
}

#[test]
fn window_taller_than_the_lines_shows_all() {
    let lines = numbered_lines(3);
    let (visible, offset) = window(&lines, 2, 8);
    assert_eq!(offset, 0);
    assert_eq!(visible, &lines[..]);
}

#[test]
fn window_of_no_lines_is_empty() {
    let lines: Vec<DisplayLine> = Vec::new();
    let (visible, offset) = window(&lines, usize::MAX, usize::MAX);
    assert_eq!(offset, 0);
    assert!(visible.is_empty());
}
