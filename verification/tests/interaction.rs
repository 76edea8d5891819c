use clearsheet::app::{available_names, find_sheet, App, AppMode, StartError};
use clearsheet::display::DisplayLine;
use clearsheet::input::{Key, KeyInput, LoopAction};
use clearsheet::screen::{SpanRole, StatusSpan};
use clearsheet::sheet::{CheatSheet, Section, ShortcutRow};

fn sheet(name: &str) -> CheatSheet {
    CheatSheet {
        name: name.to_string(),
        title: format!("{} title", name),
        sections: vec![Section {
            header: "Nav".to_string(),
            rows: vec![
                ShortcutRow { shortcut: "j".to_string(), description: "down".to_string() },
                ShortcutRow { shortcut: "k".to_string(), description: "up".to_string() },
            ],
        }],
    }
}

fn sheets(names: &[&str]) -> Vec<CheatSheet> {
    names.iter().map(|n| sheet(n)).collect()
}

fn press(app: &mut App, key: Key) -> LoopAction {
    app.handle_key(KeyInput { key, pressed: true })
}

fn span(text: &str, role: SpanRole) -> StatusSpan {
    StatusSpan { text: text.to_string(), role }
}

#[test]
fn new_without_name_browses_first_sheet() {
    let app = App::new(sheets(&["Git", "Vim"]), None);
    assert_eq!(app.mode, AppMode::Browser);
    assert_eq!(app.selected_sheet, 0);
    assert_eq!(app.scroll_offset, 0);
    assert_eq!(app.filter_query, "");
    assert!(!app.filtering);
    assert!(!app.should_quit);
    assert_eq!(app.sheets.len(), 2);
}

#[test]
fn new_with_name_views_first_match_ignoring_case() {
    let app = App::new(sheets(&["Git", "Vim", "vim"]), Some("VIM".to_string()));
    assert_eq!(app.mode, AppMode::Viewer);
    assert_eq!(app.selected_sheet, 1);
}

#[test]
fn new_with_unknown_name_views_first_sheet() {
    let app = App::new(sheets(&["Git", "Vim"]), Some("Emacs".to_string()));
    assert_eq!(app.mode, AppMode::Viewer);
    assert_eq!(app.selected_sheet, 0);
}

#[test]
fn startup_by_name_is_case_insensitive() {
    let app = App::start(sheets(&["Git", "Vim"]), Some("VIM".to_string())).unwrap();
    assert_eq!(app.mode, AppMode::Viewer);
    assert_eq!(app.selected_sheet, 1);
}

#[test]
fn startup_by_unknown_name_lists_available() {
    let err = App::start(sheets(&["Git", "Vim"]), Some("Emacs".to_string())).err().unwrap();
    assert_eq!(
        err,
        StartError::NotFound { requested: "Emacs".to_string(), available: "Git, Vim".to_string() }
    );
    assert_eq!(err.message(), "Cheatsheet 'Emacs' not found.\nAvailable: Git, Vim");
}

#[test]
fn startup_without_sheets_fails() {
    let err = App::start(Vec::new(), None).err().unwrap();
    assert_eq!(err, StartError::NoSheets);
    assert_eq!(err.message(), "No cheatsheets found in ~/.config/clearsheet/");
    assert_eq!(App::start(Vec::new(), Some("x".to_string())).err().unwrap(), StartError::NoSheets);
}

#[test]
fn startup_without_name_browses() {
    let app = App::start(sheets(&["Git"]), None).unwrap();
    assert_eq!(app.mode, AppMode::Browser);
    assert_eq!(app.selected_sheet, 0);
}

#[test]
fn name_match_folds_ascii_letters_only() {
    let all = sheets(&["Ärger", "git"]);
    assert_eq!(find_sheet(&all, "ärger"), None);
    assert_eq!(find_sheet(&all, "ÄRGER"), Some(0));
    assert_eq!(find_sheet(&all, "GIT"), Some(1));
    assert_eq!(find_sheet(&all, "gi"), None);
}

#[test]
fn available_names_joins_with_comma_and_space() {
    assert_eq!(available_names(&sheets(&[])), "");
    assert_eq!(available_names(&sheets(&["Git"])), "Git");
    assert_eq!(available_names(&sheets(&["Git", "Vim", "tmux"])), "Git, Vim, tmux");
}

#[test]
fn current_sheet_follows_selection() {
    let mut app = App::new(sheets(&["Git", "Vim"]), None);
    assert_eq!(app.current_sheet().unwrap().name, "Git");
    app.selected_sheet = 1;
    assert_eq!(app.current_sheet().unwrap().name, "Vim");
    app.selected_sheet = 2;
    assert!(app.current_sheet().is_none());
    assert!(App::new(Vec::new(), None).current_sheet().is_none());
}

#[test]
fn down_clamps_at_last_sheet() {
    let mut app = App::new(sheets(&["a", "b", "c"]), None);
    app.selected_sheet = 2;
    for _ in 0..5 {
        press(&mut app, Key::Down);
        assert_eq!(app.selected_sheet, 2);
        press(&mut app, Key::Char('j'));
        assert_eq!(app.selected_sheet, 2);
    }
}

#[test]
fn up_clamps_at_first_sheet() {
    let mut app = App::new(sheets(&["a", "b", "c"]), None);
    for _ in 0..5 {
        press(&mut app, Key::Up);
        assert_eq!(app.selected_sheet, 0);
        press(&mut app, Key::Char('k'));
        assert_eq!(app.selected_sheet, 0);
    }
}

#[test]
fn browsing_moves_selection_and_resets_scroll() {
    let mut app = App::new(sheets(&["a", "b", "c"]), None);
    app.scroll_offset = 7;
    assert_eq!(press(&mut app, Key::Down), LoopAction::Continue);
    assert_eq!((app.selected_sheet, app.scroll_offset), (1, 0));
    press(&mut app, Key::Char('j'));
    assert_eq!(app.selected_sheet, 2);
    app.scroll_offset = 3;
    press(&mut app, Key::Down);
    assert_eq!((app.selected_sheet, app.scroll_offset), (2, 3));
    press(&mut app, Key::Up);
    assert_eq!((app.selected_sheet, app.scroll_offset), (1, 0));
    press(&mut app, Key::Char('k'));
    app.scroll_offset = 9;
    press(&mut app, Key::Up);
    assert_eq!((app.selected_sheet, app.scroll_offset), (0, 0));
}

#[test]
fn enter_opens_the_viewer() {
    let mut app = App::new(sheets(&["a", "b"]), None);
    app.scroll_offset = 4;
    press(&mut app, Key::Down);
    app.scroll_offset = 4;
    press(&mut app, Key::Enter);
    assert_eq!(app.mode, AppMode::Viewer);
    assert_eq!((app.selected_sheet, app.scroll_offset), (1, 0));
    app.scroll_offset = 2;
    press(&mut app, Key::Enter);
    assert_eq!(app.mode, AppMode::Viewer);
    assert_eq!(app.scroll_offset, 2);
}

#[test]
fn viewer_scrolls_and_saturates() {
    let mut app = App::new(sheets(&["a", "b"]), Some("b".to_string()));
    press(&mut app, Key::Up);
    assert_eq!(app.scroll_offset, 0);
    press(&mut app, Key::Down);
    press(&mut app, Key::Char('j'));
    assert_eq!(app.scroll_offset, 2);
    press(&mut app, Key::Char('k'));
    assert_eq!(app.scroll_offset, 1);
    assert_eq!(app.selected_sheet, 1);
    app.scroll_offset = usize::MAX;
    press(&mut app, Key::Down);
    assert_eq!(app.scroll_offset, usize::MAX);
}

#[test]
fn quit_keys_quit_in_both_modes() {
    for key in [Key::Char('q'), Key::Esc] {
        let mut app = App::new(sheets(&["a"]), None);
        assert_eq!(press(&mut app, key), LoopAction::Quit);
        assert!(app.should_quit);
        let mut app = App::new(sheets(&["a"]), Some("a".to_string()));
        assert_eq!(press(&mut app, key), LoopAction::Quit);
        assert!(app.should_quit);
        assert_eq!(app.mode, AppMode::Viewer);
    }
}

#[test]
fn quit_is_never_taken_back() {
    let mut app = App::new(sheets(&["a", "b"]), None);
    press(&mut app, Key::Char('q'));
    for key in [Key::Down, Key::Enter, Key::Char('/'), Key::Char('x'), Key::Esc, Key::Other] {
        assert_eq!(press(&mut app, key), LoopAction::Quit);
        assert!(app.should_quit);
    }
}

#[test]
fn filter_cancel_clears_text() {
    let mut app = App::new(sheets(&["a"]), None);
    press(&mut app, Key::Char('/'));
    assert!(app.filtering);
    for c in "save q".chars() {
        press(&mut app, Key::Char(c));
    }
    assert_eq!(app.filter_query, "save q");
    assert_eq!(press(&mut app, Key::Esc), LoopAction::Continue);
    assert!(!app.filtering);
    assert_eq!(app.filter_query, "");
    assert!(!app.should_quit);
}

#[test]
fn filter_start_clears_previous_text() {
    let mut app = App::new(sheets(&["a"]), Some("a".to_string()));
    app.filter_query = "old".to_string();
    press(&mut app, Key::Char('/'));
    assert!(app.filtering);
    assert_eq!(app.filter_query, "");
}

#[test]
fn filter_entry_takes_every_key() {
    let mut app = App::new(sheets(&["a", "b", "c"]), None);
    press(&mut app, Key::Char('/'));
    for key in [Key::Char('j'), Key::Char('q'), Key::Char('/'), Key::Down, Key::Up, Key::Enter, Key::Other] {
        assert_eq!(press(&mut app, key), LoopAction::Continue);
    }
    assert_eq!(app.filter_query, "jq/");
    assert_eq!(app.selected_sheet, 0);
    assert_eq!(app.mode, AppMode::Browser);
    assert!(app.filtering);
}

#[test]
fn backspace_erases_last_character() {
    let mut app = App::new(sheets(&["a"]), None);
    press(&mut app, Key::Char('/'));
    press(&mut app, Key::Backspace);
    assert_eq!(app.filter_query, "");
    press(&mut app, Key::Char('a'));
    press(&mut app, Key::Char('é'));
    press(&mut app, Key::Char('b'));
    press(&mut app, Key::Backspace);
    assert_eq!(app.filter_query, "aé");
    press(&mut app, Key::Backspace);
    assert_eq!(app.filter_query, "a");
    press(&mut app, Key::Backspace);
    press(&mut app, Key::Backspace);
    assert_eq!(app.filter_query, "");
    assert!(app.filtering);
}

#[test]
fn backspace_outside_filter_entry_does_nothing() {
    let mut app = App::new(sheets(&["a", "b"]), None);
    press(&mut app, Key::Backspace);
    press(&mut app, Key::Other);
    press(&mut app, Key::Char('x'));
    assert_eq!(app.mode, AppMode::Browser);
    assert_eq!(app.selected_sheet, 0);
    assert!(!app.filtering);
    assert!(!app.should_quit);
}

#[test]
fn events_that_are_no_press_are_ignored() {
    let mut app = App::new(sheets(&["a", "b"]), None);
    for key in [Key::Char('q'), Key::Down, Key::Enter, Key::Char('/')] {
        assert_eq!(app.handle_key(KeyInput { key, pressed: false }), LoopAction::Continue);
    }
    assert_eq!(app.mode, AppMode::Browser);
    assert_eq!(app.selected_sheet, 0);
    assert!(!app.filtering);
    assert!(!app.should_quit);
}

#[test]
fn down_without_sheets_does_nothing() {
    let mut app = App::new(Vec::new(), None);
    press(&mut app, Key::Down);
    press(&mut app, Key::Up);
    assert_eq!(app.selected_sheet, 0);
}

#[test]
fn document_names_lists_all_in_order() {
    let app = App::new(sheets(&["Git", "Vim"]), None);
    assert_eq!(app.document_names(), vec!["Git".to_string(), "Vim".to_string()]);
}

#[test]
fn visible_lines_window_the_filtered_projection() {
    let mut app = App::new(sheets(&["a", "b"]), Some("b".to_string()));
    let all = app.visible_lines(50).unwrap();
    assert_eq!(all.len(), 8);
    assert_eq!(all[0], DisplayLine::Title("b title".to_string()));
    app.scroll_offset = 100;
    assert_eq!(
        app.visible_lines(3).unwrap(),
        vec![
            DisplayLine::DataRow("j".to_string(), "down".to_string()),
            DisplayLine::DataRow("k".to_string(), "up".to_string()),
            DisplayLine::Blank,
        ]
    );
    assert_eq!(app.scroll_offset, 100);
    app.filter_query = "UP".to_string();
    assert_eq!(
        app.visible_lines(2).unwrap(),
        vec![DisplayLine::DataRow("k".to_string(), "up".to_string()), DisplayLine::Blank]
    );
    assert!(app.visible_lines(0).unwrap().is_empty());
}

#[test]
fn visible_lines_without_selection_is_none() {
    assert!(App::new(Vec::new(), None).visible_lines(10).is_none());
}

#[test]
fn status_shows_hint_of_the_mode() {
    let mut app = App::new(sheets(&["a"]), None);
    assert_eq!(
        app.status_spans(),
        vec![span(" j/k: navigate  Enter: open  /: filter  q: quit", SpanRole::Hint)]
    );
    press(&mut app, Key::Enter);
    assert_eq!(app.status_spans(), vec![span(" j/k: scroll  /: filter  q: quit", SpanRole::Hint)]);
}

#[test]
fn status_shows_filter_while_typing() {
    let mut app = App::new(sheets(&["a"]), None);
    press(&mut app, Key::Char('/'));
    press(&mut app, Key::Char('u'));
    press(&mut app, Key::Char('p'));
    assert_eq!(
        app.status_spans(),
        vec![
            span(" /", SpanRole::Marker),
            span("up", SpanRole::Plain),
            span("_", SpanRole::Marker),
            span("  ", SpanRole::Plain),
            span("[Esc] cancel", SpanRole::Hint),
        ]
    );
}
