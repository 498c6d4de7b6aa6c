use wandex::bookmarks::{BMPopup, Bookmarks};
use wandex::fail::{ErrorLog, Log, WError};
use wandex::foldview::{Foldable, ListView, LogEntry};
use wandex::term::Key;

#[test]
fn error_messages() {
    assert_eq!(WError::StaleError.message(), "Accessed stale value");
    assert_eq!(WError::NoWidgetError.message(), "No widget found");
    assert_eq!(
        WError::PreviewFailed { file: "a.txt".to_string() }.message(),
        "Previewer failed on file: a.txt"
    );
    assert_eq!(WError::IoError("broken pipe".to_string()).message(), "IO error: broken pipe ");
    assert_eq!(WError::Log("plain note".to_string()).message(), "plain note");
    assert_eq!(
        WError::WrongWidgetError { got: "list".to_string(), wanted: "text".to_string() }.message(),
        "Got wrong widget: list! Wanted: text"
    );
    assert_eq!(
        WError::HBoxWrongRatioError { wnum: 3, ratio: vec![10, 20] }.message(),
        "HBox ratio mismatch: 3 widgets"
    );
}

#[test]
fn error_helpers_build_their_variants() {
    assert!(matches!(WError::quit(), Err(WError::Quit)));
    assert!(matches!(WError::no_widget::<()>(), Err(WError::NoWidgetError)));
    assert!(matches!(WError::no_files::<()>(), Err(WError::WidgetNoFilesError)));
    assert!(matches!(WError::stale::<()>(), Err(WError::StaleError)));
    assert!(matches!(WError::popup_finished::<()>(), Err(WError::PopupFinished)));
    assert!(matches!(WError::terminal_resized::<()>(), Err(WError::TerminalResizedError)));
    assert!(matches!(WError::widget_resized::<()>(), Err(WError::WidgetResizedError)));
    assert!(matches!(WError::tags_not_loaded::<()>(), Err(WError::TagsNotLoadedYetError)));
    assert!(matches!(WError::metadata_processed::<()>(), Err(WError::MetadataProcessedError)));
    assert!(matches!(
        WError::undefined_key::<()>(Key::Char('q')),
        Err(WError::WidgetUndefinedKeyError { key: Key::Char('q') })
    ));
    assert!(matches!(
        WError::wrong_ratio::<()>(2, vec![60, 40]),
        Err(WError::HBoxWrongRatioError { wnum: 2, .. })
    ));
    assert!(matches!(
        WError::wrong_widget::<()>("list", "text"),
        Err(WError::WrongWidgetError { .. })
    ));
    assert!(matches!(
        WError::wrong_directory::<()>("/a/b".to_string(), "/c".to_string()),
        Err(WError::WrongDirectoryError { .. })
    ));
    assert!(matches!(
        WError::config_error::<()>("bad=line".to_string()),
        Err(WError::ConfigLineError(_))
    ));
    assert!(matches!(
        WError::input_updated::<()>("typed".to_string()),
        Err(WError::MiniBufferInputUpdated(_))
    ));
}

#[test]
fn log_entry_from_error() {
    let err = WError::Log("hello".to_string());
    let e = LogEntry::from_error(&err, "2024-01-02 03:04");
    assert_eq!(e.description(), "\u{1b}[32m2024-01-02 03:04\u{1b}[39m: hello");
    assert_eq!(
        e.content().map(|c| c.as_str()),
        Some("\u{1b}[32m2024-01-02 03:04\u{1b}[39m: hello\n")
    );
    assert!(e.is_folded());
    assert_eq!(e.lines(), 1);

    let failure = WError::NoneError;
    let f = LogEntry::from_error(&failure, "2024-01-02 03:04");
    assert_eq!(f.description(), "\u{1b}[32m2024-01-02 03:04\u{1b}[31m: Was None!");
}

#[test]
fn multi_line_entries_fold_to_one_line() {
    let err = WError::Log("first\nsecond\nthird".to_string());
    let mut e = LogEntry::from_error(&err, "2024-01-02 03:04");
    assert_eq!(e.description(), "\u{1b}[32m2024-01-02 03:04\u{1b}[39m: first");
    assert_eq!(e.lines(), 1, "folded entries take one line");
    e.toggle_fold();
    assert_eq!(e.lines(), 3);
}

#[test]
fn the_log_filters_stale_results() {
    let mut log = Log::new();
    let stale: Result<(), WError> = Err(WError::StaleError);
    stale.log(&mut log);
    let superseded: Result<(), WError> = Err(WError::StalePreviewError { file: "x".to_string() });
    superseded.log(&mut log);
    assert!(log.get_logs().is_empty());

    let real: Result<(), WError> = Err(WError::NoneError);
    real.log(&mut log);
    let fine: Result<(), WError> = Ok(());
    fine.log(&mut log);
    let entries = log.get_logs();
    assert_eq!(entries.len(), 1);
    assert!(entries[0].description().contains("Was None!"));
    assert!(log.get_logs().is_empty(), "draining empties the log");
}

#[test]
fn log_and_hands_the_result_back() {
    let mut log = Log::new();
    let r: Result<u32, WError> = Err(WError::NoneError);
    let r2 = r.log_and(&mut log);
    assert!(r2.is_err());
    assert_eq!(log.get_logs().len(), 1);
}

#[test]
fn fold_positions_follow_the_entries() {
    let long = WError::Log("a\nb\nc".to_string());
    let short = WError::Log("only".to_string());
    let mut first = LogEntry::from_error(&long, "2024-01-02 03:04");
    first.toggle_fold();
    let second = LogEntry::from_error(&short, "2024-01-02 03:05");
    let mut lv = ListView::new(vec![first, second]);

    assert_eq!(lv.fold_start_pos(0), 0);
    assert_eq!(lv.fold_start_pos(1), 3);
    assert_eq!(lv.fold_start_pos(2), 4);

    assert_eq!(lv.current_fold(), Some(0));
    lv.set_selection(2);
    assert_eq!(lv.current_fold(), Some(0));
    lv.set_selection(3);
    assert_eq!(lv.current_fold(), Some(1));
    lv.set_selection(4);
    assert_eq!(lv.current_fold(), None);

    // Folding the unfolded first entry snaps the selection to its line.
    lv.set_selection(1);
    lv.toggle_fold().expect("a fold under the selection");
    assert!(lv.content[0].is_folded());
    assert_eq!(lv.get_selection(), 0);
    assert_eq!(lv.fold_start_pos(1), 1);
}

#[test]
fn bookmarks_add_get_remove() {
    let mut b = Bookmarks::new();
    assert!(matches!(b.get('h'), Err(WError::BookmarkNotFound)));
    b.add('h', "/home/user").unwrap();
    b.add('t', "/tmp").unwrap();
    assert_eq!(b.get('h').unwrap(), "/home/user");
    b.add('h', "/home/other").unwrap();
    assert_eq!(b.get('h').unwrap(), "/home/other");
    b.remove('h');
    assert!(matches!(b.get('h'), Err(WError::BookmarkNotFound)));
    assert_eq!(b.get('t').unwrap(), "/tmp");
}

#[test]
fn bookmarks_file_round_trip() {
    let mut b = Bookmarks::new();
    let lines = vec![
        "h:/home/user".to_string(),
        "nonsense".to_string(),
        ":/starts/with/colon".to_string(),
        "t:/tmp".to_string(),
        "h:/home/replaced".to_string(),
    ];
    b.load_from_lines(&lines);
    assert_eq!(b.get('h').unwrap(), "/home/replaced");
    assert_eq!(b.get('t').unwrap(), "/tmp");
    let saved = b.save_to_lines();
    assert_eq!(saved, vec!["h:/home/replaced".to_string(), "t:/tmp".to_string()]);
}

#[test]
fn popup_picks_a_bookmark() {
    let mut p = BMPopup::new(80);
    p.load_bookmarks(&vec!["h:/home/user".to_string()]);
    p.begin_pick("/current".to_string());
    match p.on_key(Key::Char('h')) {
        Err(WError::PopupFinished) => {}
        other => panic!("unexpected: {:?}", other),
    }
    assert_eq!(p.take_result().unwrap(), "/home/user");
}

#[test]
fn popup_records_a_bookmark_in_add_mode() {
    let mut p = BMPopup::new(80);
    p.begin_add("/projects");
    match p.on_key(Key::Char('p')) {
        Err(WError::PopupFinished) => {}
        other => panic!("unexpected: {:?}", other),
    }
    let saved = p.save_bookmarks();
    assert_eq!(saved, vec!["p:/projects".to_string()]);
}

#[test]
fn popup_escape_abandons() {
    let mut p = BMPopup::new(80);
    p.begin_pick("/current".to_string());
    match p.on_key(Key::Esc) {
        Err(WError::PopupFinished) => {}
        other => panic!("unexpected: {:?}", other),
    }
    assert!(matches!(p.take_result(), Err(WError::BookmarkNotFound)));
}

#[test]
fn popup_removes_on_alt() {
    let mut p = BMPopup::new(80);
    p.load_bookmarks(&vec!["h:/home/user".to_string()]);
    match p.on_key(Key::Alt('h')) {
        Err(WError::WidgetResizedError) => {}
        other => panic!("unexpected: {:?}", other),
    }
    assert!(p.save_bookmarks().is_empty());
}

#[test]
fn popup_ignores_unknown_keys() {
    let mut p = BMPopup::new(80);
    p.begin_pick("/current".to_string());
    assert!(p.on_key(Key::Char('z')).is_ok());
    assert!(p.on_key(Key::Other).is_ok());
}

#[test]
fn popup_renders_a_padded_line() {
    let p = BMPopup::new(10);
    let line = p.render_line(5, &'z', "/tmp");
    assert_eq!(line, "\u{1b}[5;1H\u{1b}[mz: /tmp  ");
}

#[test]
fn configured_paths_end_where_expected() {
    if let Ok(p) = wandex::paths::config_path() {
        assert!(p.ends_with("/wandex/config"));
        assert!(!p.contains(".configwandex"));
    }
    if let Ok(p) = wandex::paths::previewers_path() {
        assert!(p.ends_with("wandex/previewers"));
    }
    if let Ok(p) = wandex::paths::bookmark_path() {
        assert!(p.ends_with("wandex/bookmarks"));
    }
}

#[test]
fn now_stamp_has_the_expected_shape() {
    let s = wandex::fail::now_stamp();
    let bytes: Vec<char> = s.chars().collect();
    assert_eq!(bytes.len(), 16);
    assert_eq!(bytes[4], '-');
    assert_eq!(bytes[7], '-');
    assert_eq!(bytes[10], ' ');
    assert_eq!(bytes[13], ':');
}

#[test]
fn popup_drawlist_stacks_the_rows() {
    let mut p = BMPopup::new(10);
    p.load_bookmarks(&vec!["h:/a".to_string()]);
    p.begin_pick("/c".to_string());
    let d = p.get_drawlist(5).unwrap();
    assert_eq!(d, "\u{1b}[5;1H\u{1b}[m`: /c    \u{1b}[6;1H\u{1b}[mh: /a    ");
}

#[test]
fn popup_drawlist_needs_a_path_in_pick_mode() {
    let p = BMPopup::new(10);
    assert!(matches!(p.get_drawlist(5), Err(WError::BookmarkPathNotFound)));
}

#[test]
fn log_header_counts_entries() {
    let e1 = LogEntry::from_error(&WError::NoneError, "2024-01-02 03:04");
    let e2 = LogEntry::from_error(&WError::Quit, "2024-01-02 03:05");
    let lv = ListView::new(vec![e1, e2]);
    let h = lv.render_header(30);
    assert_eq!(h, "Logged entries: 2\u{1b}[1;26H1 / 2");
}

#[test]
fn log_footer_points_at_the_selected_line() {
    let err = WError::Log("a\nb\nc".to_string());
    let mut e = LogEntry::from_error(&err, "2024-01-02 03:04");
    e.toggle_fold();
    let desc = e.description().to_string();
    let mut lv = ListView::new(vec![e]);
    lv.set_selection(1);
    let f = lv.render_footer(30, 5, 2).expect("a fold under the selection");
    let sized: String = desc.chars().take(23).collect();
    let expected = format!("{}\u{1b}[m\u{1b}[44m\u{1b}[9;26H2 / 3", sized);
    assert_eq!(f, expected);
}

#[test]
fn log_footer_fails_past_the_end() {
    let e = LogEntry::from_error(&WError::Quit, "2024-01-02 03:05");
    let mut lv = ListView::new(vec![e]);
    lv.set_selection(9);
    assert!(matches!(lv.render_footer(30, 5, 2), Err(WError::NoneError)));
}
