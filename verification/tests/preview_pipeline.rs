use wandex::fail::WError;
use wandex::files::{File, FileKind, Mime};
use wandex::preview::{
    blank_text, decide_preview, fallback_to_blank, find_previewer, graphics_mode_allowed, needs_loading_ticker,
    ExtPreviewer, MediaKind, PreviewDecision, PreviewTarget, Previewer, SetFileOutcome, Ticker,
};
use wandex::process::ProcRegistry;
use wandex::strutil::decode_output;

fn file(path: &str, name: &str, parent: &str, ext: Option<&str>, kind: FileKind) -> File {
    File {
        path: path.to_string(),
        name: name.to_string(),
        parent: parent.to_string(),
        ext: ext.map(|e| e.to_string()),
        kind,
    }
}

fn mime(top: &str, sub: &str) -> Option<Mime> {
    Some(Mime { top: top.to_string(), sub: sub.to_string() })
}

fn spawn_token(o: SetFileOutcome) -> wandex::token::Generation {
    match o {
        SetFileOutcome::Spawn { token, .. } => token,
        SetFileOutcome::Unchanged => panic!("expected a spawn"),
    }
}

#[test]
fn last_set_file_wins_when_old_result_arrives_late() {
    let mut reg = ProcRegistry::new();
    let mut p = Previewer::new();
    let a = file("/d/a.txt", "a.txt", "/d", Some("txt"), FileKind::Regular);
    let b = file("/d/b.txt", "b.txt", "/d", Some("txt"), FileKind::Regular);

    let tok_a = spawn_token(p.set_file(&mut reg, &a));
    let tok_b = spawn_token(p.set_file(&mut reg, &b));

    // Nothing has been delivered yet: the container reports not-ready.
    match p.widget() {
        Err(WError::NotReady) => {}
        other => panic!("unexpected: {:?}", other),
    }

    // The producer of generation A finishes only now: its result must be
    // discarded and no readiness reported.
    let stale_result = Ok(PreviewTarget::TextDocument {
        lines: vec!["old".to_string()],
        partial: false,
    });
    assert!(!p.deliver(&tok_a, stale_result));
    assert!(!p.ready());

    // Generation B's result lands and becomes visible.
    let fresh_result = Ok(PreviewTarget::TextDocument {
        lines: vec!["new".to_string()],
        partial: false,
    });
    assert!(p.deliver(&tok_b, fresh_result));
    match p.widget() {
        Ok(PreviewTarget::TextDocument { lines, .. }) => assert_eq!(lines, &vec![
            "new".to_string()
        ]),
        other => panic!("unexpected preview: {:?}", other),
    }

    // A second late delivery under the old ticket changes nothing either.
    let late = Ok(PreviewTarget::TextDocument { lines: vec!["older".to_string()], partial: false });
    assert!(!p.deliver(&tok_a, late));
    match p.widget() {
        Ok(PreviewTarget::TextDocument { lines, .. }) => assert_eq!(lines, &vec![
            "new".to_string()
        ]),
        other => panic!("unexpected preview: {:?}", other),
    }
}

#[test]
fn change_to_invalidates_exactly_the_previous_token() {
    let mut w = wandex::asyncwidget::AsyncWidget::<u32>::new();
    let old_token = w.get_stale();
    assert!(!w.token_is_stale(&old_token));
    let new_token = w.change_to();
    assert!(w.token_is_stale(&old_token));
    assert!(!w.token_is_stale(&new_token));
    assert!(!w.is_stale());
}

#[test]
fn set_stale_marks_the_current_generation() {
    let mut w = wandex::asyncwidget::AsyncWidget::<u32>::new();
    let t = w.get_stale();
    w.set_stale();
    assert!(w.is_stale());
    assert!(w.token_is_stale(&t));
}

#[test]
fn kill_proc_signals_at_most_once() {
    let mut reg = ProcRegistry::new();
    reg.record(4242);
    let first = reg.kill_proc();
    let second = reg.kill_proc();
    assert_eq!(first.map(|k| k.pgid), Some(4242));
    assert!(second.is_none());
    assert!(reg.current().is_none());
}

#[test]
fn set_file_orders_the_previous_previewer_killed() {
    let mut reg = ProcRegistry::new();
    let mut p = Previewer::new();
    let a = file("/d/a.pdf", "a.pdf", "/d", Some("pdf"), FileKind::Regular);
    let b = file("/e/b.pdf", "b.pdf", "/e", Some("pdf"), FileKind::Regular);

    match p.set_file(&mut reg, &a) {
        SetFileOutcome::Spawn { kill, same_dir, .. } => {
            assert!(kill.is_none());
            assert!(same_dir, "the first selection counts as a same-directory move");
        }
        SetFileOutcome::Unchanged => panic!("expected a spawn"),
    }
    reg.record(777);
    match p.set_file(&mut reg, &b) {
        SetFileOutcome::Spawn { kill, same_dir, .. } => {
            assert_eq!(kill.map(|k| k.pgid), Some(777));
            assert!(!same_dir);
        }
        SetFileOutcome::Unchanged => panic!("expected a spawn"),
    }
    assert!(reg.current().is_none());
}

#[test]
fn reselecting_the_same_file_is_a_no_op() {
    let mut reg = ProcRegistry::new();
    let mut p = Previewer::new();
    let a = file("/d/a.txt", "a.txt", "/d", Some("txt"), FileKind::Regular);
    let _ = spawn_token(p.set_file(&mut reg, &a));
    match p.set_file(&mut reg, &a) {
        SetFileOutcome::Unchanged => {}
        SetFileOutcome::Spawn { .. } => panic!("re-selection must not respawn"),
    }
}

#[test]
fn resolution_is_deterministic() {
    let entries = vec!["pdf.g".to_string(), "pdf".to_string(), "md".to_string()];
    let f = file("/d/x.pdf", "x.pdf", "/d", Some("pdf"), FileKind::Regular);
    for _ in 0..3 {
        match find_previewer(&f, &entries, true, false) {
            Ok(ExtPreviewer::Graphics(p)) => assert_eq!(p, "pdf.g"),
            other => panic!("unexpected resolution: {:?}", other),
        }
        match find_previewer(&f, &entries, false, false) {
            Ok(ExtPreviewer::Text(p)) => assert_eq!(p, "pdf"),
            other => panic!("unexpected resolution: {:?}", other),
        }
    }
}

#[test]
fn resolution_falls_back_to_the_text_definition() {
    let entries = vec!["pdf".to_string()];
    let f = file("/d/x.rs", "x.rs", "/d", Some("rs"), FileKind::Regular);
    match find_previewer(&f, &entries, false, true) {
        Ok(ExtPreviewer::Text(p)) => assert_eq!(p, "definitions/text"),
        other => panic!("unexpected resolution: {:?}", other),
    }
    match find_previewer(&f, &entries, false, false) {
        Err(WError::NoPreviewerFound) => {}
        other => panic!("unexpected resolution: {:?}", other),
    }
}

#[test]
fn directory_listing_round_trip() {
    let mut p = Previewer::new();
    let dir = file("/d", "d", "/", None, FileKind::Directory);
    p.put_preview_files(&dir, vec!["a.txt".to_string(), "b.png".to_string()]);
    let files = p.take_files().expect("a listing should be there");
    assert_eq!(files, vec!["a.txt".to_string(), "b.png".to_string()]);
    match p.widget() {
        Ok(PreviewTarget::DirectoryListing(rest)) => assert!(rest.is_empty()),
        other => panic!("the listing slot should be empty: {:?}", other),
    }
}

#[test]
fn take_files_fails_without_a_listing() {
    let mut p = Previewer::new();
    match p.take_files() {
        Err(WError::WidgetNoFilesError) => {}
        other => panic!("unexpected: {:?}", other),
    }
}

#[test]
fn text_preview_is_bounded_then_reloads_in_full() {
    let mut reg = ProcRegistry::new();
    let mut p = Previewer::new();
    let f = file("/d/notes.txt", "notes.txt", "/d", Some("txt"), FileKind::Regular);

    let d = decide_preview(&f, &mime("text", "plain"), false);
    assert_eq!(d, PreviewDecision::Text);

    let tok = spawn_token(p.set_file(&mut reg, &f));
    let all: Vec<String> = (1..=5).map(|i| format!("line {}", i)).collect();
    let built = Previewer::preview_text(&f, all.clone(), 3, &p, &tok).expect("fresh build");
    match &built {
        PreviewTarget::TextDocument { lines, partial } => {
            assert_eq!(lines.len(), 3);
            assert_eq!(lines[2], "line 3");
            assert!(*partial);
        }
        other => panic!("unexpected: {:?}", other),
    }
    assert!(p.deliver(&tok, Ok(built)));

    p.reload_text(all.clone());
    match p.widget() {
        Ok(PreviewTarget::TextDocument { lines, partial }) => {
            assert_eq!(lines, &all);
            assert!(!*partial);
        }
        other => panic!("unexpected: {:?}", other),
    }
}

#[test]
fn unmatched_file_degrades_to_blank_without_a_subprocess() {
    let mut reg = ProcRegistry::new();
    let mut p = Previewer::new();
    let f = file("/d/x.zzz", "x.zzz", "/d", Some("zzz"), FileKind::Regular);

    let d = decide_preview(&f, &mime("application", "octet-stream"), true);
    assert_eq!(d, PreviewDecision::External);

    let tok = spawn_token(p.set_file(&mut reg, &f));
    let entries = vec!["pdf".to_string()];
    match find_previewer(&f, &entries, true, false) {
        Err(WError::NoPreviewerFound) => {}
        other => panic!("unexpected: {:?}", other),
    }
    // Resolution failed: the producer falls back to the blank text view
    // and never spawns anything.
    assert!(p.deliver(&tok, Ok(blank_text())));
    match p.widget() {
        Ok(PreviewTarget::TextDocument { lines, partial }) => {
            assert!(lines.is_empty());
            assert!(!*partial);
        }
        other => panic!("unexpected: {:?}", other),
    }
    assert!(reg.current().is_none(), "no subprocess may be recorded");
}

#[test]
fn image_preview_ticks_while_loading_and_stops_when_ready() {
    let mut reg = ProcRegistry::new();
    let mut p = Previewer::new();
    let f = file("/d/cat.jpg", "cat.jpg", "/d", Some("jpg"), FileKind::Regular);

    let d = decide_preview(&f, &mime("image", "jpeg"), true);
    assert_eq!(d, PreviewDecision::Image);
    assert!(needs_loading_ticker(&d));

    let tok = spawn_token(p.set_file(&mut reg, &f));
    let mut ticker = Ticker::start_ticking();
    assert!(ticker.is_ticking());
    // ... the slow decode happens here, off-thread ...
    let built = PreviewTarget::StillImage { path: "/d/cat.jpg".to_string() };
    assert!(p.deliver(&tok, Ok(built)));
    ticker.stop_ticking();
    assert!(!ticker.is_ticking());
    assert!(p.ready());
}

#[test]
fn mime_dispatch_table() {
    let f = file("/d/x", "x", "/d", Some("x"), FileKind::Regular);
    let dir = file("/d", "d", "/", None, FileKind::Directory);
    assert_eq!(decide_preview(&dir, &None, false), PreviewDecision::Directory);
    assert_eq!(decide_preview(&f, &None, true), PreviewDecision::Blank);
    assert_eq!(
        decide_preview(&f, &mime("video", "mp4"), false),
        PreviewDecision::Media(MediaKind::Video)
    );
    assert_eq!(
        decide_preview(&f, &mime("image", "gif"), true),
        PreviewDecision::Media(MediaKind::Video)
    );
    assert_eq!(decide_preview(&f, &mime("image", "gif"), false), PreviewDecision::External);
    assert_eq!(decide_preview(&f, &mime("image", "png"), true), PreviewDecision::Image);
    assert_eq!(decide_preview(&f, &mime("image", "png"), false), PreviewDecision::External);
    assert_eq!(
        decide_preview(&f, &mime("audio", "flac"), true),
        PreviewDecision::Media(MediaKind::Audio)
    );
    assert_eq!(decide_preview(&f, &mime("audio", "flac"), false), PreviewDecision::External);
    assert_eq!(decide_preview(&f, &mime("text", "plain"), false), PreviewDecision::Text);
    assert_eq!(decide_preview(&f, &mime("text", "html"), false), PreviewDecision::External);
}

#[test]
fn graphics_mode_follows_the_configured_protocol() {
    assert!(!graphics_mode_allowed("unicode"));
    assert!(graphics_mode_allowed("sixel"));
}

#[test]
fn external_run_decodes_lines() {
    let mut reg = ProcRegistry::new();
    let mut p = Previewer::new();
    let f = file("/d/x.pdf", "x.pdf", "/d", Some("pdf"), FileKind::Regular);
    let tok = spawn_token(p.set_file(&mut reg, &f));

    Previewer::run_external_spawned(&mut reg, &f, &p, &tok, 555).expect("fresh spawn");
    assert_eq!(reg.current(), Some(555));

    let output = b"first line\nsecond\r\nlast".to_vec();
    let lines = Previewer::run_external_finished(&mut reg, &f, &p, &tok, &output)
        .expect("fresh completion");
    assert_eq!(lines, vec!["first line".to_string(), "second".to_string(), "last".to_string()]);
    assert!(reg.current().is_none());
}

#[test]
fn external_run_rejects_bad_utf8() {
    let mut reg = ProcRegistry::new();
    let mut p = Previewer::new();
    let f = file("/d/x.pdf", "x.pdf", "/d", Some("pdf"), FileKind::Regular);
    let tok = spawn_token(p.set_file(&mut reg, &f));
    let output = vec![0x66u8, 0xff, 0xfe];
    match Previewer::run_external_finished(&mut reg, &f, &p, &tok, &output) {
        Err(WError::SubprocessOutputNotUtf8) => {}
        other => panic!("unexpected: {:?}", other),
    }
}

#[test]
fn superseded_external_run_is_abandoned() {
    let mut reg = ProcRegistry::new();
    let mut p = Previewer::new();
    let a = file("/d/a.pdf", "a.pdf", "/d", Some("pdf"), FileKind::Regular);
    let b = file("/d/b.pdf", "b.pdf", "/d", Some("pdf"), FileKind::Regular);

    let tok_a = spawn_token(p.set_file(&mut reg, &a));
    Previewer::run_external_spawned(&mut reg, &a, &p, &tok_a, 900).expect("fresh spawn");
    let _tok_b = spawn_token(p.set_file(&mut reg, &b));
    // Selecting b killed the recorded group; a's completion now reports
    // itself stale.
    match Previewer::run_external_finished(&mut reg, &a, &p, &tok_a, &b"x".to_vec()) {
        Err(WError::PreviewFailed { file }) => assert_eq!(file, "a.pdf"),
        other => panic!("unexpected: {:?}", other),
    }
}

#[test]
fn finish_external_shapes_both_protocols() {
    let lines = vec!["one".to_string(), "two".to_string()];
    match Previewer::finish_external(&ExtPreviewer::Text("pdf".to_string()), lines.clone()) {
        Ok(PreviewTarget::ExternalRendered { lines: l }) => assert_eq!(l, lines),
        other => panic!("unexpected: {:?}", other),
    }
    match Previewer::finish_external(&ExtPreviewer::Graphics("pdf.g".to_string()), lines.clone()) {
        Ok(PreviewTarget::StillImage { path }) => assert_eq!(path, "one"),
        other => panic!("unexpected: {:?}", other),
    }
    match Previewer::finish_external(&ExtPreviewer::Graphics("pdf.g".to_string()), vec![]) {
        Err(WError::NoneError) => {}
        other => panic!("unexpected: {:?}", other),
    }
}

#[test]
fn decode_output_splits_exactly() {
    let out = decode_output(&b"a\nb\n".to_vec()).expect("valid utf8");
    assert_eq!(out, vec!["a".to_string(), "b".to_string()]);
    let empty = decode_output(&Vec::new()).expect("valid utf8");
    assert!(empty.is_empty());
    let lone = decode_output(&b"\n".to_vec()).expect("valid utf8");
    assert_eq!(lone, vec!["".to_string()]);
}

#[test]
fn preview_dir_respects_staleness() {
    let mut reg = ProcRegistry::new();
    let mut p = Previewer::new();
    let dir = file("/d", "d", "/", None, FileKind::Directory);
    let tok = spawn_token(p.set_file(&mut reg, &dir));
    let entries = vec!["a".to_string(), "b".to_string()];
    match Previewer::preview_dir(&dir, entries.clone(), &p, &tok) {
        Ok(PreviewTarget::DirectoryListing(l)) => assert_eq!(l, entries),
        other => panic!("unexpected: {:?}", other),
    }
    p.set_stale();
    match Previewer::preview_dir(&dir, entries, &p, &tok) {
        Err(WError::PreviewFailed { file }) => assert_eq!(file, "d"),
        other => panic!("unexpected: {:?}", other),
    }
}

#[test]
fn reload_respawns_for_the_current_file() {
    let mut reg = ProcRegistry::new();
    let mut p = Previewer::new();
    let a = file("/d/a.txt", "a.txt", "/d", Some("txt"), FileKind::Regular);
    let _ = spawn_token(p.set_file(&mut reg, &a));
    match p.reload(&mut reg) {
        SetFileOutcome::Spawn { same_dir, .. } => assert!(same_dir),
        SetFileOutcome::Unchanged => panic!("reload must respawn"),
    }
    assert_eq!(p.get_file().map(|f| f.path.clone()), Some("/d/a.txt".to_string()));
}

#[test]
fn soft_failures_degrade_to_the_blank_view() {
    let ok = fallback_to_blank(Ok(PreviewTarget::StillImage { path: "/p".to_string() }));
    assert!(matches!(ok, Ok(PreviewTarget::StillImage { .. })));
    match fallback_to_blank(Err(WError::NoPreviewerFound)) {
        Ok(PreviewTarget::TextDocument { lines, partial }) => {
            assert!(lines.is_empty());
            assert!(!partial);
        }
        other => panic!("unexpected: {:?}", other),
    }
    let stale = fallback_to_blank(Err(WError::PreviewFailed { file: "a".to_string() }));
    assert!(matches!(stale, Ok(PreviewTarget::TextDocument { .. })));
    let superseded = fallback_to_blank(Err(WError::StalePreviewError { file: "a".to_string() }));
    assert!(matches!(superseded, Err(WError::StalePreviewError { .. })));
}
