use capture_gui::live::{classify, sse_data, EventKind, LiveState, StreamEvent};

fn ev(kind: &str) -> StreamEvent {
    StreamEvent {
        kind: Some(kind.to_string()),
        session_id: None,
        repo: None,
        id: None,
        phase: None,
        fraction: None,
        error: None,
        text: None,
        path: None,
    }
}

fn with_session(kind: &str, sid: &str) -> StreamEvent {
    let mut e = ev(kind);
    e.session_id = Some(sid.to_string());
    e
}

#[test]
fn stream_lines_carry_data_after_the_prefix() {
    assert_eq!(sse_data("data: {\"type\":\"x\"}"), Some("{\"type\":\"x\"}".to_string()));
    assert_eq!(sse_data("data: "), Some(String::new()));
    assert_eq!(sse_data("data:{}"), None);
    assert_eq!(sse_data(": keep-alive"), None);
    assert_eq!(sse_data(""), None);
}

#[test]
fn event_types_are_classified() {
    let k = |s: &str| classify(&Some(s.to_string()));
    assert_eq!(k("asr_download"), EventKind::AsrDownload);
    assert_eq!(k("asr_download_done"), EventKind::AsrDownloadEnd);
    assert_eq!(k("asr_download_error"), EventKind::AsrDownloadEnd);
    assert_eq!(k("asr_runtime_install"), EventKind::RuntimeInstall);
    assert_eq!(k("asr_runtime_install_error"), EventKind::RuntimeInstallEnd);
    assert_eq!(k("retranscribe_error"), EventKind::RetranscribeEnd);
    assert_eq!(k("import"), EventKind::Import);
    assert_eq!(k("import_done"), EventKind::ImportDone);
    assert_eq!(k("import_error"), EventKind::ImportError);
    assert_eq!(k("index"), EventKind::Index);
    assert_eq!(k("index_done"), EventKind::IndexDone);
    assert_eq!(k("index_error"), EventKind::IndexError);
    assert_eq!(k("transcript_segment"), EventKind::TranscriptSegment);
    assert_eq!(k("screenshot_taken"), EventKind::ScreenshotTaken);
    assert_eq!(k("session_started"), EventKind::Other);
    assert_eq!(classify(&None), EventKind::Other);
}

#[test]
fn download_progress_then_end_clears_the_entry() {
    let mut s = LiveState::new();
    let mut p = ev("asr_download");
    p.repo = Some("org/model".to_string());
    p.fraction = Some(0.5f64.to_bits());
    s.apply(&p);
    assert_eq!(s.asr_progress().get("org/model"), Some(&0.5f64.to_bits()));
    let mut end = ev("asr_download_error");
    end.repo = Some("org/model".to_string());
    s.apply(&end);
    assert_eq!(s.asr_progress().get("org/model"), None);
    assert_eq!(s.asr_progress().len(), 0);
}

#[test]
fn download_progress_without_fraction_is_ignored() {
    let mut s = LiveState::new();
    let mut p = ev("asr_download");
    p.repo = Some("org/model".to_string());
    s.apply(&p);
    assert_eq!(s.asr_progress().len(), 0);
}

#[test]
fn runtime_install_progress_and_end() {
    let mut s = LiveState::new();
    let mut p = ev("asr_runtime_install");
    p.id = Some("cuda".to_string());
    p.fraction = Some(0.25f64.to_bits());
    s.apply(&p);
    assert_eq!(s.runtime_install().get("cuda"), Some(&0.25f64.to_bits()));
    let mut end = ev("asr_runtime_install_done");
    end.id = Some("cuda".to_string());
    s.apply(&end);
    assert!(!s.runtime_install().contains("cuda"));
}

#[test]
fn retranscribe_end_is_queued_for_the_poll() {
    let mut s = LiveState::new();
    let mut p = with_session("retranscribe", "s-1");
    p.fraction = Some(0.1f64.to_bits());
    s.apply(&p);
    assert!(s.retranscribe().contains("s-1"));
    s.apply(&with_session("retranscribe_done", "s-1"));
    assert!(!s.retranscribe().contains("s-1"));
    s.apply(&with_session("retranscribe_error", "s-2"));
    assert_eq!(s.take_retranscribe_done(), vec!["s-1".to_string(), "s-2".to_string()]);
    assert!(s.take_retranscribe_done().is_empty());
}

#[test]
fn import_progress_and_outcomes() {
    let mut s = LiveState::new();
    let mut p = ev("import");
    p.phase = Some("probing".to_string());
    s.apply(&p);
    assert_eq!(s.import_progress(), &Some(("probing".to_string(), 0)));
    s.apply(&with_session("import_done", "new-7"));
    assert_eq!(s.import_progress(), &None);
    assert_eq!(s.take_import_result(), Some(Ok("new-7".to_string())));
    assert_eq!(s.take_import_result(), None);
    s.apply(&ev("import_error"));
    assert_eq!(s.take_import_result(), Some(Err("import failed".to_string())));
    let mut e = ev("import_error");
    e.error = Some("bad codec".to_string());
    s.apply(&e);
    assert_eq!(s.take_import_result(), Some(Err("bad codec".to_string())));
}

#[test]
fn import_done_without_session_keeps_earlier_result() {
    let mut s = LiveState::new();
    s.apply(&with_session("import_done", "a"));
    s.apply(&ev("import_done"));
    assert_eq!(s.take_import_result(), Some(Ok("a".to_string())));
}

#[test]
fn index_progress_and_outcomes() {
    let mut s = LiveState::new();
    let mut p = with_session("index", "s-9");
    p.phase = Some("frames".to_string());
    p.fraction = Some(0.75f64.to_bits());
    s.apply(&p);
    assert_eq!(
        s.index_progress().get("s-9"),
        Some(&("frames".to_string(), 0.75f64.to_bits()))
    );
    s.apply(&with_session("index_done", "s-9"));
    assert!(!s.index_progress().contains("s-9"));
    s.apply(&with_session("index_error", "s-8"));
    let mut e = with_session("index_error", "s-7");
    e.error = Some("timeout".to_string());
    s.apply(&e);
    assert_eq!(
        s.take_index_done(),
        vec![
            ("s-9".to_string(), None),
            ("s-8".to_string(), Some("index failed".to_string())),
            ("s-7".to_string(), Some("timeout".to_string())),
        ]
    );
    assert!(s.take_index_done().is_empty());
}

#[test]
fn transcript_and_screenshot_follow_the_watched_session_only() {
    let mut s = LiveState::new();
    let mut seg = with_session("transcript_segment", "s-1");
    seg.text = Some("  hello there \n".to_string());
    s.apply(&seg);
    assert!(s.transcript().is_empty());
    s.watch("s-1".to_string());
    assert_eq!(s.watched(), &Some("s-1".to_string()));
    s.apply(&seg);
    assert_eq!(s.transcript(), &vec!["hello there".to_string()]);
    let mut other = with_session("transcript_segment", "s-2");
    other.text = Some("not mine".to_string());
    s.apply(&other);
    assert_eq!(s.transcript().len(), 1);
    let mut shot = with_session("screenshot_taken", "s-1");
    shot.path = Some("/runs/s-1/shot.png".to_string());
    s.apply(&shot);
    assert_eq!(s.last_shot(), &Some("/runs/s-1/shot.png".to_string()));
    let mut other_shot = with_session("screenshot_taken", "s-2");
    other_shot.path = Some("/runs/s-2/shot.png".to_string());
    s.apply(&other_shot);
    assert_eq!(s.last_shot(), &Some("/runs/s-1/shot.png".to_string()));
    assert_eq!(s.watched(), &Some("s-1".to_string()));
}

#[test]
fn watching_resets_the_pane_and_backfill_needs_the_same_session() {
    let mut s = LiveState::new();
    s.watch("a".to_string());
    let mut seg = with_session("transcript_segment", "a");
    seg.text = Some("x".to_string());
    s.apply(&seg);
    s.watch("b".to_string());
    assert!(s.transcript().is_empty());
    assert_eq!(s.last_shot(), &None);
    s.backfill("a", &vec![" old ".to_string()]);
    assert!(s.transcript().is_empty());
    s.backfill("b", &vec![" one ".to_string(), "two".to_string()]);
    assert_eq!(s.transcript(), &vec!["one".to_string(), "two".to_string()]);
}

#[test]
fn begin_and_drop_markers() {
    let mut s = LiveState::new();
    s.begin_download("m".to_string());
    assert_eq!(s.asr_progress().get("m"), Some(&0));
    s.drop_download("m");
    assert!(!s.asr_progress().contains("m"));
    s.begin_runtime_install("r".to_string());
    assert_eq!(s.runtime_install().get("r"), Some(&0));
    s.drop_runtime_install("r");
    assert_eq!(s.runtime_install().len(), 0);
    s.begin_retranscribe("s".to_string());
    assert!(s.retranscribe().contains("s"));
    s.drop_retranscribe("s");
    assert!(!s.retranscribe().contains("s"));
    s.begin_index("s".to_string());
    assert_eq!(s.index_progress().get("s"), Some(&("starting".to_string(), 0)));
    s.drop_index("s");
    assert!(!s.index_progress().contains("s"));
}

#[test]
fn unknown_events_change_nothing() {
    let mut s = LiveState::new();
    s.watch("a".to_string());
    s.apply(&with_session("session_started", "a"));
    s.apply(&StreamEvent { kind: None, ..ev("x") });
    assert!(s.transcript().is_empty());
    assert_eq!(s.asr_progress().len(), 0);
    assert_eq!(s.take_import_result(), None);
}
