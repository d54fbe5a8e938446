use capture_gui::daemon::Session;
use capture_gui::live::{LiveState, StreamEvent};
use capture_gui::panel::{summary_prompt, CaptureApp};

fn running(id: &str) -> Session {
    Session { session_id: id.to_string(), state: "running".to_string(), ..Session::default() }
}

#[test]
fn new_panel_is_empty() {
    let p = CaptureApp::new();
    assert_eq!(p.selected_session, None);
    assert_eq!(p.playback, None);
    assert_eq!(p.message, None);
    assert!(p.opened.is_empty());
    assert!(!p.is_indexing("x"));
}

#[test]
fn opening_selects_and_shows_playback() {
    let mut p = CaptureApp::new();
    p.select_session(&"s-1".to_string());
    assert_eq!(p.selected_session, Some("s-1".to_string()));
    assert_eq!(p.playback, Some("s-1".to_string()));
    assert_eq!(p.opened, vec!["s-1".to_string()]);
}

#[test]
fn poll_defaults_to_newest_running_capture() {
    let mut p = CaptureApp::new();
    let ss = vec![running("2026-a-1"), running("2026-a-2")];
    p.after_poll(&ss, &vec![], &None, &vec![]);
    assert_eq!(p.selected_session, Some("2026-a-2".to_string()));
    let mut q = CaptureApp::new();
    q.select_session(&"mine".to_string());
    q.after_poll(&ss, &vec![], &None, &vec![]);
    assert_eq!(q.selected_session, Some("mine".to_string()));
    let mut idle = CaptureApp::new();
    idle.after_poll(&[], &vec![], &None, &vec![]);
    assert_eq!(idle.selected_session, None);
}

#[test]
fn finished_retranscribe_reports_and_reopens() {
    let mut p = CaptureApp::new();
    p.select_session(&"run-x-abc".to_string());
    p.retranscribing = Some("run-x-abc".to_string());
    p.after_poll(&[], &vec!["run-x-abc".to_string()], &None, &vec![]);
    assert_eq!(p.retranscribing, None);
    assert_eq!(p.message, Some("re-transcribed abc".to_string()));
    assert_eq!(p.opened, vec!["run-x-abc".to_string(), "run-x-abc".to_string()]);
}

#[test]
fn other_retranscribe_leaves_the_marker() {
    let mut p = CaptureApp::new();
    p.retranscribing = Some("a".to_string());
    p.after_poll(&[], &vec!["b".to_string()], &None, &vec![]);
    assert_eq!(p.retranscribing, Some("a".to_string()));
    assert_eq!(p.message, None);
}

#[test]
fn import_outcomes() {
    let mut p = CaptureApp::new();
    p.after_poll(&[], &vec![], &Some(Ok("imp-77".to_string())), &vec![]);
    assert_eq!(p.message, Some("imported session 77".to_string()));
    assert_eq!(p.selected_session, Some("imp-77".to_string()));
    let mut q = CaptureApp::new();
    q.after_poll(&[], &vec![], &Some(Err("no audio".to_string())), &vec![]);
    assert_eq!(q.message, Some("import failed: no audio".to_string()));
    assert_eq!(q.selected_session, None);
}

#[test]
fn finished_index_builds_clear_their_markers() {
    let mut p = CaptureApp::new();
    p.begin_index("s-1".to_string(), "auto");
    p.begin_index("s-2".to_string(), "auto");
    assert!(p.is_indexing("s-1"));
    p.select_session(&"s-2".to_string());
    p.after_poll(
        &[],
        &vec![],
        &None,
        &vec![("s-1".to_string(), Some("timeout".to_string())), ("s-2".to_string(), None)],
    );
    assert!(!p.is_indexing("s-1"));
    assert!(!p.is_indexing("s-2"));
    assert_eq!(p.message, Some("indexed 2".to_string()));
    assert_eq!(p.opened, vec!["s-2".to_string(), "s-2".to_string()]);
}

#[test]
fn index_done_for_unknown_session_changes_no_message() {
    let mut p = CaptureApp::new();
    p.after_poll(&[], &vec![], &None, &vec![("zz".to_string(), Some("e".to_string()))]);
    assert_eq!(p.message, None);
    p.begin_index("k".to_string(), "auto");
    p.index_failed("k", "e");
    assert!(!p.is_indexing("k"));
}

#[test]
fn summarization_prompt_names_the_folder() {
    let s = summary_prompt("/runs/abc");
    assert!(s.starts_with("Summarize this screen + audio capture for me.\n\nThe capture is in this folder:\n  /runs/abc\n\nIt contains:\n"));
    assert!(s.contains("- transcript.jsonl — timestamped speech-to-text (one JSON object per line)\n"));
    assert!(s.ends_with("3. Anything notable on screen the transcript misses.\nCite timestamps where useful."));
}

#[test]
fn index_and_retranscribe_requests() {
    let mut p = CaptureApp::new();
    p.begin_index("run-x-7".to_string(), "meeting");
    assert!(p.is_indexing("run-x-7"));
    assert_eq!(p.message, Some("indexing 7 (meeting)…".to_string()));
    p.index_failed("run-x-7", "no endpoint");
    assert!(!p.is_indexing("run-x-7"));
    assert_eq!(p.message, Some("index failed: no endpoint".to_string()));
    p.begin_retranscribe("run-x-7");
    assert_eq!(p.retranscribing, Some("run-x-7".to_string()));
    assert_eq!(p.message, Some("re-transcribing 7…".to_string()));
    p.retranscribe_failed("busy");
    assert_eq!(p.retranscribing, None);
    assert_eq!(p.message, Some("re-transcribe failed: busy".to_string()));
}

#[test]
fn deleting_and_pruning() {
    let mut p = CaptureApp::new();
    p.select_session(&"a-1".to_string());
    p.begin_delete("a-1");
    assert_eq!(p.selected_session, None);
    assert_eq!(p.message, Some("deleting 1…".to_string()));
    p.delete_finished("a-1", &Ok(()));
    assert_eq!(p.playback, None);
    assert_eq!(p.message, Some("deleted capture".to_string()));
    p.delete_finished("b", &Err("live".to_string()));
    assert_eq!(p.message, Some("delete failed: live".to_string()));
    let mut q = CaptureApp::new();
    q.select_session(&"s-2".to_string());
    q.begin_prune("s-2");
    assert_eq!(q.message, Some("pruning 2…".to_string()));
    q.prune_finished(&"s-2".to_string(), &Ok(()));
    assert_eq!(q.message, Some("pruned".to_string()));
    assert_eq!(q.opened.len(), 2);
    q.prune_finished(&"other".to_string(), &Err("gone".to_string()));
    assert_eq!(q.message, Some("prune failed: gone".to_string()));
    assert_eq!(q.opened.len(), 2);
}

#[test]
fn stopping_and_starting() {
    let mut p = CaptureApp::new();
    let ss = vec![running("a"), running("b")];
    assert_eq!(p.begin_stop_all(&ss), vec!["a".to_string(), "b".to_string()]);
    assert_eq!(p.message, Some("stopping 2 capture(s)…".to_string()));
    p.stop_all_finished();
    assert_eq!(p.message, Some("stopped all captures".to_string()));
    assert!(p.begin_stop_all(&[]).is_empty());
    assert_eq!(p.message, Some("no running captures".to_string()));
    p.begin_stop("x-9");
    assert_eq!(p.message, Some("stopping 9…".to_string()));
    p.stop_finished(&Ok("x-9".to_string()));
    assert_eq!(p.message, Some("stopped 9".to_string()));
    p.stop_finished(&Err("gone".to_string()));
    assert_eq!(p.message, Some("stop failed: gone".to_string()));
    assert!(!p.begin_start(0));
    assert_eq!(p.message, Some("check at least one window".to_string()));
    assert!(p.begin_start(3));
    assert_eq!(p.message, Some("starting 3 capture(s)…".to_string()));
    p.start_finished(2, 3, &Some("new-5".to_string()), &Some("denied".to_string()));
    assert_eq!(p.message, Some("started 2/3 capture(s)".to_string()));
    assert_eq!(p.selected_session, Some("new-5".to_string()));
    p.start_finished(0, 1, &None, &Some("denied".to_string()));
    assert_eq!(p.message, Some("start failed: denied".to_string()));
}

#[test]
fn launching() {
    let mut p = CaptureApp::new();
    p.begin_launch("npm test");
    assert_eq!(p.message, Some("launching: npm test…".to_string()));
    p.launch_finished(&Ok("cmd-42".to_string()));
    assert_eq!(p.message, Some("launched 42".to_string()));
    assert_eq!(p.playback, Some("cmd-42".to_string()));
    p.launch_finished(&Err("no such file".to_string()));
    assert_eq!(p.message, Some("launch failed: no such file".to_string()));
}

#[test]
fn model_and_runtime_messages() {
    let mut p = CaptureApp::new();
    p.begin_download("org/whisper-small");
    assert_eq!(p.message, Some("downloading whisper-small…".to_string()));
    p.download_failed("disk full");
    assert_eq!(p.message, Some("download failed: disk full".to_string()));
    p.model_set("org/whisper-small", &Ok(()));
    assert_eq!(p.message, Some("active model: whisper-small".to_string()));
    p.model_set("org/whisper-small", &Err("x".to_string()));
    assert_eq!(p.message, Some("set model failed: x".to_string()));
    p.begin_remove_model("org/m");
    assert_eq!(p.message, Some("removing m…".to_string()));
    p.model_removed("org/m", &Ok(()));
    assert_eq!(p.message, Some("removed m".to_string()));
    p.begin_runtime_install("cuda");
    assert_eq!(p.message, Some("installing cuda runtime…".to_string()));
    p.runtime_install_failed("404");
    assert_eq!(p.message, Some("runtime install failed: 404".to_string()));
    p.runtime_set("cuda", &Ok(()));
    assert_eq!(p.message, Some("active runtime: cuda".to_string()));
    p.runtime_set("cuda", &Err("busy".to_string()));
    assert_eq!(p.message, Some("set runtime failed: busy".to_string()));
}

#[test]
fn language_microphone_and_import_messages() {
    let mut p = CaptureApp::new();
    assert_eq!(p.begin_language("  GER "), "de");
    assert_eq!(p.message, Some("language: de".to_string()));
    assert_eq!(p.begin_language("xx"), "xx");
    assert_eq!(p.message, Some("language: xx".to_string()));
    assert_eq!(p.begin_language("auto"), "");
    assert_eq!(p.message, Some("language: auto-detect".to_string()));
    assert_eq!(p.begin_language("   "), "");
    assert_eq!(p.message, Some("language: auto-detect".to_string()));
    p.language_failed("bad code");
    assert_eq!(p.message, Some("set language failed: bad code".to_string()));
    p.begin_mic_switch(Some("m1"));
    assert_eq!(p.message, Some("switching microphone…".to_string()));
    p.begin_mic_switch(None);
    assert_eq!(p.message, Some("turning microphone off…".to_string()));
    p.mic_switch_failed("gone");
    assert_eq!(p.message, Some("mic switch failed: gone".to_string()));
    p.begin_import();
    assert_eq!(p.message, Some("choose a file to import…".to_string()));
    p.import_sent(&Some(Ok("/Users/a/Movies/talk.mp4".to_string())));
    assert_eq!(p.message, Some("importing talk.mp4…".to_string()));
    p.import_sent(&Some(Err("unsupported".to_string())));
    assert_eq!(p.message, Some("import failed: unsupported".to_string()));
    p.import_sent(&None);
    assert_eq!(p.message, Some("import cancelled".to_string()));
}


fn event(kind: &str, sid: &str) -> StreamEvent {
    StreamEvent {
        kind: Some(kind.to_string()),
        session_id: Some(sid.to_string()),
        repo: None,
        id: None,
        phase: None,
        fraction: None,
        error: None,
        text: None,
        path: None,
    }
}

#[test]
fn end_events_reach_the_window_through_the_poll() {
    let mut live = LiveState::new();
    let mut w = CaptureApp::new();
    w.begin_retranscribe("s-1");
    w.begin_index("s-2".to_string(), "auto");
    w.begin_index("s-3".to_string(), "auto");
    live.apply(&event("retranscribe_done", "s-1"));
    live.apply(&event("index_error", "s-2"));
    let done = live.take_retranscribe_done();
    let imported = live.take_import_result();
    let indexed = live.take_index_done();
    w.after_poll(&[], &done, &imported, &indexed);
    assert_eq!(w.retranscribing, None);
    assert!(!w.is_indexing("s-2"));
    assert!(w.is_indexing("s-3"));
}
