use capture_gui::daemon::{Health, Session};
use capture_gui::labels::ConfirmKind;
use capture_gui::playback::{Frame, Player, Subtitle, Timeline};
use capture_gui::screens::{
    confirm_cancel, confirm_go, daemon_header, header_button, header_click, open_pane,
    session_rows, shown_screen, startup_plan, ConfirmedAction, RowAction, Screen,
};
use capture_gui::update::UpdateInfo;

fn session(id: &str, state: &str, dir: &str) -> Session {
    Session {
        session_id: id.to_string(),
        state: state.to_string(),
        dir: dir.to_string(),
        ..Session::default()
    }
}

fn timeline() -> Timeline {
    Timeline {
        frames: vec![Frame { at: 1000, path: "a.png".to_string() }],
        subtitles: vec![Subtitle { start: 1000, end: 2000, text: "hi".to_string(), mic: false }],
        start: 1000,
        end: 2000,
    }
}

#[test]
fn one_screen_shows_at_a_time() {
    assert_eq!(shown_screen(false, false), Screen::Dashboard);
    assert_eq!(shown_screen(true, false), Screen::Settings);
    assert_eq!(shown_screen(true, true), Screen::Playback);
    assert_eq!(shown_screen(false, true), Screen::Playback);
}

#[test]
fn header_button_goes_back_from_sub_screens() {
    assert_eq!(header_button(false, false), ("settings", "Settings"));
    assert_eq!(header_button(true, false), ("chevron-left", "Back"));
    assert_eq!(header_button(false, true), ("chevron-left", "Back"));
    assert_eq!(header_click(false, false), (true, false));
    assert_eq!(header_click(true, false), (false, false));
    assert_eq!(header_click(true, true), (true, false));
}

#[test]
fn daemon_line_shows_health() {
    let h = Health { ok: true, version: "1.4.0".to_string(), api_version: "2".to_string(), pid: 812 };
    assert_eq!(daemon_header(&Some(h)), "daemon v1.4.0 (api 2) · pid 812");
    let bad = Health { ok: false, ..Health::default() };
    assert_eq!(daemon_header(&Some(bad)), "no daemon — run: capture daemon start");
    assert_eq!(daemon_header(&None), "no daemon — run: capture daemon start");
}

#[test]
fn session_rows_are_newest_first() {
    let ss = vec![session("a", "done", "/a"), session("b", "running", "/b"), session("c", "stopped", "/c")];
    let rows = session_rows(&ss, &Some("b".to_string()));
    assert_eq!(rows.iter().map(|r| r.index).collect::<Vec<_>>(), vec![2, 1, 0]);
    assert_eq!(rows[1].action, RowAction::Stop);
    assert!(rows[1].open);
    assert_eq!(rows[0].action, RowAction::Delete);
    assert!(!rows[0].open);
    assert_eq!(rows[2].action, RowAction::Delete);
    assert!(session_rows(&[], &None).is_empty());
}

#[test]
fn confirming_runs_the_action_and_closes() {
    let mut pending = Some(ConfirmKind::Prune("s1".to_string(), vec!["audio".to_string()], "q".to_string()));
    match confirm_go(&mut pending) {
        Some(ConfirmedAction::Prune(sid, parts)) => {
            assert_eq!(sid, "s1");
            assert_eq!(parts, vec!["audio".to_string()]);
        }
        _ => panic!("wrong action"),
    }
    assert!(pending.is_none());
    let mut pending = Some(ConfirmKind::DeleteSession("s2".to_string()));
    assert!(matches!(confirm_go(&mut pending), Some(ConfirmedAction::DeleteSession(s)) if s == "s2"));
    let info = UpdateInfo { version: "0.4.0".to_string(), dmg_url: "u".to_string() };
    let mut pending = Some(ConfirmKind::Update(info));
    assert!(matches!(confirm_go(&mut pending), Some(ConfirmedAction::Update(i)) if i.version == "0.4.0"));
    let mut none: Option<ConfirmKind> = None;
    assert!(confirm_go(&mut none).is_none());
}

#[test]
fn cancelling_closes_without_action() {
    let mut pending = Some(ConfirmKind::DeleteSession("s2".to_string()));
    confirm_cancel(&mut pending);
    assert!(pending.is_none());
}

#[test]
fn bundled_daemon_starts_only_standalone() {
    let p = startup_plan(false, false, true);
    assert!(p.build_tray && p.spawn_daemon);
    assert!(!startup_plan(false, true, true).spawn_daemon);
    assert!(!startup_plan(false, false, false).spawn_daemon);
    let agent = startup_plan(true, false, true);
    assert!(!agent.build_tray && !agent.spawn_daemon);
}

#[test]
fn opening_a_finished_capture_loads_its_folder() {
    let ss = vec![session("a", "done", "/runs/a"), session("b", "running", "/runs/b"), session("c", "done", "")];
    let (p, dir) = open_pane(&ss, "a");
    assert_eq!(p.sid, "a");
    assert!(p.finished);
    assert!(!p.loaded);
    assert_eq!(dir, Some("/runs/a".to_string()));
    let (p, dir) = open_pane(&ss, "b");
    assert!(!p.finished);
    assert_eq!(dir, None);
    let (p, dir) = open_pane(&ss, "c");
    assert!(p.finished);
    assert_eq!(dir, None);
    let (p, dir) = open_pane(&ss, "zz");
    assert!(!p.finished);
    assert_eq!(dir, None);
}

#[test]
fn stale_timeline_load_changes_nothing() {
    let ss = vec![session("a", "done", "/runs/a"), session("b", "done", "/runs/b")];
    let (mut p, _) = open_pane(&ss, "b");
    assert!(!p.fill("a", timeline()));
    assert!(!p.loaded);
    assert!(p.frames.is_empty());
    assert!(p.fill("b", timeline()));
    assert!(p.loaded);
    assert_eq!(p.frames.len(), 1);
    assert_eq!(p.subtitles.len(), 1);
    assert_eq!((p.start, p.end, p.pos), (1000, 2000, 1000));
}

#[test]
fn index_summary_needs_text() {
    let (mut p, _) = open_pane(&[], "x");
    p.set_index(Some("A meeting about budgets".to_string()), Some(12));
    assert_eq!(p.index_summary, Some("A meeting about budgets".to_string()));
    assert_eq!(p.index_nodes, Some(12));
    p.set_index(Some(String::new()), None);
    assert_eq!(p.index_summary, None);
    assert_eq!(p.index_nodes, None);
}

#[test]
fn ticking_past_the_end_parks_at_the_end() {
    let mut p = Player { start: 0, end: 1000, pos: 1500, playing: true };
    assert!(p.tick());
    assert_eq!(p.pos, 1000);
    assert!(!p.playing);
}
