use capture_gui::capture::{
    capture_body, capture_preset_at, group_windows, launch_body, newest_running_session,
    plan_captures, playback_target, preset_mic, running_session_ids, session_finished, toggle_action,
    tray_title, menu_action, CapturePlan, MenuAction, ToggleAction, Tray, CAPTURE_PRESET_COUNT,
};
use capture_gui::daemon::{AudioDevice, JsonValue, Session, WindowInfo};
use capture_gui::state::shot_settings;

fn session(id: &str, state: &str, dir: &str) -> Session {
    Session {
        session_id: id.to_string(),
        state: state.to_string(),
        dir: dir.to_string(),
        ..Session::default()
    }
}

fn window(id: i64, pid: i64, app: &str) -> WindowInfo {
    WindowInfo {
        window_id: id,
        pid,
        app_name: app.to_string(),
        title: format!("window {id}"),
        width: 800,
        height: 600,
    }
}

fn mic(id: &str, default: bool) -> AudioDevice {
    AudioDevice { id: id.to_string(), name: id.to_uppercase(), default }
}

fn str_of(v: &JsonValue) -> Option<&str> {
    match v {
        JsonValue::Str(s) => Some(s.as_str()),
        _ => None,
    }
}

fn keys(b: &[(String, JsonValue)]) -> Vec<&str> {
    b.iter().map(|(k, _)| k.as_str()).collect()
}

#[test]
fn finished_states() {
    assert!(!session_finished("running"));
    assert!(!session_finished("starting"));
    assert!(!session_finished("stopping"));
    assert!(session_finished("stopped"));
    assert!(session_finished("failed"));
    assert!(session_finished(""));
}

#[test]
fn running_ids_and_toggle() {
    let ss = vec![
        session("a", "running", "/a"),
        session("b", "stopped", "/b"),
        session("c", "running", "/c"),
        session("d", "starting", "/d"),
    ];
    assert_eq!(running_session_ids(&ss), vec!["a".to_string(), "c".to_string()]);
    assert_eq!(toggle_action(&ss), ToggleAction::StopAll);
    assert_eq!(newest_running_session(&ss), Some("c".to_string()));
    let idle = vec![session("b", "stopped", "/b")];
    assert_eq!(toggle_action(&idle), ToggleAction::OpenPresetPicker);
    assert_eq!(newest_running_session(&idle), None);
    assert_eq!(toggle_action(&[]), ToggleAction::OpenPresetPicker);
}

#[test]
fn tray_titles() {
    assert_eq!(tray_title(0), "● capture");
    assert_eq!(tray_title(1), "⦿ 1");
    assert_eq!(tray_title(12), "⦿ 12");
}

#[test]
fn playback_target_of_listed_and_unlisted_sessions() {
    let ss = vec![session("a", "running", "/runs/a"), session("b", "stopped", "/runs/b")];
    assert_eq!(playback_target(&ss, "a"), ("/runs/a".to_string(), false));
    assert_eq!(playback_target(&ss, "b"), ("/runs/b".to_string(), true));
    assert_eq!(playback_target(&ss, "z"), (String::new(), false));
}

#[test]
fn preset_microphone_choice() {
    let mics = vec![mic("m1", false), mic("m2", true), mic("m3", true)];
    assert_eq!(preset_mic("meeting", &None, &mics), Some("m2".to_string()));
    assert_eq!(preset_mic("meeting", &Some("m3".to_string()), &mics), Some("m3".to_string()));
    let no_default = vec![mic("x", false), mic("y", false)];
    assert_eq!(preset_mic("meeting", &None, &no_default), Some("x".to_string()));
    assert_eq!(preset_mic("meeting", &None, &[]), None);
    assert_eq!(preset_mic("coding", &Some("m1".to_string()), &mics), None);
    assert_eq!(preset_mic("lecture", &Some("m1".to_string()), &mics), None);
    assert_eq!(preset_mic("auto", &Some("m1".to_string()), &mics), Some("m1".to_string()));
    assert_eq!(preset_mic("custom", &None, &mics), None);
}

#[test]
fn capture_presets_in_order() {
    assert_eq!(CAPTURE_PRESET_COUNT, 6);
    let ids: Vec<&str> = (0..CAPTURE_PRESET_COUNT).map(|i| capture_preset_at(i).0).collect();
    assert_eq!(ids, vec!["auto", "meeting", "coding", "lecture", "general", "custom"]);
    assert_eq!(capture_preset_at(2).1, "Coding / tutorial");
    assert_eq!(capture_preset_at(4).2, "Plain capture; index auto-classifies.");
}

#[test]
fn one_capture_per_checked_window_with_audio_once_per_process_and_one_mic() {
    let ws = vec![
        window(10, 100, "Zoom"),
        window(11, 100, "Zoom"),
        window(20, 200, "Safari"),
        window(30, 300, "Zoom"),
    ];
    let plans = plan_captures(&ws, &[11, 10, 30], &Some("Zoom".to_string()), &Some("mic-1".to_string()));
    let got: Vec<(i64, i64, bool, Option<String>)> = plans
        .iter()
        .map(|p| (p.pid, p.window_id, p.capture_audio, p.mic_device.clone()))
        .collect();
    assert_eq!(
        got,
        vec![
            (100, 10, true, Some("mic-1".to_string())),
            (100, 11, false, None),
            (300, 30, true, None),
        ]
    );
}

#[test]
fn microphone_only_goes_with_the_chosen_app() {
    let ws = vec![window(1, 5, "Safari"), window(2, 6, "Zoom")];
    let plans = plan_captures(&ws, &[1, 2], &Some("Zoom".to_string()), &Some("m".to_string()));
    assert_eq!(plans[0].mic_device, None);
    assert_eq!(plans[1].mic_device, Some("m".to_string()));
    let none = plan_captures(&ws, &[1, 2], &None, &Some("m".to_string()));
    assert!(none.iter().all(|p| p.mic_device.is_none() && p.capture_audio));
    assert!(plan_captures(&ws, &[], &None, &None).is_empty());
}

#[test]
fn capture_request_body() {
    let shot = shot_settings(true, "png", 0, 80);
    let p = CapturePlan { pid: 42, window_id: 7, capture_audio: true, mic_device: Some("m".to_string()) };
    let b = capture_body("/out", &p, &shot);
    assert_eq!(
        keys(&b),
        vec![
            "output_dir",
            "pid",
            "window_id",
            "audio_source",
            "capture_audio",
            "screenshot_interval",
            "mic_device",
            "capture_screenshots",
            "screenshot_format"
        ]
    );
    assert_eq!(str_of(&b[0].1), Some("/out"));
    assert!(matches!(b[1].1, JsonValue::Int(42)));
    assert!(matches!(b[2].1, JsonValue::Int(7)));
    assert_eq!(str_of(&b[3].1), Some("app"));
    assert!(matches!(b[4].1, JsonValue::Bool(true)));
    match b[5].1 {
        JsonValue::Float(bits) => assert_eq!(f64::from_bits(bits), 2.0),
        _ => panic!("interval is a number with a fraction"),
    }
    assert_eq!(str_of(&b[6].1), Some("m"));
    let q = CapturePlan { pid: 1, window_id: 2, capture_audio: false, mic_device: None };
    assert_eq!(capture_body("/o", &q, &shot).len(), 8);
}

#[test]
fn launch_body_needs_a_command() {
    let shot = shot_settings(true, "png", 0, 80);
    assert!(launch_body("/out", "   ", &shot).is_none());
    let b = launch_body("/out", "  npm test ", &shot).expect("a body");
    assert_eq!(
        keys(&b),
        vec![
            "output_dir",
            "command",
            "audio_source",
            "screenshot_interval",
            "capture_screenshots",
            "screenshot_format"
        ]
    );
    assert_eq!(str_of(&b[1].1), Some("npm test"));
}

#[test]
fn window_picker_groups_by_app_in_first_seen_order() {
    let ws = vec![
        window(1, 1, "Zoom"),
        window(2, 2, "Safari"),
        window(3, 1, "Zoom"),
        window(4, 3, "Terminal"),
        window(5, 2, "Safari"),
    ];
    let g = group_windows(&ws);
    assert_eq!(
        g,
        vec![
            ("Zoom".to_string(), vec![0, 2]),
            ("Safari".to_string(), vec![1, 4]),
            ("Terminal".to_string(), vec![3]),
        ]
    );
    assert!(group_windows(&[]).is_empty());
}

#[test]
fn menu_bar_title_is_set_only_when_it_changes() {
    let mut t = Tray::new();
    assert_eq!(t.last_title, "● capture");
    assert_eq!(t.set_running(0), None);
    assert_eq!(t.set_running(2), Some("⦿ 2".to_string()));
    assert_eq!(t.set_running(2), None);
    assert_eq!(t.set_running(0), Some("● capture".to_string()));
    assert_eq!(t.last_title, "● capture");
}

#[test]
fn tray_menu_items() {
    assert_eq!(menu_action("stop_all"), MenuAction::StopAll);
    assert_eq!(menu_action("open"), MenuAction::OpenWindow);
    assert_eq!(menu_action("quit"), MenuAction::Quit);
    assert_eq!(menu_action("other"), MenuAction::Nothing);
}
