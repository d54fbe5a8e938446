use capture_gui::daemon::{AsrModel, AudioDevice, Session};
use capture_gui::labels::{
    device_label, group_header, language_field_text, live_caption, model_field_text, model_row,
    model_status_text, model_title, models_heading, more_languages, permission_status,
    playback_heading, session_line, toggle_mic_app, toggle_window, update_status,
    window_title_label, ModelStatus,
};
use capture_gui::update::UpdateInfo;

#[test]
fn window_rows() {
    assert_eq!(window_title_label("  "), "(untitled window)");
    assert_eq!(window_title_label("Inbox"), "Inbox");
    let long = "x".repeat(50);
    assert_eq!(window_title_label(&long), format!("{}…", "x".repeat(44)));
    assert_eq!(group_header("Zoom", 3), "Zoom  (3)");
}

#[test]
fn checking_a_window_twice_unchecks_it() {
    let mut c = vec![4, 7];
    toggle_window(&mut c, 9);
    assert_eq!(c, vec![4, 7, 9]);
    toggle_window(&mut c, 7);
    assert_eq!(c, vec![4, 9]);
    toggle_window(&mut c, 7);
    toggle_window(&mut c, 7);
    assert_eq!(c, vec![4, 9]);
}

#[test]
fn mic_app_toggle() {
    assert_eq!(toggle_mic_app(&None, "Zoom"), Some("Zoom".to_string()));
    assert_eq!(toggle_mic_app(&Some("Zoom".to_string()), "Zoom"), None);
    assert_eq!(toggle_mic_app(&Some("Zoom".to_string()), "Safari"), Some("Safari".to_string()));
}

#[test]
fn session_and_device_rows() {
    let s = Session {
        session_id: "2026-06-16-ab12".to_string(),
        state: "running".to_string(),
        screenshots: 42,
        transcript_segments: -1,
        ..Session::default()
    };
    assert_eq!(session_line(&s), "ab12 · running · 42s · -1seg");
    let d = AudioDevice { id: "m".to_string(), name: "MacBook Mic".to_string(), default: true };
    assert_eq!(device_label(&d), "MacBook Mic (default)");
    let e = AudioDevice { default: false, ..d };
    assert_eq!(device_label(&e), "MacBook Mic");
}

#[test]
fn permission_rows() {
    assert_eq!(
        permission_status("Screen Recording", "granted", "screenshots"),
        ("Screen Recording: ✓ granted".to_string(), true)
    );
    assert_eq!(
        permission_status("Microphone", "undetermined", "mic"),
        ("Microphone: not requested".to_string(), false)
    );
    assert_eq!(
        permission_status("Microphone", "denied", "the mic track"),
        ("Microphone: ✗ not granted — needed for the mic track".to_string(), false)
    );
}

#[test]
fn update_row() {
    let offer = Some(UpdateInfo { version: "0.3.0".to_string(), dmg_url: "u".to_string() });
    assert_eq!(update_status("0.2.0", &offer), "v0.3.0 available (you have v0.2.0)");
    assert_eq!(update_status("0.2.0", &None), "v0.2.0 · up to date");
}

#[test]
fn language_field_texts() {
    assert_eq!(language_field_text(true, true, "ger", "de"), "ger▏");
    assert_eq!(language_field_text(true, true, "", "de"), "type to search…");
    assert_eq!(language_field_text(false, false, "", ""), "Auto-detect ▾");
    assert_eq!(language_field_text(true, false, "", "de"), "de · German ▾");
    assert_eq!(language_field_text(false, true, "x", "xx"), "xx · xx ▾");
    assert_eq!(more_languages(12), None);
    assert_eq!(more_languages(75), Some("+63 more — keep typing".to_string()));
    assert_eq!(model_field_text(""), "server default ▾");
    assert_eq!(model_field_text("qwen2.5-vl"), "qwen2.5-vl ▾");
}

#[test]
fn playback_heading_and_live_caption() {
    assert_eq!(playback_heading("run-abc", true), "abc · saved capture");
    assert_eq!(playback_heading("run-abc", false), "abc · ● live");
    let lines: Vec<String> = (1..=10).map(|i| format!("l{i}")).collect();
    assert_eq!(live_caption(&lines), lines[2..].to_vec());
    assert_eq!(live_caption(&lines[..3]), lines[..3].to_vec());
    assert!(live_caption(&[]).is_empty());
}

fn model(downloaded: bool, active: bool, downloading: bool) -> AsrModel {
    AsrModel {
        repo: "org/whisper-small".to_string(),
        name: "Whisper small".to_string(),
        size_label: "466 MB".to_string(),
        downloaded,
        active,
        downloading,
    }
}

#[test]
fn model_rows() {
    let r = model_row(&model(false, false, false), None);
    assert_eq!(r.status, ModelStatus::Idle);
    assert!(r.download && !r.make_active && !r.remove && !r.busy);
    let r = model_row(&model(false, false, false), Some(0.5f64.to_bits()));
    assert_eq!(r.status, ModelStatus::Progress(0.5f64.to_bits()));
    assert!(r.busy && !r.download);
    let r = model_row(&model(false, true, true), None);
    assert_eq!(r.status, ModelStatus::Downloading);
    assert!(r.busy && !r.download);
    let r = model_row(&model(true, true, false), None);
    assert_eq!(r.status, ModelStatus::Active);
    assert!(!r.download && !r.make_active && r.remove);
    let r = model_row(&model(false, true, false), None);
    assert_eq!(r.status, ModelStatus::ActiveNeedsDownload);
    assert!(r.download);
    let r = model_row(&model(true, false, false), None);
    assert_eq!(r.status, ModelStatus::Downloaded);
    assert!(r.make_active && r.remove);
}

#[test]
fn model_texts() {
    assert_eq!(model_status_text(ModelStatus::Progress(0)), None);
    assert_eq!(model_status_text(ModelStatus::Downloading), Some("↓ downloading…"));
    assert_eq!(model_status_text(ModelStatus::Active), Some("● active"));
    assert_eq!(model_status_text(ModelStatus::ActiveNeedsDownload), Some("● active · needs download"));
    assert_eq!(model_status_text(ModelStatus::Downloaded), Some("✓ downloaded"));
    assert_eq!(model_status_text(ModelStatus::Idle), Some(""));
    assert_eq!(model_title(&model(true, false, false)), "Whisper small  ·  466 MB");
    assert!(models_heading(true).starts_with("Whisper models  (downloaded on demand"));
    assert!(models_heading(false).contains("runtime unavailable"));
}
