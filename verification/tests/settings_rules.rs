use capture_gui::state::{
    after_last_char, default_index_config, default_settings, index_chat_url, index_is_base_url,
    index_needs_key, index_provider_meta, last_path_part, migrate_index_url, res_preset_at,
    resolve_index_cfg, resolve_settings, short_id, shot_settings, switch_provider, truncate, IndexSettingsFile,
    SettingsFile, SettingsSection, RES_PRESET_COUNT,
};
use capture_gui::daemon::JsonValue;

fn no_index_keys(legacy: &str) -> IndexSettingsFile {
    IndexSettingsFile {
        has_provider: false,
        has_host: false,
        provider: String::new(),
        host: String::new(),
        port: String::new(),
        key: String::new(),
        legacy_url: legacy.to_string(),
    }
}

fn empty_file() -> SettingsFile {
    SettingsFile {
        shot_format: None,
        shot_res_ix: None,
        jpeg_quality: None,
        mic_device: None,
        capture_screenshots: None,
        index: no_index_keys(""),
        index_model: None,
        index_preset: None,
    }
}

fn str_of(v: &JsonValue) -> Option<&str> {
    match v {
        JsonValue::Str(s) => Some(s.as_str()),
        _ => None,
    }
}

#[test]
fn settings_sections_in_navigation_order() {
    let all = SettingsSection::all();
    assert_eq!(all.len(), 7);
    assert_eq!(all[0], SettingsSection::CaptureQuality);
    assert_eq!(all[6], SettingsSection::Updates);
    let labels: Vec<&str> = all.iter().map(|s| s.label()).collect();
    assert_eq!(
        labels,
        vec![
            "Capture quality",
            "Transcription",
            "Voice recognition",
            "Index endpoint",
            "Skills",
            "Permissions",
            "App & updates"
        ]
    );
    let icons: Vec<&str> = all.iter().map(|s| s.icon()).collect();
    assert_eq!(
        icons,
        vec!["image", "mic", "waveform", "list-tree", "clipboard", "shield", "refresh"]
    );
}

#[test]
fn provider_meta_known_and_unknown() {
    assert_eq!(index_provider_meta("lmstudio"), ("1234", false, false));
    assert_eq!(index_provider_meta("ollama"), ("11434", false, false));
    assert_eq!(index_provider_meta("openai"), ("", true, false));
    assert_eq!(index_provider_meta("custom"), ("", false, true));
    assert_eq!(index_provider_meta("LMStudio"), ("", false, false));
    assert!(index_needs_key("openai"));
    assert!(!index_needs_key("ollama"));
    assert!(index_is_base_url("custom"));
    assert!(!index_is_base_url("openai"));
}

#[test]
fn chat_url_per_provider() {
    assert_eq!(
        index_chat_url("lmstudio", " localhost ", "1234"),
        "http://localhost:1234/v1/chat/completions"
    );
    assert_eq!(index_chat_url("ollama", "box", " "), "http://box/v1/chat/completions");
    assert_eq!(index_chat_url("lmstudio", "  ", "1234"), "");
    assert_eq!(
        index_chat_url("openai", "", ""),
        "https://api.openai.com/v1/chat/completions"
    );
    assert_eq!(
        index_chat_url("custom", "https://llm.example/v1//", "99"),
        "https://llm.example/v1/chat/completions"
    );
    assert_eq!(index_chat_url("custom", " ", "99"), "");
}

#[test]
fn legacy_url_migration() {
    assert_eq!(
        migrate_index_url("http://localhost:1234/v1/chat/completions"),
        Some(("localhost".to_string(), "1234".to_string()))
    );
    assert_eq!(
        migrate_index_url("https://gpu-box:8080"),
        Some(("gpu-box".to_string(), "8080".to_string()))
    );
    assert_eq!(migrate_index_url("http://localhost/v1"), None);
    assert_eq!(migrate_index_url("http://:1234/v1"), None);
    assert_eq!(migrate_index_url("http://host:port/v1"), None);
    assert_eq!(migrate_index_url("ftp://host:21/"), None);
    assert_eq!(migrate_index_url("http://host:99999999999/"), None);
    assert_eq!(migrate_index_url(""), None);
}

#[test]
fn index_config_from_structured_keys() {
    let f = IndexSettingsFile {
        has_provider: true,
        has_host: false,
        provider: "ollama".to_string(),
        host: "box".to_string(),
        port: String::new(),
        key: "k".to_string(),
        legacy_url: "http://ignored:1/".to_string(),
    };
    let c = resolve_index_cfg(&f);
    assert_eq!(c.provider, "ollama");
    assert_eq!(c.host, "box");
    assert_eq!(c.port, "11434");
    assert_eq!(c.key, "k");

    let blank = IndexSettingsFile {
        has_provider: false,
        has_host: true,
        provider: String::new(),
        host: "h".to_string(),
        port: "77".to_string(),
        key: String::new(),
        legacy_url: String::new(),
    };
    let c = resolve_index_cfg(&blank);
    assert_eq!(c.provider, "lmstudio");
    assert_eq!(c.port, "77");
}

#[test]
fn index_config_from_legacy_url_or_default() {
    let c = resolve_index_cfg(&no_index_keys("http://10.0.0.2:5555/v1"));
    assert_eq!(c.provider, "lmstudio");
    assert_eq!(c.host, "10.0.0.2");
    assert_eq!(c.port, "5555");
    assert_eq!(c.key, "");

    let d = resolve_index_cfg(&no_index_keys("not a url"));
    let def = default_index_config();
    assert_eq!(d.provider, def.provider);
    assert_eq!(d.host, "");
    assert_eq!(d.port, "1234");
    assert_eq!(d.key, "");
}

#[test]
fn settings_defaults_apply_where_absent() {
    let s = resolve_settings(&empty_file());
    let d = default_settings();
    assert_eq!(s.shot_format, "png");
    assert_eq!(d.shot_format, "png");
    assert_eq!(s.shot_res_ix, 0);
    assert_eq!(s.jpeg_quality, 80);
    assert_eq!(s.mic_device, None);
    assert!(s.capture_screenshots);
    assert_eq!(s.index.provider, "lmstudio");
    assert_eq!(s.index.port, "1234");
    assert_eq!(s.index_model, "");
    assert_eq!(s.index_preset, "auto");
    assert_eq!(d.index_preset, "auto");
}

#[test]
fn settings_values_from_the_file() {
    let mut f = empty_file();
    f.shot_format = Some("jpeg".to_string());
    f.shot_res_ix = Some(2);
    f.jpeg_quality = Some(65);
    f.mic_device = Some("mic-1".to_string());
    f.capture_screenshots = Some(false);
    f.index_model = Some("qwen".to_string());
    f.index_preset = Some("meeting".to_string());
    let s = resolve_settings(&f);
    assert_eq!(s.shot_format, "jpeg");
    assert_eq!(s.shot_res_ix, 2);
    assert_eq!(s.jpeg_quality, 65);
    assert_eq!(s.mic_device, Some("mic-1".to_string()));
    assert!(!s.capture_screenshots);
    assert_eq!(s.index_model, "qwen");
    assert_eq!(s.index_preset, "meeting");
}

#[test]
fn jpeg_quality_narrows_like_as() {
    let mut f = empty_file();
    f.jpeg_quality = Some((1u64 << 32) + 5);
    assert_eq!(resolve_settings(&f).jpeg_quality, 5);
}

#[test]
fn resolution_presets() {
    assert_eq!(RES_PRESET_COUNT, 4);
    assert_eq!(res_preset_at(0), ("Native", None));
    assert_eq!(res_preset_at(1), ("1440p", Some("2560x1440")));
    assert_eq!(res_preset_at(2), ("1080p", Some("1920x1080")));
    assert_eq!(res_preset_at(3), ("720p", Some("1280x720")));
}

#[test]
fn screenshot_fields_for_png_native() {
    let b = shot_settings(true, "png", 0, 80);
    assert_eq!(b.len(), 2);
    assert_eq!(b[0].0, "capture_screenshots");
    assert!(matches!(b[0].1, JsonValue::Bool(true)));
    assert_eq!(b[1].0, "screenshot_format");
    assert_eq!(str_of(&b[1].1), Some("png"));
}

#[test]
fn screenshot_fields_for_jpeg_1080p() {
    let b = shot_settings(false, "jpeg", 2, 70);
    assert_eq!(b.len(), 4);
    assert!(matches!(b[0].1, JsonValue::Bool(false)));
    assert_eq!(b[2].0, "screenshot_resolution");
    assert_eq!(str_of(&b[2].1), Some("1920x1080"));
    assert_eq!(b[3].0, "screenshot_jpeg_quality");
    assert!(matches!(b[3].1, JsonValue::Int(70)));
}

#[test]
fn screenshot_fields_out_of_range_preset_is_native() {
    let b = shot_settings(true, "png", 9, 80);
    assert_eq!(b.len(), 2);
}

#[test]
fn short_id_is_the_last_dash_part() {
    assert_eq!(short_id("2026-06-16-ab12cd"), "ab12cd");
    assert_eq!(short_id("plain"), "plain");
    assert_eq!(short_id("trailing-"), "");
    let s = short_id("a-b-c");
    assert!(!s.contains('-'));
    assert!("a-b-c".ends_with(s.as_str()));
}

#[test]
fn last_parts_of_paths_and_repos() {
    assert_eq!(last_path_part("mlx-community/whisper-large-v3"), "whisper-large-v3");
    assert_eq!(last_path_part("/tmp/run/"), "");
    assert_eq!(last_path_part("model"), "model");
    assert_eq!(after_last_char("a.b.c", '.'), "c");
}

#[test]
fn truncate_appends_ellipsis_only_when_longer() {
    assert_eq!(truncate("hello world", 5), "hello…");
    assert_eq!(truncate("hello", 5), "hello");
    assert_eq!(truncate("héllo wörld", 4), "héll…");
    assert_eq!(truncate("", 0), "");
    assert_eq!(truncate("x", 0), "…");
    let t = truncate("abcdefgh", 3);
    assert!(t.chars().count() <= 4);
}

#[test]
fn migrated_legacy_url_keeps_the_endpoint() {
    let (host, port) = migrate_index_url("http://gpu-box:1234/v1/chat/completions").unwrap();
    assert_eq!(index_chat_url("lmstudio", &host, &port), "http://gpu-box:1234/v1/chat/completions");
    let (h2, p2) = migrate_index_url("http://10.0.0.5:8080").unwrap();
    assert_eq!(index_chat_url("lmstudio", &h2, &p2), "http://10.0.0.5:8080/v1/chat/completions");
}

#[test]
fn switching_the_index_provider() {
    assert_eq!(switch_provider("lmstudio", "lmstudio", "1"), None);
    assert_eq!(
        switch_provider("lmstudio", "ollama", "  "),
        Some(("ollama".to_string(), "11434".to_string()))
    );
    assert_eq!(
        switch_provider("lmstudio", "ollama", "8000"),
        Some(("ollama".to_string(), "8000".to_string()))
    );
    assert_eq!(
        switch_provider("ollama", "openai", ""),
        Some(("openai".to_string(), String::new()))
    );
}
