use capture_gui::daemon::{Body, JsonValue};
use capture_gui::state::{
    default_settings, saved_settings, settings_file_of, settings_from_object, GuiSettings, IndexCfg,
};

fn sample() -> GuiSettings {
    GuiSettings {
        shot_format: "jpeg".to_string(),
        shot_res_ix: 2,
        jpeg_quality: 70,
        mic_device: Some("Mic 2".to_string()),
        capture_screenshots: false,
        index: IndexCfg {
            provider: "ollama".to_string(),
            host: "box.local".to_string(),
            port: "11500".to_string(),
            key: "k-1".to_string(),
        },
        index_model: "qwen".to_string(),
        index_preset: "brief".to_string(),
    }
}

fn same(a: &GuiSettings, b: &GuiSettings) {
    assert_eq!(a.shot_format, b.shot_format);
    assert_eq!(a.shot_res_ix, b.shot_res_ix);
    assert_eq!(a.jpeg_quality, b.jpeg_quality);
    assert_eq!(a.mic_device, b.mic_device);
    assert_eq!(a.capture_screenshots, b.capture_screenshots);
    assert_eq!(a.index.provider, b.index.provider);
    assert_eq!(a.index.host, b.index.host);
    assert_eq!(a.index.port, b.index.port);
    assert_eq!(a.index.key, b.index.key);
    assert_eq!(a.index_model, b.index_model);
    assert_eq!(a.index_preset, b.index_preset);
}

fn member(k: &str, v: JsonValue) -> (String, JsonValue) {
    (k.to_string(), v)
}

#[test]
fn saved_object_lists_every_preference() {
    let b = saved_settings(&sample(), 0.25f64.to_bits());
    let keys: Vec<&str> = b.iter().map(|m| m.0.as_str()).collect();
    assert_eq!(
        keys,
        vec![
            "shot_format",
            "shot_res_ix",
            "jpeg_quality",
            "mic_device",
            "capture_screenshots",
            "index_provider",
            "index_host",
            "index_port",
            "index_key",
            "index_model",
            "index_sample_rate",
            "index_preset",
        ]
    );
    assert!(matches!(b[1].1, JsonValue::UInt(2)));
    assert!(matches!(b[2].1, JsonValue::UInt(70)));
    assert!(matches!(&b[3].1, JsonValue::Str(m) if m == "Mic 2"));
    assert!(matches!(b[4].1, JsonValue::Bool(false)));
    assert!(matches!(b[10].1, JsonValue::Float(bits) if f64::from_bits(bits) == 0.25));
}

#[test]
fn saved_settings_read_back_unchanged() {
    let s = sample();
    let back = settings_from_object(&saved_settings(&s, 0.5f64.to_bits()));
    same(&back, &s);
    let mut quiet = sample();
    quiet.mic_device = None;
    let b = saved_settings(&quiet, 0);
    assert!(matches!(b[3].1, JsonValue::Null));
    same(&settings_from_object(&b), &quiet);
}

#[test]
fn blank_provider_reads_back_as_lm_studio() {
    let mut s = sample();
    s.index.provider = String::new();
    s.index.port = String::new();
    let back = settings_from_object(&saved_settings(&s, 0));
    assert_eq!(back.index.provider, "lmstudio");
    assert_eq!(back.index.port, "1234");
}

#[test]
fn empty_object_gives_the_defaults() {
    let back = settings_from_object(&Vec::new());
    same(&back, &default_settings());
}

#[test]
fn values_of_the_wrong_type_fall_back() {
    let b: Body = vec![
        member("shot_format", JsonValue::Int(3)),
        member("shot_res_ix", JsonValue::Str("2".to_string())),
        member("jpeg_quality", JsonValue::Int(-3)),
        member("mic_device", JsonValue::Null),
        member("capture_screenshots", JsonValue::Str("no".to_string())),
        member("index_host", JsonValue::Null),
    ];
    let s = settings_from_object(&b);
    assert_eq!(s.shot_format, "png");
    assert_eq!(s.shot_res_ix, 0);
    assert_eq!(s.jpeg_quality, 80);
    assert_eq!(s.mic_device, None);
    assert!(s.capture_screenshots);
    assert_eq!(s.index.provider, "lmstudio");
    assert_eq!(s.index.host, "");
    assert_eq!(s.index.port, "1234");
    assert_eq!(s.index_preset, "auto");
}

#[test]
fn whole_numbers_and_legacy_url_are_read() {
    let b: Body = vec![
        member("jpeg_quality", JsonValue::Int(55)),
        member("shot_res_ix", JsonValue::UInt(1)),
        member("index_url", JsonValue::Str("http://10.0.0.2:8080/v1".to_string())),
        member("index_preset", JsonValue::Str("detailed".to_string())),
    ];
    let f = settings_file_of(&b);
    assert_eq!(f.jpeg_quality, Some(55));
    assert_eq!(f.shot_res_ix, Some(1));
    assert!(!f.index.has_provider);
    assert_eq!(f.index.legacy_url, "http://10.0.0.2:8080/v1");
    let s = settings_from_object(&b);
    assert_eq!(s.jpeg_quality, 55);
    assert_eq!(s.shot_res_ix, 1);
    assert_eq!(s.index.provider, "lmstudio");
    assert_eq!(s.index.host, "10.0.0.2");
    assert_eq!(s.index.port, "8080");
    assert_eq!(s.index_preset, "detailed");
}

#[test]
fn first_of_repeated_keys_counts() {
    let b: Body = vec![
        member("shot_format", JsonValue::Str("jpeg".to_string())),
        member("shot_format", JsonValue::Str("png".to_string())),
    ];
    assert_eq!(settings_from_object(&b).shot_format, "jpeg");
}
