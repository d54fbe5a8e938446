use capture_gui::tools::{
    app_target, AppTarget, bgra_to_rgba, decode_s16le, flag, helper_usage, packet_bytes, parse_helper_args, speech_clip,
    HelperArgs,
};

fn args(v: &[&str]) -> Vec<String> {
    v.iter().map(|s| s.to_string()).collect()
}

#[test]
fn helper_arguments() {
    assert_eq!(
        parse_helper_args(&args(&["--pid", "4242", "--rate", "48000", "--no-tree"])),
        HelperArgs { pid: 4242, rate: 48000, tree: false }
    );
    assert_eq!(parse_helper_args(&[]), HelperArgs { pid: 0, rate: 16000, tree: true });
    assert_eq!(
        parse_helper_args(&args(&["--no-tree", "--tree", "--pid", "7"])),
        HelperArgs { pid: 7, rate: 16000, tree: true }
    );
}

#[test]
fn helper_arguments_with_bad_or_missing_values() {
    assert_eq!(
        parse_helper_args(&args(&["--pid", "abc", "--rate"])),
        HelperArgs { pid: 0, rate: 16000, tree: true }
    );
    assert_eq!(
        parse_helper_args(&args(&["--rate", "fast", "--pid", "9"])),
        HelperArgs { pid: 9, rate: 16000, tree: true }
    );
    assert_eq!(
        parse_helper_args(&args(&["extra", "--pid", "--no-tree"])),
        HelperArgs { pid: 0, rate: 16000, tree: true }
    );
}

#[test]
fn usage_only_without_a_process() {
    assert_eq!(
        helper_usage(&HelperArgs { pid: 0, rate: 16000, tree: true }),
        Some("usage: audiocap_win --pid <PID> [--rate 16000] [--no-tree]")
    );
    assert_eq!(helper_usage(&HelperArgs { pid: 1, rate: 16000, tree: true }), None);
}

#[test]
fn packet_size_is_two_bytes_per_frame() {
    assert_eq!(packet_bytes(0), 0);
    assert_eq!(packet_bytes(480), 960);
    assert_eq!(packet_bytes(u32::MAX), 2 * u32::MAX as u64);
}

#[test]
fn flag_values() {
    let a = args(&["shot", "--pid", "12", "--out", "x.png", "--pid", "13"]);
    assert_eq!(flag(&a, "--pid"), Some("12"));
    assert_eq!(flag(&a, "--out"), Some("x.png"));
    assert_eq!(flag(&a, "--fmt"), None);
    assert_eq!(flag(&args(&["--out"]), "--out"), None);
}

#[test]
fn bgra_pixels_become_rgba() {
    let mut px = vec![1u8, 2, 3, 4, 5, 6, 7, 8, 9, 10];
    bgra_to_rgba(&mut px);
    assert_eq!(px, vec![3, 2, 1, 4, 7, 6, 5, 8, 9, 10]);
    let mut empty: Vec<u8> = vec![];
    bgra_to_rgba(&mut empty);
    assert!(empty.is_empty());
}

#[test]
fn pcm_decoding() {
    assert_eq!(decode_s16le(&[0x01, 0x00, 0xff, 0xff, 0x00, 0x80, 0xff, 0x7f, 0x42]), vec![1, -1, -32768, 32767]);
    assert_eq!(decode_s16le(&[]), Vec::<i16>::new());
}

#[test]
fn speech_clip_skips_two_seconds() {
    let mut b = vec![0u8; 64_000];
    b.extend_from_slice(&[0x10, 0x00, 0x20, 0x00, 0x30]);
    assert_eq!(speech_clip(&b), vec![16, 32]);
    let long = vec![1u8; 64_000 + 1_920_000 + 100];
    assert_eq!(speech_clip(&long).len(), 960_000);
    assert!(speech_clip(&vec![0u8; 64_000]).is_empty());
}

#[test]
fn reordering_twice_restores_the_pixels() {
    let orig = vec![10u8, 20, 30, 40, 50, 60, 70, 80, 90];
    let mut px = orig.clone();
    bgra_to_rgba(&mut px);
    bgra_to_rgba(&mut px);
    assert_eq!(px, orig);
}

#[test]
fn probe_target_selection() {
    assert_eq!(app_target(&args(&["shot", "--pid", "4242"])), AppTarget::Pid(4242));
    assert_eq!(app_target(&args(&["--pid", "-7"])), AppTarget::Pid(-7));
    assert_eq!(
        app_target(&args(&["--pid", "x", "--bundle", "com.apple.Safari"])),
        AppTarget::Bundle("com.apple.Safari".to_string())
    );
    assert_eq!(
        app_target(&args(&["--pid", "9999999999", "--bundle", "b"])),
        AppTarget::Bundle("b".to_string())
    );
    assert_eq!(app_target(&args(&["shot", "display"])), AppTarget::Unnamed);
    assert_eq!(app_target(&args(&["--bundle"])), AppTarget::Unnamed);
}
