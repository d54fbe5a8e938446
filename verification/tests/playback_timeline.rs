use capture_gui::playback::{
    clock_label, frame_at, frames_of, image_extension, load_timeline, sort_frames,
    stamp_millis_of, subtitles_at, subtitles_of, Frame, Player, ShotFile, Subtitle,
    TranscriptLine,
};

const T0: i64 = 20620 * 86_400_000 + 11 * 3_600_000;

fn shot(stem: &str, ext: &str) -> ShotFile {
    ShotFile {
        stem: stem.to_string(),
        extension: ext.to_string(),
        path: format!("/run/screenshots/{stem}.{ext}"),
    }
}

fn line(start: Option<&str>, end: Option<&str>, text: Option<&str>, mic: bool) -> TranscriptLine {
    TranscriptLine {
        start: start.map(String::from),
        end: end.map(String::from),
        text: text.map(String::from),
        mic,
    }
}

fn frame(at: i64, p: &str) -> Frame {
    Frame { at, path: p.to_string() }
}

fn sub(start: i64, end: i64, t: &str) -> Subtitle {
    Subtitle { start, end, text: t.to_string(), mic: false }
}

#[test]
fn image_extensions() {
    for e in ["png", "jpg", "jpeg", "tiff", "gif", "bmp"] {
        assert!(image_extension(e));
    }
    assert!(!image_extension("PNG"));
    assert!(!image_extension("txt"));
    assert!(!image_extension(""));
}

#[test]
fn stamps_in_milliseconds() {
    assert_eq!(stamp_millis_of("2026-06-16T11:00:00.000Z"), Some(T0));
    assert_eq!(stamp_millis_of("2026-06-16T11-00-01.250Z"), Some(T0 + 1250));
    assert_eq!(stamp_millis_of("1970-01-01T00:00:00Z"), Some(0));
    assert_eq!(stamp_millis_of("thumbnail"), None);
}

#[test]
fn frames_keep_images_with_stamp_names() {
    let files = vec![
        shot("2026-06-16T11-00-04.000Z", "png"),
        shot("2026-06-16T11-00-02.000Z", "jpg"),
        shot("notes", "png"),
        shot("2026-06-16T11-00-03.000Z", "txt"),
    ];
    let fr = frames_of(&files);
    assert_eq!(fr.len(), 2);
    assert_eq!(fr[0].at, T0 + 4000);
    assert_eq!(fr[1].at, T0 + 2000);
    assert_eq!(fr[1].path, "/run/screenshots/2026-06-16T11-00-02.000Z.jpg");
}

#[test]
fn sorting_is_by_time_and_stable() {
    let v = vec![frame(30, "c"), frame(10, "a1"), frame(20, "b"), frame(10, "a2")];
    let s = sort_frames(&v);
    let got: Vec<(i64, &str)> = s.iter().map(|f| (f.at, f.path.as_str())).collect();
    assert_eq!(got, vec![(10, "a1"), (10, "a2"), (20, "b"), (30, "c")]);
    assert!(sort_frames(&[]).is_empty());
}

#[test]
fn subtitles_need_a_start_and_text() {
    let lines = vec![
        line(Some("2026-06-16T11:00:01.000Z"), Some("2026-06-16T11:00:03.500Z"), Some(" hi "), false),
        line(Some("2026-06-16T11:00:05.000Z"), None, Some("no end"), true),
        line(Some("2026-06-16T11:00:06.000Z"), Some("garbage"), Some("bad end"), false),
        line(None, None, Some("no start"), false),
        line(Some("2026-06-16T11:00:07.000Z"), None, Some("   "), false),
        line(Some("2026-06-16T11:00:08.000Z"), None, None, false),
        line(Some("later"), None, Some("bad start"), false),
    ];
    let s = subtitles_of(&lines);
    let got: Vec<(i64, i64, &str, bool)> =
        s.iter().map(|x| (x.start - T0, x.end - T0, x.text.as_str(), x.mic)).collect();
    assert_eq!(
        got,
        vec![(1000, 3500, "hi", false), (5000, 7000, "no end", true), (6000, 8000, "bad end", false)]
    );
}

#[test]
fn timeline_orders_everything_and_spans_it() {
    let files = vec![shot("2026-06-16T11-00-10.000Z", "png"), shot("2026-06-16T11-00-02.000Z", "png")];
    let lines = vec![
        line(Some("2026-06-16T11:00:05.000Z"), Some("2026-06-16T11:00:12.000Z"), Some("late"), false),
        line(Some("2026-06-16T11:00:01.000Z"), None, Some("early"), true),
    ];
    let t = load_timeline(&files, &lines);
    assert_eq!(t.frames[0].at, T0 + 2000);
    assert_eq!(t.frames[1].at, T0 + 10_000);
    assert_eq!(t.subtitles[0].text, "early");
    assert_eq!(t.subtitles[1].text, "late");
    assert_eq!(t.start, T0 + 1000);
    assert_eq!(t.end, T0 + 12_000);
}

#[test]
fn empty_timeline_spans_zero() {
    let t = load_timeline(&[], &[]);
    assert!(t.frames.is_empty() && t.subtitles.is_empty());
    assert_eq!((t.start, t.end), (0, 0));
}

#[test]
fn frame_shown_at_the_playhead() {
    let fr = vec![frame(10, "a"), frame(20, "b"), frame(30, "c")];
    assert_eq!(frame_at(&fr, 25), Some(1));
    assert_eq!(frame_at(&fr, 30), Some(2));
    assert_eq!(frame_at(&fr, 99), Some(2));
    assert_eq!(frame_at(&fr, 5), Some(0));
    assert_eq!(frame_at(&[], 5), None);
}

#[test]
fn subtitles_shown_at_the_playhead() {
    let su = vec![sub(0, 10, "a"), sub(5, 20, "b"), sub(30, 40, "c")];
    assert_eq!(subtitles_at(&su, 7), vec![0, 1]);
    assert_eq!(subtitles_at(&su, 10), vec![0, 1]);
    assert_eq!(subtitles_at(&su, 25), vec![1]);
    assert_eq!(subtitles_at(&su, 35), vec![2]);
    assert_eq!(subtitles_at(&su, -1), Vec::<usize>::new());
    assert_eq!(subtitles_at(&[], 3), Vec::<usize>::new());
}

#[test]
fn playhead_steps_stay_in_the_span() {
    let mut p = Player::new(1000, 11_000);
    assert_eq!((p.pos, p.playing), (1000, false));
    p.step(5000);
    assert_eq!(p.pos, 6000);
    p.step(5000);
    p.step(5000);
    assert_eq!(p.pos, 11_000);
    p.step(-5000);
    assert_eq!(p.pos, 6000);
    p.step(i64::MIN);
    assert_eq!(p.pos, 1000);
    p.step(i64::MAX);
    assert_eq!(p.pos, 11_000);
    assert!(!p.playing);
}

#[test]
fn seeking_clamps_and_needs_a_span() {
    let mut p = Player::new(0, 100);
    p.playing = true;
    p.seek(40);
    assert_eq!((p.pos, p.playing), (40, false));
    p.seek(500);
    assert_eq!(p.pos, 100);
    p.seek(-5);
    assert_eq!(p.pos, 0);
    let mut flat = Player::new(7, 7);
    flat.playing = true;
    flat.seek(3);
    assert_eq!((flat.pos, flat.playing), (7, true));
}

#[test]
fn play_runs_to_the_end_and_stops() {
    let mut p = Player::new(0, 500);
    assert!(p.toggle());
    assert!(p.tick());
    assert_eq!(p.pos, 200);
    assert!(p.tick());
    assert_eq!(p.pos, 400);
    assert!(p.tick());
    assert_eq!((p.pos, p.playing), (500, false));
    assert!(!p.tick());
    assert_eq!(p.pos, 500);
    assert!(p.toggle());
    assert_eq!(p.pos, 0);
    assert!(!p.toggle());
    assert!(!p.playing);
}

#[test]
fn clock_read_out() {
    assert_eq!(clock_label(0), "0:00");
    assert_eq!(clock_label(9_999), "0:09");
    assert_eq!(clock_label(61_000), "1:01");
    assert_eq!(clock_label(600_000), "10:00");
    assert_eq!(clock_label(3_725_500), "62:05");
    assert_eq!(clock_label(-4_000), "0:00");
}
