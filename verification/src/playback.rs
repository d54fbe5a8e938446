//! The playback screen of a saved capture: its timeline (screenshots and subtitles ordered by
//! time, and the time span they cover), the playhead and its controls, and what is shown at
//! the playhead. Times are milliseconds since 1970-01-01, read from the capture's ISO-8601
//! stamps; listing the folder and reading its files is done by the application.

use vstd::prelude::*;
use vstd::seq_lib::to_multiset_insert;
use vstd::seq_lib::to_multiset_build;
use crate::isotime::{parse_iso_epoch, stamp_ms};
use crate::text::{decimal, decimal_string, join2, join3, str_eq, trim, trim_str};

verus! {

// ---------------------------------------------------------------------------------------------
// Ordering by time
// ---------------------------------------------------------------------------------------------

/// The position at which an item with key `k` is inserted into `s`: after every item whose
/// key is at most `k` that comes before the first larger key.
pub open spec fn upper_pos<A>(s: Seq<A>, key: spec_fn(A) -> int, k: int) -> int
    decreases s.len(),
{
    if s.len() == 0 {
        0
    } else if key(s[0]) > k {
        0
    } else {
        1 + upper_pos(s.drop_first(), key, k)
    }
}

/// `s` with `x` inserted after the items whose keys are not larger than its own.
pub open spec fn insert_by_key<A>(s: Seq<A>, key: spec_fn(A) -> int, x: A) -> Seq<A> {
    s.insert(upper_pos(s, key, key(x)), x)
}

/// The items of `s` ordered by key, items with equal keys in their order in `s` (the stable
/// sort `sort_by` performs).
pub open spec fn sorted_by_time<A>(s: Seq<A>, key: spec_fn(A) -> int) -> Seq<A>
    decreases s.len(),
{
    if s.len() == 0 {
        s
    } else {
        insert_by_key(sorted_by_time(s.drop_last(), key), key, s.last())
    }
}

/// Whether the keys of `s` never decrease.
pub open spec fn keys_ascending<A>(s: Seq<A>, key: spec_fn(A) -> int) -> bool {
    forall|i: int, j: int| 0 <= i <= j < s.len() ==> key(#[trigger] s[i]) <= key(#[trigger] s[j])
}

/// The insertion position lies within `s`; the keys before it are at most `k`, and the key at
/// it (if any) is larger.
pub proof fn lemma_upper_pos<A>(s: Seq<A>, key: spec_fn(A) -> int, k: int)
    ensures
        0 <= upper_pos(s, key, k) <= s.len(),
        forall|i: int| 0 <= i < upper_pos(s, key, k) ==> key(#[trigger] s[i]) <= k,
        upper_pos(s, key, k) < s.len() ==> key(s[upper_pos(s, key, k)]) > k,
    decreases s.len(),
{
    if s.len() > 0 && key(s[0]) <= k {
        lemma_upper_pos(s.drop_first(), key, k);
        assert forall|i: int| 0 <= i < upper_pos(s, key, k) implies key(#[trigger] s[i]) <= k by {
            if i > 0 {
                assert(s[i] == s.drop_first()[i - 1]);
            }
        }
    }
}

/// Inserting by key keeps ascending keys ascending.
pub proof fn lemma_insert_keeps_order<A>(s: Seq<A>, key: spec_fn(A) -> int, x: A)
    requires
        keys_ascending(s, key),
    ensures
        keys_ascending(insert_by_key(s, key, x), key),
        insert_by_key(s, key, x).len() == s.len() + 1,
{
    let p = upper_pos(s, key, key(x));
    lemma_upper_pos(s, key, key(x));
    let t = insert_by_key(s, key, x);
    assert forall|i: int, j: int| 0 <= i <= j < t.len() implies key(#[trigger] t[i]) <= key(
        #[trigger] t[j],
    ) by {
        if i < p && j < p {
            assert(t[i] == s[i] && t[j] == s[j]);
        } else if i < p && j == p {
            assert(t[i] == s[i]);
        } else if i < p {
            assert(t[i] == s[i] && t[j] == s[j - 1]);
        } else if i == p && j > p {
            assert(t[j] == s[j - 1]);
            assert(key(s[p]) <= key(s[j - 1]));
        } else if i > p {
            assert(t[i] == s[i - 1] && t[j] == s[j - 1]);
        }
    }
}

/// Sorting by time gives ascending keys and the same items, each as often as before.
pub proof fn lemma_sorted_by_time<A>(s: Seq<A>, key: spec_fn(A) -> int)
    ensures
        keys_ascending(sorted_by_time(s, key), key),
        sorted_by_time(s, key).to_multiset() == s.to_multiset(),
        sorted_by_time(s, key).len() == s.len(),
    decreases s.len(),
{
    if s.len() > 0 {
        let r = sorted_by_time(s.drop_last(), key);
        lemma_sorted_by_time(s.drop_last(), key);
        lemma_insert_keeps_order(r, key, s.last());
        lemma_upper_pos(r, key, key(s.last()));
        to_multiset_insert(r, upper_pos(r, key, key(s.last())), s.last());
        to_multiset_build(s.drop_last(), s.last());
        assert(s.drop_last().push(s.last()) =~= s);
    }
}

/// The insertion position is the first position whose key is larger than `k` (or the length).
pub proof fn lemma_upper_pos_at<A>(s: Seq<A>, key: spec_fn(A) -> int, k: int, p: int)
    requires
        0 <= p <= s.len(),
        forall|i: int| 0 <= i < p ==> key(#[trigger] s[i]) <= k,
        p < s.len() ==> key(s[p]) > k,
    ensures
        upper_pos(s, key, k) == p,
    decreases p,
{
    if p > 0 {
        assert(key(s[0]) <= k);
        assert forall|i: int| 0 <= i < p - 1 implies key(#[trigger] s.drop_first()[i]) <= k by {
            assert(s.drop_first()[i] == s[i + 1]);
        }
        if p < s.len() {
            assert(s.drop_first()[p - 1] == s[p]);
        }
        lemma_upper_pos_at(s.drop_first(), key, k, p - 1);
    }
}

// ---------------------------------------------------------------------------------------------
// Screenshots
// ---------------------------------------------------------------------------------------------

/// A file of the capture's `screenshots` folder: its name's stem, its extension (`""` when it
/// has none) and its path.
pub struct ShotFile {
    pub stem: String,
    pub extension: String,
    pub path: String,
}

/// One screenshot on the timeline: when it was taken and its path.
pub struct Frame {
    pub at: i64,
    pub path: String,
}

/// The mathematical content of a frame.
pub open spec fn frame_view(f: Frame) -> (i64, Seq<char>) {
    (f.at, f.path@)
}

/// The mathematical content of a list of frames.
pub open spec fn frames_view(v: Seq<Frame>) -> Seq<(i64, Seq<char>)> {
    v.map_values(|f: Frame| frame_view(f))
}

/// The time of a frame.
pub open spec fn frame_time() -> spec_fn((i64, Seq<char>)) -> int {
    |f: (i64, Seq<char>)| f.0 as int
}

/// The extensions of the image files shown: `png`, `jpg`, `jpeg`, `tiff`, `gif`, `bmp`.
pub open spec fn is_image_ext(e: Seq<char>) -> bool {
    e == "png"@ || e == "jpg"@ || e == "jpeg"@ || e == "tiff"@ || e == "gif"@ || e == "bmp"@
}

/// The frames of the listed files, in listing order: the images whose stem is a stamp.
pub open spec fn frames_listed(files: Seq<ShotFile>) -> Seq<(i64, Seq<char>)>
    decreases files.len(),
{
    if files.len() == 0 {
        Seq::empty()
    } else {
        let prev = frames_listed(files.drop_last());
        let f = files.last();
        if is_image_ext(f.extension@) && stamp_ms(f.stem@) is Some {
            prev.push(((stamp_ms(f.stem@)->0) as i64, f.path@))
        } else {
            prev
        }
    }
}

/// Whether a file extension is one of an image.
pub fn image_extension(e: &str) -> (r: bool)
    ensures
        r == is_image_ext(e@),
{
    str_eq(e, "png") || str_eq(e, "jpg") || str_eq(e, "jpeg") || str_eq(e, "tiff") || str_eq(
        e,
        "gif",
    ) || str_eq(e, "bmp")
}

/// The milliseconds since the epoch of an ISO-8601 stamp, if it parses.
pub fn stamp_millis_of(s: &str) -> (r: Option<i64>)
    ensures
        match stamp_ms(s@) {
            Some(v) => r == Some(v as i64) && -400_000_000_000_000 <= v <= 400_000_000_000_000,
            None => r is None,
        },
{
    match parse_iso_epoch(s) {
        Some(st) => Some(st.epoch_millis()),
        None => None,
    }
}

/// The frames of the listed screenshot files, in listing order.
pub fn frames_of(files: &[ShotFile]) -> (r: Vec<Frame>)
    ensures
        frames_view(r@) == frames_listed(files@),
{
    let mut r: Vec<Frame> = Vec::new();
    let n = files.len();
    let mut i: usize = 0;
    while i < n
        invariant
            n == files@.len(),
            i <= n,
            frames_view(r@) == frames_listed(files@.take(i as int)),
        decreases n - i,
    {
        assert(files@.take(i + 1).drop_last() =~= files@.take(i as int));
        let f = &files[i];
        if image_extension(f.extension.as_str()) {
            if let Some(at) = stamp_millis_of(f.stem.as_str()) {
                let ghost before = frames_view(r@);
                r.push(Frame { at, path: f.path.clone() });
                assert(frames_view(r@) =~= before.push((at, f.path@)));
            }
        }
        i = i + 1;
    }
    assert(files@.take(n as int) =~= files@);
    r
}

/// A copy of a frame.
fn copy_frame(f: &Frame) -> (r: Frame)
    ensures
        frame_view(r) == frame_view(*f),
{
    Frame { at: f.at, path: f.path.clone() }
}

/// The frames ordered by time (`sort_by` on the time, which is stable).
pub fn sort_frames(v: &[Frame]) -> (r: Vec<Frame>)
    ensures
        frames_view(r@) == sorted_by_time(frames_view(v@), frame_time()),
{
    let ghost key = frame_time();
    let mut out: Vec<Frame> = Vec::new();
    let n = v.len();
    let mut i: usize = 0;
    while i < n
        invariant
            n == v@.len(),
            i <= n,
            key == frame_time(),
            frames_view(out@) == sorted_by_time(frames_view(v@).take(i as int), key),
        decreases n - i,
    {
        let x = copy_frame(&v[i]);
        let m = out.len();
        let mut p: usize = 0;
        while p < m && out[p].at <= x.at
            invariant
                m == out@.len(),
                p <= m,
                forall|j: int| 0 <= j < p ==> (#[trigger] out@[j]).at <= x.at,
            decreases m - p,
        {
            p = p + 1;
        }
        let ghost sv = frames_view(out@);
        proof {
            assert forall|j: int| 0 <= j < p implies key(#[trigger] sv[j]) <= key(frame_view(x)) by {
                assert(sv[j] == frame_view(out@[j]));
            }
            if p < m {
                assert(sv[p as int] == frame_view(out@[p as int]));
            }
            lemma_upper_pos_at(sv, key, key(frame_view(x)), p as int);
            assert(frames_view(v@).take(i + 1).drop_last() =~= frames_view(v@).take(i as int));
            assert(frames_view(v@).take(i + 1).last() == frame_view(v@[i as int]));
        }
        out.insert(p, x);
        assert(frames_view(out@) =~= sv.insert(p as int, frame_view(x)));
        i = i + 1;
    }
    assert(frames_view(v@).take(n as int) =~= frames_view(v@));
    out
}

// ---------------------------------------------------------------------------------------------
// Subtitles
// ---------------------------------------------------------------------------------------------

/// One line of a transcript file as read: its `start`, `end` and `text` where they are strings,
/// and whether the file is the microphone's transcript.
pub struct TranscriptLine {
    pub start: Option<String>,
    pub end: Option<String>,
    pub text: Option<String>,
    pub mic: bool,
}

/// One subtitle on the timeline: when it starts and ends, its text and whether it was heard on
/// the microphone.
pub struct Subtitle {
    pub start: i64,
    pub end: i64,
    pub text: String,
    pub mic: bool,
}

/// The mathematical content of a subtitle.
pub open spec fn subtitle_view(s: Subtitle) -> (i64, i64, Seq<char>, bool) {
    (s.start, s.end, s.text@, s.mic)
}

/// The mathematical content of a list of subtitles.
pub open spec fn subtitles_view(v: Seq<Subtitle>) -> Seq<(i64, i64, Seq<char>, bool)> {
    v.map_values(|s: Subtitle| subtitle_view(s))
}

/// The start of a subtitle.
pub open spec fn subtitle_time() -> spec_fn((i64, i64, Seq<char>, bool)) -> int {
    |s: (i64, i64, Seq<char>, bool)| s.0 as int
}

/// The subtitle a transcript line gives: one with a start stamp and non-blank text; its end is
/// the end stamp, or two seconds after the start when there is none; its text is trimmed.
pub open spec fn subtitle_of(l: TranscriptLine) -> Option<(i64, i64, Seq<char>, bool)> {
    match l.start {
        None => None,
        Some(st) => match stamp_ms(st@) {
            None => None,
            Some(a) => {
                let b = match l.end {
                    Some(e) => match stamp_ms(e@) {
                        Some(x) => x,
                        None => a + 2000,
                    },
                    None => a + 2000,
                };
                let t = trim(
                    match l.text {
                        Some(x) => x@,
                        None => Seq::empty(),
                    },
                );
                if t.len() > 0 {
                    Some((a as i64, b as i64, t, l.mic))
                } else {
                    None
                }
            },
        },
    }
}

/// The subtitles of the lines, in reading order.
pub open spec fn subtitles_listed(lines: Seq<TranscriptLine>) -> Seq<(i64, i64, Seq<char>, bool)>
    decreases lines.len(),
{
    if lines.len() == 0 {
        Seq::empty()
    } else {
        let prev = subtitles_listed(lines.drop_last());
        match subtitle_of(lines.last()) {
            Some(x) => prev.push(x),
            None => prev,
        }
    }
}

/// The subtitle of one transcript line, if it gives one.
fn line_subtitle(l: &TranscriptLine) -> (r: Option<Subtitle>)
    ensures
        match subtitle_of(*l) {
            Some(x) => r matches Some(sub) && subtitle_view(sub) == x,
            None => r is None,
        },
{
    let st = match &l.start {
        Some(st) => st,
        None => return None,
    };
    let a = match stamp_millis_of(st.as_str()) {
        Some(a) => a,
        None => return None,
    };
    let b = match &l.end {
        Some(e) => match stamp_millis_of(e.as_str()) {
            Some(x) => x,
            None => a + 2000,
        },
        None => a + 2000,
    };
    let t = match &l.text {
        Some(x) => trim_str(x.as_str()),
        None => String::new(),
    };
    proof {
        if l.text is None {
            assert(t@ =~= trim(Seq::<char>::empty()));
        }
    }
    if t.as_str().unicode_len() > 0 {
        Some(Subtitle { start: a, end: b, text: t, mic: l.mic })
    } else {
        None
    }
}

/// The subtitles of the transcript lines, in reading order.
pub fn subtitles_of(lines: &[TranscriptLine]) -> (r: Vec<Subtitle>)
    ensures
        subtitles_view(r@) == subtitles_listed(lines@),
{
    let mut r: Vec<Subtitle> = Vec::new();
    let n = lines.len();
    let mut i: usize = 0;
    while i < n
        invariant
            n == lines@.len(),
            i <= n,
            subtitles_view(r@) == subtitles_listed(lines@.take(i as int)),
        decreases n - i,
    {
        assert(lines@.take(i + 1).drop_last() =~= lines@.take(i as int));
        if let Some(sub) = line_subtitle(&lines[i]) {
            let ghost before = subtitles_view(r@);
            let ghost sv = subtitle_view(sub);
            r.push(sub);
            assert(subtitles_view(r@) =~= before.push(sv));
        }
        i = i + 1;
    }
    assert(lines@.take(n as int) =~= lines@);
    r
}

/// A copy of a subtitle.
fn copy_subtitle(s: &Subtitle) -> (r: Subtitle)
    ensures
        subtitle_view(r) == subtitle_view(*s),
{
    Subtitle { start: s.start, end: s.end, text: s.text.clone(), mic: s.mic }
}

/// The subtitles ordered by start (`sort_by` on the start, which is stable).
pub fn sort_subtitles(v: &[Subtitle]) -> (r: Vec<Subtitle>)
    ensures
        subtitles_view(r@) == sorted_by_time(subtitles_view(v@), subtitle_time()),
{
    let ghost key = subtitle_time();
    let mut out: Vec<Subtitle> = Vec::new();
    let n = v.len();
    let mut i: usize = 0;
    while i < n
        invariant
            n == v@.len(),
            i <= n,
            key == subtitle_time(),
            subtitles_view(out@) == sorted_by_time(subtitles_view(v@).take(i as int), key),
        decreases n - i,
    {
        let x = copy_subtitle(&v[i]);
        let m = out.len();
        let mut p: usize = 0;
        while p < m && out[p].start <= x.start
            invariant
                m == out@.len(),
                p <= m,
                forall|j: int| 0 <= j < p ==> (#[trigger] out@[j]).start <= x.start,
            decreases m - p,
        {
            p = p + 1;
        }
        let ghost sv = subtitles_view(out@);
        proof {
            assert forall|j: int| 0 <= j < p implies key(#[trigger] sv[j]) <= key(
                subtitle_view(x),
            ) by {
                assert(sv[j] == subtitle_view(out@[j]));
            }
            if p < m {
                assert(sv[p as int] == subtitle_view(out@[p as int]));
            }
            lemma_upper_pos_at(sv, key, key(subtitle_view(x)), p as int);
            assert(subtitles_view(v@).take(i + 1).drop_last() =~= subtitles_view(v@).take(
                i as int,
            ));
            assert(subtitles_view(v@).take(i + 1).last() == subtitle_view(v@[i as int]));
        }
        out.insert(p, x);
        assert(subtitles_view(out@) =~= sv.insert(p as int, subtitle_view(x)));
        i = i + 1;
    }
    assert(subtitles_view(v@).take(n as int) =~= subtitles_view(v@));
    out
}

// ---------------------------------------------------------------------------------------------
// The timeline
// ---------------------------------------------------------------------------------------------

/// The time interval each item covers: a frame its instant, a subtitle its start to its end.
pub open spec fn intervals(
    frames: Seq<(i64, Seq<char>)>,
    subs: Seq<(i64, i64, Seq<char>, bool)>,
) -> Seq<(int, int)> {
    frames.map_values(|f: (i64, Seq<char>)| (f.0 as int, f.0 as int)) + subs.map_values(
        |x: (i64, i64, Seq<char>, bool)| (x.0 as int, x.1 as int),
    )
}

/// The earliest start and the latest end of the intervals (`None` when there are none).
pub open spec fn span_of(iv: Seq<(int, int)>) -> Option<(int, int)>
    decreases iv.len(),
{
    if iv.len() == 0 {
        None
    } else {
        let l = iv.last();
        match span_of(iv.drop_last()) {
            None => Some(l),
            Some(r) => Some(
                (
                    if l.0 < r.0 {
                        l.0
                    } else {
                        r.0
                    },
                    if l.1 > r.1 {
                        l.1
                    } else {
                        r.1
                    },
                ),
            ),
        }
    }
}

/// The timeline's span: the earliest start and latest end, or `(0, 0)` for an empty timeline.
pub open spec fn timeline_span(iv: Seq<(int, int)>) -> (int, int) {
    match span_of(iv) {
        Some(p) => p,
        None => (0, 0),
    }
}

/// A loaded capture: its frames and subtitles in time order and the span they cover.
pub struct Timeline {
    pub frames: Vec<Frame>,
    pub subtitles: Vec<Subtitle>,
    pub start: i64,
    pub end: i64,
}

/// Folds one more interval into a span.
fn widen(acc: Option<(i64, i64)>, a: i64, b: i64) -> (r: Option<(i64, i64)>)
    ensures
        r matches Some(p) && (p.0 as int, p.1 as int) == match acc {
            None => (a as int, b as int),
            Some(q) => (
                if a < q.0 {
                    a as int
                } else {
                    q.0 as int
                },
                if b > q.1 {
                    b as int
                } else {
                    q.1 as int
                },
            ),
        },
{
    match acc {
        None => Some((a, b)),
        Some((lo, hi)) => Some(
            (
                if a < lo {
                    a
                } else {
                    lo
                },
                if b > hi {
                    b
                } else {
                    hi
                },
            ),
        ),
    }
}

/// The view of an optional span.
pub open spec fn span_view(o: Option<(i64, i64)>) -> Option<(int, int)> {
    match o {
        Some(p) => Some((p.0 as int, p.1 as int)),
        None => None,
    }
}

/// A saved capture's timeline (from what its folder holds): the images of the screenshots folder
/// whose stem is a stamp, and the subtitles of the transcript lines (the speaker transcript's
/// lines, then the microphone's), each ordered by time, with the span they cover.
pub fn load_timeline(files: &[ShotFile], lines: &[TranscriptLine]) -> (t: Timeline)
    ensures
        frames_view(t.frames@) == sorted_by_time(frames_listed(files@), frame_time()),
        subtitles_view(t.subtitles@) == sorted_by_time(subtitles_listed(lines@), subtitle_time()),
        (t.start as int, t.end as int) == timeline_span(
            intervals(frames_view(t.frames@), subtitles_view(t.subtitles@)),
        ),
{
    let listed = frames_of(files);
    let frames = sort_frames(listed.as_slice());
    let heard = subtitles_of(lines);
    let subtitles = sort_subtitles(heard.as_slice());
    let ghost iv = intervals(frames_view(frames@), subtitles_view(subtitles@));
    let nf = frames.len();
    let ns = subtitles.len();
    assert(iv.len() == nf + ns);
    let mut acc: Option<(i64, i64)> = None;
    let mut i: usize = 0;
    while i < nf
        invariant
            nf == frames@.len(),
            ns == subtitles@.len(),
            iv == intervals(frames_view(frames@), subtitles_view(subtitles@)),
            i <= nf,
            span_view(acc) == span_of(iv.take(i as int)),
        decreases nf - i,
    {
        assert(iv.take(i + 1).drop_last() =~= iv.take(i as int));
        assert(iv[i as int] == (frames@[i as int].at as int, frames@[i as int].at as int));
        acc = widen(acc, frames[i].at, frames[i].at);
        i = i + 1;
    }
    let mut j: usize = 0;
    while j < ns
        invariant
            nf == frames@.len(),
            ns == subtitles@.len(),
            iv == intervals(frames_view(frames@), subtitles_view(subtitles@)),
            iv.len() == nf + ns,
            j <= ns,
            span_view(acc) == span_of(iv.take(nf + j)),
        decreases ns - j,
    {
        assert(iv.take(nf + j + 1).drop_last() =~= iv.take(nf + j));
        assert(iv[nf + j] == (subtitles@[j as int].start as int, subtitles@[j as int].end as int));
        acc = widen(acc, subtitles[j].start, subtitles[j].end);
        j = j + 1;
    }
    assert(iv.take(nf + ns) =~= iv);
    let (start, end) = match acc {
        Some(p) => p,
        None => (0, 0),
    };
    Timeline { frames, subtitles, start, end }
}

/// Every interval starts no earlier than the span and ends no later, and the span's ends are
/// an interval's start and an interval's end.
pub proof fn lemma_span_covers(iv: Seq<(int, int)>)
    requires
        iv.len() > 0,
    ensures
        span_of(iv) is Some,
        forall|k: int|
            0 <= k < iv.len() ==> (span_of(iv)->0).0 <= (#[trigger] iv[k]).0 && iv[k].1 <= (
            span_of(iv)->0).1,
        exists|k: int| 0 <= k < iv.len() && (#[trigger] iv[k]).0 == (span_of(iv)->0).0,
        exists|k: int| 0 <= k < iv.len() && (#[trigger] iv[k]).1 == (span_of(iv)->0).1,
    decreases iv.len(),
{
    let d = iv.drop_last();
    let l = iv.last();
    if d.len() > 0 {
        lemma_span_covers(d);
        let r = span_of(d)->0;
        assert forall|k: int| 0 <= k < iv.len() implies (span_of(iv)->0).0 <= (#[trigger] iv[k]).0
            && iv[k].1 <= (span_of(iv)->0).1 by {
            if k < iv.len() - 1 {
                assert(iv[k] == d[k]);
            }
        }
        let k0 = choose|k: int| 0 <= k < d.len() && (#[trigger] d[k]).0 == r.0;
        let k1 = choose|k: int| 0 <= k < d.len() && (#[trigger] d[k]).1 == r.1;
        assert(iv[k0] == d[k0]);
        assert(iv[k1] == d[k1]);
        assert(iv[iv.len() - 1] == l);
    } else {
        assert(iv[0] == l);
    }
}

// ---------------------------------------------------------------------------------------------
// The playhead
// ---------------------------------------------------------------------------------------------

/// The playhead of a loaded capture: the span it moves in, its position and whether it plays.
pub struct Player {
    pub start: i64,
    pub end: i64,
    pub pos: i64,
    pub playing: bool,
}

/// `x` limited to `lo..=hi` (`clamp`).
pub open spec fn clamp(x: int, lo: int, hi: int) -> int {
    if x < lo {
        lo
    } else if x > hi {
        hi
    } else {
        x
    }
}

/// How far the playhead moves per tick while playing (200 ms).
pub open spec fn tick_ms() -> int {
    200
}

/// The playhead after one tick.
pub open spec fn ticked(p: Player) -> Player {
    if p.playing {
        let np = if p.pos + tick_ms() < p.end {
            p.pos + tick_ms()
        } else {
            p.end as int
        };
        Player { pos: np as i64, playing: np < p.end, ..p }
    } else {
        p
    }
}

/// The playhead after `n` ticks.
pub open spec fn ticked_times(p: Player, n: nat) -> Player
    decreases n,
{
    if n == 0 {
        p
    } else {
        ticked_times(ticked(p), (n - 1) as nat)
    }
}

/// Playing always ends: from a playhead within its span, after one tick per 200 ms left (and
/// one more) it has stopped, at the end of the span if it was playing.
pub proof fn lemma_play_reaches_end(p: Player)
    requires
        p.pos <= p.end,
    ensures
        !ticked_times(p, ((p.end - p.pos) / 200 + 1) as nat).playing,
        p.playing ==> ticked_times(p, ((p.end - p.pos) / 200 + 1) as nat).pos == p.end,
    decreases p.end - p.pos,
{
    let n = ((p.end - p.pos) / 200 + 1) as nat;
    if !p.playing {
        lemma_stopped_stays(p, n);
    } else {
        let q = ticked(p);
        if q.playing {
            assert(q.pos == p.pos + 200);
            assert((q.end - q.pos) / 200 + 1 == n - 1) by {
                assert(q.end - q.pos == (p.end - p.pos) - 200);
            }
            lemma_play_reaches_end(q);
        } else {
            assert(q.pos == p.end);
            lemma_stopped_stays(q, (n - 1) as nat);
        }
    }
}

/// A stopped playhead stays where it is.
pub proof fn lemma_stopped_stays(p: Player, n: nat)
    requires
        !p.playing,
    ensures
        ticked_times(p, n) == p,
    decreases n,
{
    if n > 0 {
        lemma_stopped_stays(p, (n - 1) as nat);
    }
}

impl Player {
    /// Whether the playhead lies within the span.
    pub open spec fn within(&self) -> bool {
        self.start <= self.pos <= self.end
    }

    /// A playhead parked at the start of a span, not playing.
    pub fn new(start: i64, end: i64) -> (p: Player)
        ensures
            p == (Player { start, end, pos: start, playing: false }),
            start <= end ==> p.within(),
    {
        Player { start, end, pos: start, playing: false }
    }

    /// Moves the playhead by `delta` milliseconds, kept within the span, and pauses.
    /// A step to the very start or end is a step by `i64::MIN` or `i64::MAX`.
    pub fn step(&mut self, delta: i64)
        requires
            old(self).start <= old(self).end,
        ensures
            final(self).pos == clamp(
                old(self).pos + delta,
                old(self).start as int,
                old(self).end as int,
            ),
            !final(self).playing,
            final(self).start == old(self).start,
            final(self).end == old(self).end,
            final(self).within(),
    {
        let target: i128 = self.pos as i128 + delta as i128;
        self.pos = if target < self.start as i128 {
            self.start
        } else if target > self.end as i128 {
            self.end
        } else {
            target as i64
        };
        self.playing = false;
    }

    /// A click on the track (turned into a time): moves the playhead to `target`,
    /// kept within the span, and pauses; nothing happens for an empty span.
    pub fn seek(&mut self, target: i64)
        ensures
            old(self).end > old(self).start ==> {
                &&& final(self).pos == clamp(
                    target as int,
                    old(self).start as int,
                    old(self).end as int,
                )
                &&& !final(self).playing
                &&& final(self).start == old(self).start
                &&& final(self).end == old(self).end
            },
            old(self).end <= old(self).start ==> *final(self) == *old(self),
    {
        if self.end > self.start {
            self.pos = if target < self.start {
                self.start
            } else if target > self.end {
                self.end
            } else {
                target
            };
            self.playing = false;
        }
    }

    /// Plays or pauses; playing from the end starts over from the start.
    /// Returns whether it now plays.
    pub fn toggle(&mut self) -> (now_playing: bool)
        ensures
            now_playing == final(self).playing,
            final(self).playing == !old(self).playing,
            final(self).pos == if old(self).pos >= old(self).end {
                old(self).start
            } else {
                old(self).pos
            },
            final(self).start == old(self).start,
            final(self).end == old(self).end,
            old(self).start <= old(self).end && old(self).within() ==> final(self).within(),
    {
        if self.pos >= self.end {
            self.pos = self.start;
        }
        self.playing = !self.playing;
        self.playing
    }

    /// One tick of the playback ticker: while playing, the playhead advances 200 ms (never past the
    /// end) and playing stops on reaching the end. Returns whether it was playing (whether the
    /// ticker goes on).
    pub fn tick(&mut self) -> (go: bool)
        ensures
            go == old(self).playing,
            *final(self) == ticked(*old(self)),
            old(self).within() ==> final(self).within(),
    {
        if self.playing {
            if (self.end as i128) - (self.pos as i128) > 200 {
                self.pos = self.pos + 200;
            } else {
                self.pos = self.end;
            }
            if self.pos >= self.end {
                self.playing = false;
            }
            true
        } else {
            false
        }
    }
}

// ---------------------------------------------------------------------------------------------
// What the playhead shows
// ---------------------------------------------------------------------------------------------

/// The last frame taken at or before `pos`.
pub open spec fn last_frame_until(fr: Seq<(i64, Seq<char>)>, pos: int) -> Option<int>
    decreases fr.len(),
{
    if fr.len() == 0 {
        None
    } else if fr.last().0 <= pos {
        Some(fr.len() - 1)
    } else {
        last_frame_until(fr.drop_last(), pos)
    }
}

/// The frame shown at `pos`: the last one taken at or before it, else the first one.
pub open spec fn shown_frame(fr: Seq<(i64, Seq<char>)>, pos: int) -> Option<int> {
    match last_frame_until(fr, pos) {
        Some(i) => Some(i),
        None => if fr.len() > 0 {
            Some(0)
        } else {
            None
        },
    }
}

/// The position of the frame shown at `pos` (the playback screen's image).
pub fn frame_at(frames: &[Frame], pos: i64) -> (r: Option<usize>)
    ensures
        match r {
            Some(i) => shown_frame(frames_view(frames@), pos as int) == Some(i as int),
            None => shown_frame(frames_view(frames@), pos as int) is None,
        },
{
    let ghost fv = frames_view(frames@);
    let mut k = frames.len();
    assert(fv.take(k as int) =~= fv);
    while k > 0 && frames[k - 1].at > pos
        invariant
            k <= frames@.len(),
            fv == frames_view(frames@),
            last_frame_until(fv, pos as int) == last_frame_until(fv.take(k as int), pos as int),
        decreases k,
    {
        assert(fv.take(k as int).drop_last() =~= fv.take(k - 1));
        assert(fv.take(k as int).last() == frame_view(frames@[k - 1]));
        k = k - 1;
    }
    if k > 0 {
        assert(fv.take(k as int).last() == frame_view(frames@[k - 1]));
        Some(k - 1)
    } else if frames.len() > 0 {
        Some(0)
    } else {
        None
    }
}

/// The subtitles running at `pos` (started at or before it, ending at or after it), in order.
pub open spec fn covering(su: Seq<(i64, i64, Seq<char>, bool)>, pos: int) -> Seq<int>
    decreases su.len(),
{
    if su.len() == 0 {
        Seq::empty()
    } else {
        let prev = covering(su.drop_last(), pos);
        if su.last().0 <= pos && pos <= su.last().1 {
            prev.push(su.len() - 1)
        } else {
            prev
        }
    }
}

/// The last subtitle started at or before `pos`.
pub open spec fn last_started(su: Seq<(i64, i64, Seq<char>, bool)>, pos: int) -> Option<int>
    decreases su.len(),
{
    if su.len() == 0 {
        None
    } else if su.last().0 <= pos {
        Some(su.len() - 1)
    } else {
        last_started(su.drop_last(), pos)
    }
}

/// The subtitles shown at `pos`: those running at it, else the last one started before it.
pub open spec fn shown_subtitles(su: Seq<(i64, i64, Seq<char>, bool)>, pos: int) -> Seq<int> {
    let c = covering(su, pos);
    if c.len() > 0 {
        c
    } else {
        match last_started(su, pos) {
            Some(i) => seq![i],
            None => Seq::empty(),
        }
    }
}

/// The positions of the subtitles shown at `pos` (the playback screen's caption box).
pub fn subtitles_at(subs: &[Subtitle], pos: i64) -> (r: Vec<usize>)
    ensures
        r@.map_values(|i: usize| i as int) == shown_subtitles(subtitles_view(subs@), pos as int),
{
    let ghost sv = subtitles_view(subs@);
    let n = subs.len();
    let mut r: Vec<usize> = Vec::new();
    let mut i: usize = 0;
    while i < n
        invariant
            n == subs@.len(),
            i <= n,
            sv == subtitles_view(subs@),
            r@.map_values(|x: usize| x as int) == covering(sv.take(i as int), pos as int),
        decreases n - i,
    {
        assert(sv.take(i + 1).drop_last() =~= sv.take(i as int));
        assert(sv.take(i + 1).last() == subtitle_view(subs@[i as int]));
        if subs[i].start <= pos && pos <= subs[i].end {
            let ghost before = r@.map_values(|x: usize| x as int);
            r.push(i);
            assert(r@.map_values(|x: usize| x as int) =~= before.push(i as int));
        }
        i = i + 1;
    }
    assert(sv.take(n as int) =~= sv);
    if r.len() > 0 {
        return r;
    }
    let mut k = n;
    while k > 0 && subs[k - 1].start > pos
        invariant
            k <= n,
            n == subs@.len(),
            sv == subtitles_view(subs@),
            last_started(sv, pos as int) == last_started(sv.take(k as int), pos as int),
        decreases k,
    {
        assert(sv.take(k as int).drop_last() =~= sv.take(k - 1));
        assert(sv.take(k as int).last() == subtitle_view(subs@[k - 1]));
        k = k - 1;
    }
    let mut out: Vec<usize> = Vec::new();
    if k > 0 {
        assert(sv.take(k as int).last() == subtitle_view(subs@[k - 1]));
        out.push(k - 1);
        assert(out@.map_values(|x: usize| x as int) =~= seq![(k - 1) as int]);
    } else {
        assert(out@.map_values(|x: usize| x as int) =~= Seq::<int>::empty());
    }
    out
}

/// A playback time read-out `m:ss` of `ms` milliseconds (negative times read as zero).
pub open spec fn clock(ms: int) -> Seq<char> {
    let s = if ms > 0 {
        ms / 1000
    } else {
        0
    };
    let sec = s % 60;
    decimal((s / 60) as nat) + ":"@ + if sec < 10 {
        "0"@ + decimal(sec as nat)
    } else {
        decimal(sec as nat)
    }
}

/// The `m:ss` read-out of a playback time.
pub fn clock_label(ms: i64) -> (r: String)
    ensures
        r@ == clock(ms as int),
{
    let s: i64 = if ms > 0 {
        ms / 1000
    } else {
        0
    };
    let m = decimal_string((s / 60) as u64);
    let sec = decimal_string((s % 60) as u64);
    let secs = if s % 60 < 10 {
        join2("0", sec.as_str())
    } else {
        sec
    };
    proof {
        reveal_strlit(":");
        reveal_strlit("0");
    }
    join3(m.as_str(), ":", secs.as_str())
}

} // verus!
