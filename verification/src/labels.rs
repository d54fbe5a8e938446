//! The texts the client's screens show for its data: window and session rows, device and
//! permission rows, the update row, the language and model fields, and the captions of the
//! playback screen; plus the picker's toggles (the checked windows, the app the microphone
//! goes with).

use vstd::prelude::*;
use crate::daemon::{AsrModel, AudioDevice, Session};
use crate::lang::{
    active_language_name, active_name, language_filter, listed_upto, lowercase_of, LANGUAGE_COUNT,
};
use crate::state::{short_id, short_id_spec, truncate, truncated};
use crate::text::{
    decimal, decimal_string, join2, join3, owned, signed_decimal, signed_decimal_string, str_eq,
    trim, trim_str,
};
use crate::update::UpdateInfo;

verus! {

// ---------------------------------------------------------------------------------------------
// The window picker
// ---------------------------------------------------------------------------------------------

/// The picker row text of a window: its title cut to 44 characters, or `(untitled window)`
/// when the title is blank.
pub open spec fn window_title_text(title: Seq<char>) -> Seq<char> {
    if trim(title).len() == 0 {
        "(untitled window)"@
    } else {
        truncated(title, 44)
    }
}

/// The picker row text of a window.
pub fn window_title_label(title: &str) -> (r: String)
    ensures
        r@ == window_title_text(title@),
{
    let t = trim_str(title);
    if t.as_str().unicode_len() == 0 {
        owned("(untitled window)")
    } else {
        truncate(title, 44)
    }
}

/// The picker's group header of an app with `n` windows.
pub fn group_header(app: &str, n: usize) -> (r: String)
    ensures
        r@ == app@ + "  ("@ + decimal(n as nat) + ")"@,
{
    let d = decimal_string(n as u64);
    let head = join3(app, "  (", d.as_str());
    join2(head.as_str(), ")")
}

/// Every id but `wid`.
pub open spec fn other_than(wid: i64) -> spec_fn(i64) -> bool {
    |x: i64| x != wid
}

/// The window ids checked after clicking window `wid`: it is unchecked when it was checked,
/// else checked.
pub open spec fn toggled(checked: Seq<i64>, wid: i64) -> Seq<i64> {
    if checked.contains(wid) {
        checked.filter(other_than(wid))
    } else {
        checked.push(wid)
    }
}

/// Checks or unchecks window `wid` in the picker.
pub fn toggle_window(checked: &mut Vec<i64>, wid: i64)
    ensures
        final(checked)@ == toggled(old(checked)@, wid),
{
    let ghost before = checked@;
    let n = checked.len();
    let mut found = false;
    let mut i: usize = 0;
    while i < n
        invariant
            n == checked@.len(),
            checked@ == before,
            i <= n,
            found <==> exists|k: int| 0 <= k < i && before[k] == wid,
        decreases n - i,
    {
        if checked[i] == wid {
            found = true;
        }
        i = i + 1;
    }
    assert(found <==> before.contains(wid));
    if found {
        let ghost keep = other_than(wid);
        let mut kept: Vec<i64> = Vec::new();
        let mut j: usize = 0;
        while j < n
            invariant
                n == checked@.len(),
                checked@ == before,
                j <= n,
                keep == other_than(wid),
                kept@ == before.take(j as int).filter(keep),
            decreases n - j,
        {
            proof {
                before.take(j as int).lemma_filter_push(before[j as int], keep);
                assert(before.take(j + 1) =~= before.take(j as int).push(before[j as int]));
            }
            if checked[j] != wid {
                kept.push(checked[j]);
            }
            j = j + 1;
        }
        assert(before.take(n as int) =~= before);
        *checked = kept;
    } else {
        checked.push(wid);
    }
}

/// A window is checked after the toggle exactly when it is `wid` and was not checked, or it is
/// another window that was checked.
pub proof fn lemma_toggled_contains(checked: Seq<i64>, wid: i64, x: i64)
    ensures
        toggled(checked, wid).contains(x) <==> if x == wid {
            !checked.contains(wid)
        } else {
            checked.contains(x)
        },
{
    let p = other_than(wid);
    if checked.contains(wid) {
        let f = checked.filter(p);
        if f.contains(x) {
            checked.lemma_filter_contains_rev(p, x);
            let k = choose|k: int| 0 <= k < f.len() && f[k] == x;
            checked.lemma_filter_pred(p, k);
        }
        if x != wid && checked.contains(x) {
            let k = choose|k: int| 0 <= k < checked.len() && checked[k] == x;
            checked.lemma_filter_contains(p, k);
        }
    } else {
        assert(checked.push(wid)[checked.len() as int] == wid);
        if x != wid && checked.contains(x) {
            let k = choose|k: int| 0 <= k < checked.len() && checked[k] == x;
            assert(checked.push(wid)[k] == x);
        }
        if checked.push(wid).contains(x) && x != wid {
            let k = choose|k: int| 0 <= k < checked.len() + 1 && checked.push(wid)[k] == x;
            assert(k < checked.len());
            assert(checked[k] == x);
        }
    }
}

/// Clicking a window twice leaves the same windows checked.
pub proof fn lemma_toggle_twice(checked: Seq<i64>, wid: i64, x: i64)
    ensures
        toggled(toggled(checked, wid), wid).contains(x) <==> checked.contains(x),
{
    lemma_toggled_contains(checked, wid, x);
    lemma_toggled_contains(checked, wid, wid);
    lemma_toggled_contains(toggled(checked, wid), wid, x);
}

/// The app the microphone goes with after clicking app `app`'s mic toggle: none when it was
/// that app, else that app.
pub fn toggle_mic_app(current: &Option<String>, app: &str) -> (r: Option<String>)
    ensures
        r.deep_view() == if current.deep_view() == Some(app@) {
            None
        } else {
            Some(app@)
        },
{
    match current {
        Some(c) => if str_eq(c.as_str(), app) {
            None
        } else {
            Some(owned(app))
        },
        None => Some(owned(app)),
    }
}

// ---------------------------------------------------------------------------------------------
// Session and device rows
// ---------------------------------------------------------------------------------------------

/// The session row text: short id, state, screenshot count and transcript segment count.
pub open spec fn session_text(s: Session) -> Seq<char> {
    short_id_spec(s.session_id@) + " · "@ + s.state@ + " · "@ + signed_decimal(s.screenshots as int)
        + "s · "@ + signed_decimal(s.transcript_segments as int) + "seg"@
}

/// The session row text.
pub fn session_line(s: &Session) -> (r: String)
    ensures
        r@ == session_text(*s),
{
    let short = short_id(s.session_id.as_str());
    let shots = signed_decimal_string(s.screenshots);
    let segs = signed_decimal_string(s.transcript_segments);
    let a = join3(short.as_str(), " · ", s.state.as_str());
    let b = join3(a.as_str(), " · ", shots.as_str());
    let c = join3(b.as_str(), "s · ", segs.as_str());
    join2(c.as_str(), "seg")
}

/// The device row text: its name, marked when it is the default input.
pub fn device_label(d: &AudioDevice) -> (r: String)
    ensures
        r@ == d.name@ + if d.default {
            " (default)"@
        } else {
            Seq::<char>::empty()
        },
{
    proof {
        reveal_strlit("");
    }
    if d.default {
        join2(d.name.as_str(), " (default)")
    } else {
        join2(d.name.as_str(), "")
    }
}

/// The permission row text for a status, and whether it is granted: `granted`, `undetermined`
/// (not requested), or anything else (not granted, with what it is needed for).
pub open spec fn permission_text(title: Seq<char>, status: Seq<char>, why: Seq<char>) -> (
    Seq<char>,
    bool,
) {
    if status == "granted"@ {
        (title + ": ✓ granted"@, true)
    } else if status == "undetermined"@ {
        (title + ": not requested"@, false)
    } else {
        (title + ": ✗ not granted — needed for "@ + why, false)
    }
}

/// The permission row text and whether the permission is granted.
pub fn permission_status(title: &str, status: &str, why: &str) -> (r: (String, bool))
    ensures
        (r.0@, r.1) == permission_text(title@, status@, why@),
{
    if str_eq(status, "granted") {
        (join2(title, ": ✓ granted"), true)
    } else if str_eq(status, "undetermined") {
        (join2(title, ": not requested"), false)
    } else {
        (join3(title, ": ✗ not granted — needed for ", why), false)
    }
}

/// The update row text when no download runs: the offered version, or that the running build
/// `current` is up to date.
pub fn update_status(current: &str, offer: &Option<UpdateInfo>) -> (r: String)
    ensures
        r@ == match offer {
            Some(o) => "v"@ + o.version@ + " available (you have v"@ + current@ + ")"@,
            None => "v"@ + current@ + " · up to date"@,
        },
{
    match offer {
        Some(o) => {
            let a = join3("v", o.version.as_str(), " available (you have v");
            join3(a.as_str(), current, ")")
        },
        None => join3("v", current, " · up to date"),
    }
}

// ---------------------------------------------------------------------------------------------
// The model catalog
// ---------------------------------------------------------------------------------------------

/// What a model's row says about it.
#[derive(Clone, Copy, PartialEq, Eq, Structural, Debug)]
pub enum ModelStatus {
    /// Downloading, with the fraction received (as `f64` bits).
    Progress(u64),
    /// Downloading, with no progress reported yet.
    Downloading,
    /// The active model, downloaded.
    Active,
    /// The active model, not downloaded yet.
    ActiveNeedsDownload,
    /// Downloaded, not active.
    Downloaded,
    /// Neither.
    Idle,
}

/// A model's row: its status and which of its buttons are shown.
#[derive(Clone, Copy, PartialEq, Eq, Structural, Debug)]
pub struct ModelRow {
    pub status: ModelStatus,
    /// A download runs (the row shows a progress bar).
    pub busy: bool,
    pub download: bool,
    pub make_active: bool,
    pub remove: bool,
}

/// The row of a model, given the download progress the event stream reported for it: a running
/// download shows its progress; an active model says whether it still needs downloading.
/// A model can be downloaded when it is not and no download runs; a downloaded model can be
/// removed, and made active when it is not.
pub open spec fn model_row_of(m: AsrModel, progress: Option<u64>) -> ModelRow {
    let busy = progress is Some || m.downloading;
    ModelRow {
        status: match progress {
            Some(f) => ModelStatus::Progress(f),
            None => if m.downloading {
                ModelStatus::Downloading
            } else if m.active && m.downloaded {
                ModelStatus::Active
            } else if m.active {
                ModelStatus::ActiveNeedsDownload
            } else if m.downloaded {
                ModelStatus::Downloaded
            } else {
                ModelStatus::Idle
            },
        },
        busy,
        download: !m.downloaded && !busy,
        make_active: m.downloaded && !m.active,
        remove: m.downloaded,
    }
}

/// A model's row in the transcription settings.
pub fn model_row(m: &AsrModel, progress: Option<u64>) -> (r: ModelRow)
    ensures
        r == model_row_of(*m, progress),
{
    let busy = progress.is_some() || m.downloading;
    let status = match progress {
        Some(f) => ModelStatus::Progress(f),
        None => if m.downloading {
            ModelStatus::Downloading
        } else if m.active && m.downloaded {
            ModelStatus::Active
        } else if m.active {
            ModelStatus::ActiveNeedsDownload
        } else if m.downloaded {
            ModelStatus::Downloaded
        } else {
            ModelStatus::Idle
        },
    };
    ModelRow {
        status,
        busy,
        download: !m.downloaded && !busy,
        make_active: m.downloaded && !m.active,
        remove: m.downloaded,
    }
}

/// The status text of a row without a progress figure (a progress figure is a percentage of a
/// fraction, written by the application).
pub fn model_status_text(s: ModelStatus) -> (r: Option<&'static str>)
    ensures
        match s {
            ModelStatus::Progress(_) => r is None,
            ModelStatus::Downloading => r matches Some(t) && t@ == "↓ downloading…"@,
            ModelStatus::Active => r matches Some(t) && t@ == "● active"@,
            ModelStatus::ActiveNeedsDownload => r matches Some(t) && t@
                == "● active · needs download"@,
            ModelStatus::Downloaded => r matches Some(t) && t@ == "✓ downloaded"@,
            ModelStatus::Idle => r matches Some(t) && t@ == ""@,
        },
{
    match s {
        ModelStatus::Progress(_) => None,
        ModelStatus::Downloading => Some("↓ downloading…"),
        ModelStatus::Active => Some("● active"),
        ModelStatus::ActiveNeedsDownload => Some("● active · needs download"),
        ModelStatus::Downloaded => Some("✓ downloaded"),
        ModelStatus::Idle => Some(""),
    }
}

/// The heading of the model list: where models come from, or that the daemon has no
/// transcription runtime.
pub fn models_heading(backend_available: bool) -> (r: &'static str)
    ensures
        r@ == if backend_available {
            "Whisper models  (downloaded on demand · ~/.cache/huggingface)"@
        } else {
            "Whisper models  (runtime unavailable in this daemon — capture still works)"@
        },
{
    if backend_available {
        "Whisper models  (downloaded on demand · ~/.cache/huggingface)"
    } else {
        "Whisper models  (runtime unavailable in this daemon — capture still works)"
    }
}

/// The row heading of a model: its name and download size.
pub fn model_title(m: &AsrModel) -> (r: String)
    ensures
        r@ == m.name@ + "  ·  "@ + m.size_label@,
{
    join3(m.name.as_str(), "  ·  ", m.size_label.as_str())
}

// ---------------------------------------------------------------------------------------------
// Settings fields
// ---------------------------------------------------------------------------------------------

/// The language field's text: the typed filter (with a caret) while the list is open, a prompt
/// when it is open and empty and the field focused, else the active language.
pub open spec fn language_field(open: bool, focused: bool, filter: Seq<char>, active: Seq<char>) -> Seq<
    char,
> {
    if open && filter.len() > 0 {
        filter + "▏"@
    } else if open && focused {
        "type to search…"@
    } else if active.len() == 0 {
        "Auto-detect ▾"@
    } else {
        active + " · "@ + active_name(active) + " ▾"@
    }
}

/// The language field's text (`language_field`).
pub fn language_field_text(open: bool, focused: bool, filter: &str, active: &str) -> (r: String)
    ensures
        r@ == language_field(open, focused, filter@, active@),
{
    if open && filter.unicode_len() > 0 {
        join2(filter, "▏")
    } else if open && focused {
        owned("type to search…")
    } else if active.unicode_len() == 0 {
        owned("Auto-detect ▾")
    } else {
        let name = active_language_name(active);
        let head = join3(active, " · ", name.as_str());
        join2(head.as_str(), " ▾")
    }
}

/// The note under the language list when more than the 12 shown rows match.
pub fn more_languages(total: usize) -> (r: Option<String>)
    ensures
        match r {
            Some(t) => total > 12 && t@ == "+"@ + decimal((total - 12) as nat)
                + " more — keep typing"@,
            None => total <= 12,
        },
{
    if total > 12 {
        let d = decimal_string((total - 12) as u64);
        Some(join3("+", d.as_str(), " more — keep typing"))
    } else {
        None
    }
}

/// The language list shown for typed text: at most its first 12 matches, in list order.
pub open spec fn shown_languages(matches: Seq<usize>) -> Seq<usize> {
    if matches.len() > 12 {
        matches.take(12)
    } else {
        matches
    }
}

/// The row under the language list: `no match` when nothing matches, the count of matches not
/// shown when more than 12 do, else none.
pub open spec fn language_list_note(total: nat) -> Option<Seq<char>> {
    if total == 0 {
        Some("no match"@)
    } else if total > 12 {
        Some("+"@ + decimal((total - 12) as nat) + " more — keep typing"@)
    } else {
        None
    }
}

/// The language dropdown for typed text: the positions of the languages shown and the row
/// under them.
pub fn language_list(input: &str) -> (r: (Vec<usize>, Option<String>))
    ensures
        r.0@ == shown_languages(listed_upto(lowercase_of(trim(input@)), LANGUAGE_COUNT as int)),
        r.1.deep_view() == language_list_note(
            listed_upto(lowercase_of(trim(input@)), LANGUAGE_COUNT as int).len(),
        ),
{
    let all = language_filter(input);
    let total = all.len();
    let mut shown: Vec<usize> = Vec::new();
    let k: usize = if total > 12 {
        12
    } else {
        total
    };
    let mut i: usize = 0;
    while i < k
        invariant
            k <= total,
            total == all@.len(),
            i <= k,
            shown@ == all@.take(i as int),
        decreases k - i,
    {
        shown.push(all[i]);
        assert(all@.take(i + 1) =~= all@.take(i as int).push(all@[i as int]));
        i = i + 1;
    }
    assert(all@.take(k as int) =~= shown_languages(all@));
    let note = if total == 0 {
        Some(owned("no match"))
    } else {
        more_languages(total)
    };
    (shown, note)
}

/// One row of the index model dropdown: the model it picks (`""` for the server's default),
/// its text, and whether it is the chosen one.
pub struct ModelChoice {
    pub value: String,
    pub label: String,
    pub active: bool,
}

/// The rows of the index model dropdown: the server's default first, then at most the first 40
/// fetched models.
pub open spec fn model_choice_rows(models: Seq<Seq<char>>, current: Seq<char>) -> Seq<
    (Seq<char>, Seq<char>, bool),
> {
    let n = if models.len() > 40 {
        40
    } else {
        models.len() as int
    };
    seq![(Seq::<char>::empty(), "server default"@, current.len() == 0)] + Seq::new(
        n as nat,
        |k: int| (models[k], models[k], models[k] == current),
    )
}

/// The view of a dropdown row.
pub open spec fn choice_view(c: ModelChoice) -> (Seq<char>, Seq<char>, bool) {
    (c.value@, c.label@, c.active)
}

/// The index model dropdown: its rows, and the hint shown when no model was fetched.
pub fn model_choices(models: &[String], current: &str) -> (r: (Vec<ModelChoice>, Option<&'static str>))
    ensures
        r.0@.map_values(|c: ModelChoice| choice_view(c)) == model_choice_rows(
            models.deep_view(),
            current@,
        ),
        match r.1 {
            Some(h) => models@.len() == 0 && h@ == "no models — set host/port, then Refresh"@,
            None => models@.len() > 0,
        },
{
    proof {
        reveal_strlit("");
    }
    let mut rows: Vec<ModelChoice> = Vec::new();
    rows.push(
        ModelChoice {
            value: String::new(),
            label: owned("server default"),
            active: current.unicode_len() == 0,
        },
    );
    let n = models.len();
    let k: usize = if n > 40 {
        40
    } else {
        n
    };
    let ghost mv = models.deep_view();
    let mut i: usize = 0;
    while i < k
        invariant
            k <= n,
            n == models@.len(),
            mv == models.deep_view(),
            k == if n > 40 {
                40
            } else {
                n
            },
            i <= k,
            rows@.len() == i + 1,
            rows@.map_values(|c: ModelChoice| choice_view(c)) =~= model_choice_rows(mv, current@).take(
                i + 1,
            ),
        decreases k - i,
    {
        let m = models[i].as_str();
        let ghost before = rows@.map_values(|c: ModelChoice| choice_view(c));
        let row = ModelChoice { value: owned(m), label: owned(m), active: str_eq(m, current) };
        let ghost rv = choice_view(row);
        rows.push(row);
        assert(rows@.map_values(|c: ModelChoice| choice_view(c)) =~= before.push(rv));
        assert(model_choice_rows(mv, current@)[i + 1] == rv);
        assert(model_choice_rows(mv, current@).take(i + 2) =~= model_choice_rows(
            mv,
            current@,
        ).take(i + 1).push(rv));
        i = i + 1;
    }
    assert(model_choice_rows(mv, current@).take(k + 1) =~= model_choice_rows(mv, current@));
    let hint = if n == 0 {
        Some("no models — set host/port, then Refresh")
    } else {
        None
    };
    (rows, hint)
}

/// The index model field's text: the chosen model, or the server's default when none is.
pub fn model_field_text(model: &str) -> (r: String)
    ensures
        r@ == if model@.len() == 0 {
            "server default ▾"@
        } else {
            model@ + " ▾"@
        },
{
    if model.unicode_len() == 0 {
        owned("server default ▾")
    } else {
        join2(model, " ▾")
    }
}

// ---------------------------------------------------------------------------------------------
// Confirmations
// ---------------------------------------------------------------------------------------------

/// A destructive action awaiting confirmation: deleting a session, pruning parts of one (with
/// the question asked), or installing an update.
pub enum ConfirmKind {
    DeleteSession(String),
    Prune(String, Vec<String>, String),
    Update(UpdateInfo),
}

/// The buttons that prune a saved capture.
#[derive(Clone, Copy, PartialEq, Eq, Structural, Debug)]
pub enum PruneChoice {
    HalveFrames,
    DeleteFrames,
    RemoveAudio,
}

/// What a prune button does: prune these parts at once, or ask first.
pub enum PruneStep {
    Now(Vec<String>),
    Ask(ConfirmKind),
}

/// The question asked before deleting the screenshots.
pub open spec fn delete_frames_question() -> Seq<char> {
    "Delete all screenshots? The transcript and audio stay."@
}

/// The question asked before removing the audio.
pub open spec fn remove_audio_question() -> Seq<char> {
    "Remove the audio stream? Frees the most disk but disables re-transcribe (the transcript stays)."@
}

/// What prune button `c` does for session `sid`: halving the frames runs at once; deleting the
/// frames or removing the audio asks first.
pub fn prune_step(sid: &str, c: PruneChoice) -> (r: PruneStep)
    ensures
        match c {
            PruneChoice::HalveFrames => r matches PruneStep::Now(parts) && parts.deep_view()
                == seq!["screenshots_halve"@],
            PruneChoice::DeleteFrames => r matches PruneStep::Ask(ConfirmKind::Prune(s, parts, q))
                && s@ == sid@ && parts.deep_view() == seq!["screenshots"@] && q@
                == delete_frames_question(),
            PruneChoice::RemoveAudio => r matches PruneStep::Ask(ConfirmKind::Prune(s, parts, q))
                && s@ == sid@ && parts.deep_view() == seq!["audio"@] && q@
                == remove_audio_question(),
        },
{
    let mut parts: Vec<String> = Vec::new();
    match c {
        PruneChoice::HalveFrames => {
            parts.push(owned("screenshots_halve"));
            assert(parts.deep_view() =~= seq!["screenshots_halve"@]);
            PruneStep::Now(parts)
        },
        PruneChoice::DeleteFrames => {
            parts.push(owned("screenshots"));
            assert(parts.deep_view() =~= seq!["screenshots"@]);
            PruneStep::Ask(
                ConfirmKind::Prune(
                    owned(sid),
                    parts,
                    owned("Delete all screenshots? The transcript and audio stay."),
                ),
            )
        },
        PruneChoice::RemoveAudio => {
            parts.push(owned("audio"));
            assert(parts.deep_view() =~= seq!["audio"@]);
            PruneStep::Ask(
                ConfirmKind::Prune(
                    owned(sid),
                    parts,
                    owned(
                        "Remove the audio stream? Frees the most disk but disables re-transcribe (the transcript stays).",
                    ),
                ),
            )
        },
    }
}

/// The confirmation's title, question and button: deleting names the session's short id,
/// pruning asks its question, an update names the version.
pub fn confirm_texts(k: &ConfirmKind) -> (r: (String, String, &'static str))
    ensures
        match k {
            ConfirmKind::DeleteSession(sid) => r.0@ == "Delete this capture?"@ && r.1@
                == short_id_spec(sid@)
                + " — removes the folder and its record. This can't be undone."@ && r.2@
                == "Delete"@,
            ConfirmKind::Prune(_, _, q) => r.0@ == "Prune this capture?"@ && r.1@ == q@ && r.2@
                == "Remove"@,
            ConfirmKind::Update(info) => r.0@ == "Update Capture?"@ && r.1@ == "Download v"@
                + info.version@
                + " and install it. The app will quit and relaunch (stop any running captures first)."@
                && r.2@ == "Update"@,
        },
{
    match k {
        ConfirmKind::DeleteSession(sid) => {
            let short = short_id(sid.as_str());
            (
                owned("Delete this capture?"),
                join2(
                    short.as_str(),
                    " — removes the folder and its record. This can't be undone.",
                ),
                "Delete",
            )
        },
        ConfirmKind::Prune(_, _, q) => (owned("Prune this capture?"), q.clone(), "Remove"),
        ConfirmKind::Update(info) => (
            owned("Update Capture?"),
            join3(
                "Download v",
                info.version.as_str(),
                " and install it. The app will quit and relaunch (stop any running captures first).",
            ),
            "Update",
        ),
    }
}

// ---------------------------------------------------------------------------------------------
// The playback screen
// ---------------------------------------------------------------------------------------------

/// The playback screen's heading: the short id and whether it is a saved or a live capture.
pub fn playback_heading(sid: &str, finished: bool) -> (r: String)
    ensures
        r@ == short_id_spec(sid@) + " · "@ + if finished {
            "saved capture"@
        } else {
            "● live"@
        },
{
    let short = short_id(sid);
    if finished {
        join3(short.as_str(), " · ", "saved capture")
    } else {
        join3(short.as_str(), " · ", "● live")
    }
}

/// The live caption: the last eight transcript lines (all of them when there are fewer).
pub open spec fn recent(lines: Seq<Seq<char>>) -> Seq<Seq<char>> {
    if lines.len() > 8 {
        lines.skip(lines.len() - 8)
    } else {
        lines
    }
}

/// The live caption lines of a running capture.
pub fn live_caption(lines: &[String]) -> (r: Vec<String>)
    ensures
        r.deep_view() == recent(lines.deep_view()),
{
    let n = lines.len();
    let from: usize = if n > 8 {
        n - 8
    } else {
        0
    };
    let mut r: Vec<String> = Vec::new();
    let mut i: usize = from;
    while i < n
        invariant
            n == lines@.len(),
            from <= i <= n,
            from == if n > 8 {
                n - 8
            } else {
                0
            },
            r.deep_view() =~= lines.deep_view().subrange(from as int, i as int),
        decreases n - i,
    {
        let ghost before = r.deep_view();
        let l = lines[i].clone();
        let ghost lv = l@;
        r.push(l);
        assert(r.deep_view() =~= before.push(lv));
        i = i + 1;
    }
    assert(lines.deep_view().subrange(from as int, n as int) =~= recent(lines.deep_view()));
    r
}

} // verus!
