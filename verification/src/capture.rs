//! Capture decisions of the client: which sessions run, what the menu-bar title shows, which
//! microphone a start preset picks, and the captures to start for the checked windows (one
//! session per checked window, app audio recorded once per process, the microphone attached
//! with it when the process belongs to the chosen app), with their request bodies.

use vstd::prelude::*;
use crate::daemon::{body_view, AudioDevice, Body, JsonValue, JsonView, Session, WindowInfo};
use crate::text::{chars_of, join2, decimal, decimal_string, owned, str_eq, trim, trim_str};

verus! {

// ---------------------------------------------------------------------------------------------
// Sessions
// ---------------------------------------------------------------------------------------------

/// Whether a session in state `state` is running.
pub open spec fn is_running(state: Seq<char>) -> bool {
    state == "running"@
}

/// Whether a session in state `state` has finished (it is not running, starting or stopping).
pub open spec fn is_finished(state: Seq<char>) -> bool {
    !(state == "running"@ || state == "starting"@ || state == "stopping"@)
}

/// Whether a session has finished.
pub fn session_finished(state: &str) -> (r: bool)
    ensures
        r == is_finished(state@),
{
    !(str_eq(state, "running") || str_eq(state, "starting") || str_eq(state, "stopping"))
}

/// The ids of the running sessions, in order.
pub open spec fn running_ids(s: Seq<Session>) -> Seq<Seq<char>>
    decreases s.len(),
{
    if s.len() == 0 {
        Seq::empty()
    } else if is_running(s.last().state@) {
        running_ids(s.drop_last()).push(s.last().session_id@)
    } else {
        running_ids(s.drop_last())
    }
}

/// The ids of the running sessions (what "stop all" stops).
pub fn running_session_ids(sessions: &[Session]) -> (r: Vec<String>)
    ensures
        r.deep_view() == running_ids(sessions@),
{
    let mut r: Vec<String> = Vec::new();
    let n = sessions.len();
    let mut i: usize = 0;
    while i < n
        invariant
            n == sessions@.len(),
            i <= n,
            r.deep_view() == running_ids(sessions@.take(i as int)),
        decreases n - i,
    {
        assert(sessions@.take(i + 1).drop_last() =~= sessions@.take(i as int));
        if str_eq(sessions[i].state.as_str(), "running") {
            let ghost before = r.deep_view();
            let id = sessions[i].session_id.clone();
            let ghost idv = id@;
            r.push(id);
            assert(r.deep_view() =~= before.push(idv));
        }
        i = i + 1;
    }
    assert(sessions@.take(n as int) =~= sessions@);
    r
}

/// What the capture hotkey does: stop all running captures, or open the preset picker.
#[derive(Clone, Copy, PartialEq, Eq, Structural, Debug)]
pub enum ToggleAction {
    StopAll,
    OpenPresetPicker,
}

/// The capture hotkey's action: stop everything when something runs, else offer the presets.
pub fn toggle_action(sessions: &[Session]) -> (r: ToggleAction)
    ensures
        r == if running_ids(sessions@).len() > 0 {
            ToggleAction::StopAll
        } else {
            ToggleAction::OpenPresetPicker
        },
{
    let ids = running_session_ids(sessions);
    if ids.len() > 0 {
        ToggleAction::StopAll
    } else {
        ToggleAction::OpenPresetPicker
    }
}

/// The id of the newest (last listed) running session, if any.
pub open spec fn newest_running(s: Seq<Session>) -> Option<Seq<char>> {
    let ids = running_ids(s);
    if ids.len() == 0 {
        None
    } else {
        Some(ids.last())
    }
}

/// The session the live pane defaults to: the newest running one.
pub fn newest_running_session(sessions: &[Session]) -> (r: Option<String>)
    ensures
        r.deep_view() == newest_running(sessions@),
{
    let mut ids = running_session_ids(sessions);
    let ghost all = ids.deep_view();
    match ids.pop() {
        Some(id) => {
            assert(id@ == all.last());
            Some(id)
        },
        None => None,
    }
}

/// The menu-bar title for `n` running captures.
pub open spec fn tray_title_spec(n: nat) -> Seq<char> {
    if n == 0 {
        "● capture"@
    } else {
        "⦿ "@ + decimal(n)
    }
}

/// The menu-bar title (`set_running`'s title).
pub fn tray_title(n: usize) -> (r: String)
    ensures
        r@ == tray_title_spec(n as nat),
{
    if n == 0 {
        owned("● capture")
    } else {
        let d = decimal_string(n as u64);
        join2("⦿ ", d.as_str())
    }
}

/// The menu-bar status item, by the title it last showed (the icon itself is the platform's).
pub struct Tray {
    pub last_title: String,
}

impl Tray {
    /// The title the status item is built with.
    pub fn new() -> (t: Tray)
        ensures
            t.last_title@ == tray_title_spec(0),
    {
        Tray { last_title: owned("● capture") }
    }

    /// `set_running`: the title to show for `n` running captures, when it differs from the one
    /// shown (which it then becomes); nothing when it is already shown.
    pub fn set_running(&mut self, n: usize) -> (r: Option<String>)
        ensures
            final(self).last_title@ == tray_title_spec(n as nat),
            match r {
                Some(t) => t@ == tray_title_spec(n as nat) && old(self).last_title@ != t@,
                None => old(self).last_title@ == tray_title_spec(n as nat),
            },
    {
        let title = tray_title(n);
        if str_eq(title.as_str(), self.last_title.as_str()) {
            None
        } else {
            self.last_title = title.clone();
            Some(title)
        }
    }
}

/// The tray menu's items.
#[derive(Clone, Copy, PartialEq, Eq, Structural, Debug)]
pub enum MenuAction {
    StopAll,
    OpenWindow,
    Quit,
    Nothing,
}

/// What a tray menu item does, by its id (`stop_all`, `open`, `quit`).
pub fn menu_action(id: &str) -> (r: MenuAction)
    ensures
        r == if id@ == "stop_all"@ {
            MenuAction::StopAll
        } else if id@ == "open"@ {
            MenuAction::OpenWindow
        } else if id@ == "quit"@ {
            MenuAction::Quit
        } else {
            MenuAction::Nothing
        },
{
    if str_eq(id, "stop_all") {
        MenuAction::StopAll
    } else if str_eq(id, "open") {
        MenuAction::OpenWindow
    } else if str_eq(id, "quit") {
        MenuAction::Quit
    } else {
        MenuAction::Nothing
    }
}

/// Where the playback screen of session `id` reads from: its directory and whether it has
/// finished (`("", false)` when the session is not listed).
pub open spec fn playback_source(s: Seq<Session>, id: Seq<char>) -> (Seq<char>, bool)
    decreases s.len(),
{
    if s.len() == 0 {
        (Seq::empty(), false)
    } else if s[0].session_id@ == id {
        (s[0].dir@, is_finished(s[0].state@))
    } else {
        playback_source(s.drop_first(), id)
    }
}

/// The directory and finished flag of the first listed session with id `id`.
pub fn playback_target(sessions: &[Session], id: &str) -> (r: (String, bool))
    ensures
        (r.0@, r.1) == playback_source(sessions@, id@),
{
    let n = sessions.len();
    let mut i: usize = 0;
    assert(sessions@.subrange(0, n as int) =~= sessions@);
    while i < n
        invariant
            n == sessions@.len(),
            i <= n,
            playback_source(sessions@, id@) == playback_source(
                sessions@.subrange(i as int, n as int),
                id@,
            ),
        decreases n - i,
    {
        assert(sessions@.subrange(i as int, n as int).drop_first() =~= sessions@.subrange(
            i + 1,
            n as int,
        ));
        if str_eq(sessions[i].session_id.as_str(), id) {
            return (sessions[i].dir.clone(), session_finished(sessions[i].state.as_str()));
        }
        i = i + 1;
    }
    (String::new(), false)
}

// ---------------------------------------------------------------------------------------------
// Start presets
// ---------------------------------------------------------------------------------------------

/// The first device marked default, else the first device.
pub open spec fn default_mic(mics: Seq<AudioDevice>) -> Option<Seq<char>>
    decreases mics.len(),
{
    let d = first_default(mics);
    if d is Some {
        d
    } else if mics.len() > 0 {
        Some(mics[0].id@)
    } else {
        None
    }
}

/// The id of the first device marked default.
pub open spec fn first_default(mics: Seq<AudioDevice>) -> Option<Seq<char>>
    decreases mics.len(),
{
    if mics.len() == 0 {
        None
    } else if mics[0].default {
        Some(mics[0].id@)
    } else {
        first_default(mics.drop_first())
    }
}

/// The microphone after choosing preset `preset`: `meeting` keeps the chosen one or picks the
/// default (else first) device; `coding` and `lecture` turn it off; the others leave it.
pub open spec fn preset_mic_spec(
    preset: Seq<char>,
    current: Option<Seq<char>>,
    mics: Seq<AudioDevice>,
) -> Option<Seq<char>> {
    if preset == "meeting"@ {
        if current is None {
            default_mic(mics)
        } else {
            current
        }
    } else if preset == "coding"@ || preset == "lecture"@ {
        None
    } else {
        current
    }
}

/// The microphone chosen when a capture starts with preset `preset`.
pub fn preset_mic(preset: &str, current: &Option<String>, mics: &[AudioDevice]) -> (r: Option<
    String,
>)
    ensures
        r.deep_view() == preset_mic_spec(preset@, current.deep_view(), mics@),
        !(preset@ == "meeting"@ || preset@ == "coding"@ || preset@ == "lecture"@) ==> r.deep_view()
            == current.deep_view(),
        (preset@ == "coding"@ || preset@ == "lecture"@) ==> r is None,
        preset@ == "meeting"@ && current is Some ==> r.deep_view() == current.deep_view(),
{
    proof {
        lemma_mic_presets_differ();
    }
    if str_eq(preset, "meeting") {
        match current {
            Some(c) => Some(c.clone()),
            None => {
                let n = mics.len();
                let mut i: usize = 0;
                assert(mics@.subrange(0, n as int) =~= mics@);
                while i < n
                    invariant
                        n == mics@.len(),
                        i <= n,
                        preset@ == "meeting"@,
                        "coding"@ != "meeting"@,
                        "lecture"@ != "meeting"@,
                        current.deep_view() is None,
                        first_default(mics@) == first_default(
                            mics@.subrange(i as int, n as int),
                        ),
                    decreases n - i,
                {
                    assert(mics@.subrange(i as int, n as int).drop_first() =~= mics@.subrange(
                        i + 1,
                        n as int,
                    ));
                    if mics[i].default {
                        return Some(mics[i].id.clone());
                    }
                    i = i + 1;
                }
                if n > 0 {
                    Some(mics[0].id.clone())
                } else {
                    None
                }
            },
        }
    } else if str_eq(preset, "coding") || str_eq(preset, "lecture") {
        None
    } else {
        match current {
            Some(c) => Some(c.clone()),
            None => None,
        }
    }
}

/// The start-capture presets: `(id, label, hint)`.
pub open spec fn capture_preset(i: int) -> (Seq<char>, Seq<char>, Seq<char>) {
    if i == 0 {
        ("auto"@, "Auto"@, "Classify per frame; adapts as the screen changes."@)
    } else if i == 1 {
        (
            "meeting"@,
            "Meeting"@,
            "Video call/standup — mic on; captures participants, active speaker, task assignments."@,
        )
    } else if i == 2 {
        (
            "coding"@,
            "Coding / tutorial"@,
            "An IDE or coding video — extracts verbatim code at high resolution."@,
        )
    } else if i == 3 {
        (
            "lecture"@,
            "Lecture / explainer"@,
            "A slide/explainer tutorial — topics, key points, formulas."@,
        )
    } else if i == 4 {
        ("general"@, "General"@, "Plain capture; index auto-classifies."@)
    } else {
        (
            "custom"@,
            "Custom"@,
            "Use your current capture settings — set resolution, mic, and language in Settings."@,
        )
    }
}

/// The number of start-capture presets.
pub const CAPTURE_PRESET_COUNT: usize = 6;

/// Start-capture preset `i`.
pub fn capture_preset_at(i: usize) -> (r: (&'static str, &'static str, &'static str))
    requires
        i < CAPTURE_PRESET_COUNT,
    ensures
        (r.0@, r.1@, r.2@) == capture_preset(i as int),
{
    if i == 0 {
        ("auto", "Auto", "Classify per frame; adapts as the screen changes.")
    } else if i == 1 {
        (
            "meeting",
            "Meeting",
            "Video call/standup — mic on; captures participants, active speaker, task assignments.",
        )
    } else if i == 2 {
        (
            "coding",
            "Coding / tutorial",
            "An IDE or coding video — extracts verbatim code at high resolution.",
        )
    } else if i == 3 {
        (
            "lecture",
            "Lecture / explainer",
            "A slide/explainer tutorial — topics, key points, formulas.",
        )
    } else if i == 4 {
        ("general", "General", "Plain capture; index auto-classifies.")
    } else {
        (
            "custom",
            "Custom",
            "Use your current capture settings — set resolution, mic, and language in Settings.",
        )
    }
}

// ---------------------------------------------------------------------------------------------
// Planning the captures of the checked windows
// ---------------------------------------------------------------------------------------------

/// One capture to start.
pub struct CapturePlan {
    pub pid: i64,
    pub window_id: i64,
    /// Whether this capture records the app's audio (the first checked window of its process).
    pub capture_audio: bool,
    /// The microphone attached to it, if any.
    pub mic_device: Option<String>,
}

/// The mathematical content of a plan.
pub struct PlanView {
    pub pid: i64,
    pub window_id: i64,
    pub capture_audio: bool,
    pub mic_device: Option<Seq<char>>,
}

impl View for CapturePlan {
    type V = PlanView;

    open spec fn view(&self) -> PlanView {
        PlanView {
            pid: self.pid,
            window_id: self.window_id,
            capture_audio: self.capture_audio,
            mic_device: self.mic_device.deep_view(),
        }
    }
}

/// The checked windows, in picker order.
pub open spec fn checked_windows(ws: Seq<WindowInfo>, checked: Seq<i64>) -> Seq<WindowInfo>
    decreases ws.len(),
{
    if ws.len() == 0 {
        Seq::empty()
    } else if checked.contains(ws.last().window_id) {
        checked_windows(ws.drop_last(), checked).push(ws.last())
    } else {
        checked_windows(ws.drop_last(), checked)
    }
}

/// Whether window `i` of `cw` is the first of its process.
pub open spec fn first_of_process(cw: Seq<WindowInfo>, i: int) -> bool {
    forall|j: int| 0 <= j < i ==> cw[j].pid != cw[i].pid
}

/// Whether window `i` of `cw` is the first of its app (by app name).
pub open spec fn first_of_app(cw: Seq<WindowInfo>, i: int) -> bool {
    forall|j: int| 0 <= j < i ==> cw[j].app_name@ != cw[i].app_name@
}

/// The plan for window `i` of the checked windows `cw`: it records its app's audio when it is
/// the first window of its process, and the microphone goes with the first window of the app
/// the microphone is chosen for.
pub open spec fn plan_at(
    cw: Seq<WindowInfo>,
    i: int,
    mic_app: Option<Seq<char>>,
    mic_device: Option<Seq<char>>,
) -> PlanView {
    let audio = first_of_process(cw, i);
    PlanView {
        pid: cw[i].pid,
        window_id: cw[i].window_id,
        capture_audio: audio,
        mic_device: if first_of_app(cw, i) && mic_device is Some && mic_app == Some(cw[i].app_name@) {
            mic_device
        } else {
            None
        },
    }
}

/// The captures to start: one per checked window, in picker order.
pub open spec fn plans(
    ws: Seq<WindowInfo>,
    checked: Seq<i64>,
    mic_app: Option<Seq<char>>,
    mic_device: Option<Seq<char>>,
) -> Seq<PlanView> {
    let cw = checked_windows(ws, checked);
    Seq::new(cw.len(), |i: int| plan_at(cw, i, mic_app, mic_device))
}

/// Whether `v` occurs in a slice.
fn contains_i64(v: &[i64], x: i64) -> (r: bool)
    ensures
        r == v@.contains(x),
{
    let n = v.len();
    let mut i: usize = 0;
    while i < n
        invariant
            n == v@.len(),
            i <= n,
            forall|j: int| 0 <= j < i ==> v@[j] != x,
        decreases n - i,
    {
        if v[i] == x {
            return true;
        }
        i = i + 1;
    }
    false
}

/// The captures to start, for the windows of the picker, the checked window ids, the
/// app the microphone goes with and the chosen microphone.
pub fn plan_captures(
    windows: &[WindowInfo],
    checked: &[i64],
    mic_app: &Option<String>,
    mic_device: &Option<String>,
) -> (r: Vec<CapturePlan>)
    ensures
        r@.len() == plans(windows@, checked@, mic_app.deep_view(), mic_device.deep_view()).len(),
        forall|i: int|
            0 <= i < r@.len() ==> #[trigger] r@[i]@ == plans(
                windows@,
                checked@,
                mic_app.deep_view(),
                mic_device.deep_view(),
            )[i],
{
    let ghost ma = mic_app.deep_view();
    let ghost md = mic_device.deep_view();
    let mut out: Vec<CapturePlan> = Vec::new();
    let mut seen: Vec<i64> = Vec::new();
    let mut mic_given = false;
    let n = windows.len();
    let mut k: usize = 0;
    while k < n
        invariant
            n == windows@.len(),
            k <= n,
            ma == mic_app.deep_view(),
            md == mic_device.deep_view(),
            mic_given == (ma is Some && exists|j: int|
                0 <= j < checked_windows(windows@.take(k as int), checked@).len()
                    && #[trigger] checked_windows(windows@.take(k as int), checked@)[j].app_name@
                    == ma->0),
            out@.len() == checked_windows(windows@.take(k as int), checked@).len(),
            seen@.len() == out@.len(),
            forall|i: int|
                0 <= i < out@.len() ==> #[trigger] out@[i]@ == plan_at(
                    checked_windows(windows@.take(k as int), checked@),
                    i,
                    ma,
                    md,
                ),
            forall|i: int|
                0 <= i < seen@.len() ==> #[trigger] seen@[i] == checked_windows(
                    windows@.take(k as int),
                    checked@,
                )[i].pid,
        decreases n - k,
    {
        let ghost cw = checked_windows(windows@.take(k as int), checked@);
        assert(windows@.take(k + 1).drop_last() =~= windows@.take(k as int));
        assert(windows@.take(k + 1).last() == windows@[k as int]);
        let w = &windows[k];
        if contains_i64(checked, w.window_id) {
            let ghost cw2 = cw.push(windows@[k as int]);
            assert(checked_windows(windows@.take(k + 1), checked@) == cw2);
            let first = !contains_i64(seen.as_slice(), w.pid);
            assert(first == first_of_process(cw2, cw.len() as int)) by {
                if !first {
                    let j = choose|j: int| 0 <= j < seen@.len() && seen@[j] == w.pid;
                    assert(cw2[j].pid == cw2[cw.len() as int].pid);
                } else {
                    assert forall|j: int| 0 <= j < cw.len() implies #[trigger] cw2[j].pid != cw2[
                        cw.len() as int
                    ].pid by {
                        assert(seen@[j] == cw[j].pid);
                    }
                }
            }
            let of_mic_app = match mic_app {
                Some(a) => str_eq(a.as_str(), w.app_name.as_str()),
                None => false,
            };
            let wants_mic = of_mic_app && !mic_given && mic_device.is_some();
            assert(wants_mic == (first_of_app(cw2, cw.len() as int) && md is Some && ma == Some(
                cw2[cw.len() as int].app_name@,
            ))) by {
                if of_mic_app && mic_given {
                    let j = choose|j: int| 0 <= j < cw.len() && #[trigger] cw[j].app_name@ == ma->0;
                    assert(cw2[j] == cw[j]);
                }
                if of_mic_app && !mic_given {
                    assert forall|j: int| 0 <= j < cw.len() implies (#[trigger] cw2[j]).app_name@
                        != cw2[cw.len() as int].app_name@ by {
                        assert(cw2[j] == cw[j]);
                    }
                }
                if !of_mic_app && ma is Some && first_of_app(cw2, cw.len() as int) {
                    assert(ma != Some(cw2[cw.len() as int].app_name@));
                }
            }
            if of_mic_app {
                mic_given = true;
            }
            assert(mic_given == (ma is Some && exists|j: int|
                0 <= j < cw2.len() && #[trigger] cw2[j].app_name@ == ma->0)) by {
                if of_mic_app {
                    assert(cw2[cw.len() as int].app_name@ == ma->0);
                }
                if mic_given && !of_mic_app {
                    let j = choose|j: int| 0 <= j < cw.len() && #[trigger] cw[j].app_name@ == ma->0;
                    assert(cw2[j] == cw[j]);
                }
                if !mic_given && ma is Some {
                    assert forall|j: int| 0 <= j < cw2.len() implies #[trigger] cw2[j].app_name@
                        != ma->0 by {
                        if j < cw.len() {
                            assert(cw2[j] == cw[j]);
                        }
                    }
                }
            }
            let mic = if wants_mic {
                match mic_device {
                    Some(d) => Some(d.clone()),
                    None => None,
                }
            } else {
                None
            };
            seen.push(w.pid);
            out.push(CapturePlan { pid: w.pid, window_id: w.window_id, capture_audio: first, mic_device: mic });
            assert forall|i: int| 0 <= i < out@.len() implies #[trigger] out@[i]@ == plan_at(
                cw2,
                i,
                ma,
                md,
            ) by {
                if i < cw.len() {
                    assert(first_of_process(cw2, i) == first_of_process(cw, i)) by {
                        assert forall|j: int| 0 <= j < i implies cw2[j] == cw[j] by {}
                    }
                    assert(first_of_app(cw2, i) == first_of_app(cw, i)) by {
                        assert forall|j: int| 0 <= j < i implies cw2[j] == cw[j] by {}
                    }
                }
            }
        } else {
            assert(checked_windows(windows@.take(k + 1), checked@) == cw);
        }
        k = k + 1;
    }
    assert(windows@.take(n as int) =~= windows@);
    out
}

/// Every process records its audio exactly once: the first checked window of a process
/// captures the app audio, and no later one does.
pub proof fn lemma_one_audio_per_process(
    ws: Seq<WindowInfo>,
    checked: Seq<i64>,
    mic_app: Option<Seq<char>>,
    mic_device: Option<Seq<char>>,
    i: int,
    j: int,
)
    requires
        0 <= i < j < plans(ws, checked, mic_app, mic_device).len(),
        plans(ws, checked, mic_app, mic_device)[i].pid == plans(
            ws,
            checked,
            mic_app,
            mic_device,
        )[j].pid,
    ensures
        !plans(ws, checked, mic_app, mic_device)[j].capture_audio,
{
}

/// Every process among the plans has one plan that records its audio.
pub proof fn lemma_some_audio_per_process(
    ws: Seq<WindowInfo>,
    checked: Seq<i64>,
    mic_app: Option<Seq<char>>,
    mic_device: Option<Seq<char>>,
    j: int,
)
    requires
        0 <= j < plans(ws, checked, mic_app, mic_device).len(),
    ensures
        exists|i: int|
            0 <= i <= j && #[trigger] plans(ws, checked, mic_app, mic_device)[i].capture_audio
                && plans(ws, checked, mic_app, mic_device)[i].pid == plans(
                ws,
                checked,
                mic_app,
                mic_device,
            )[j].pid,
    decreases j,
{
    let p = plans(ws, checked, mic_app, mic_device);
    if !p[j].capture_audio {
        let cw = checked_windows(ws, checked);
        let k = choose|k: int| 0 <= k < j && cw[k].pid == cw[j].pid;
        lemma_some_audio_per_process(ws, checked, mic_app, mic_device, k);
        let i = choose|i: int| 0 <= i <= k && #[trigger] p[i].capture_audio && p[i].pid == p[k].pid;
        assert(p[i].capture_audio);
    }
}

/// The microphone goes with exactly one capture: the first checked window of the app it is
/// chosen for. It is the chosen microphone, and no other capture carries one.
pub proof fn lemma_mic_on_first_window_of_app(
    ws: Seq<WindowInfo>,
    checked: Seq<i64>,
    mic_app: Option<Seq<char>>,
    mic_device: Option<Seq<char>>,
    i: int,
    j: int,
)
    requires
        0 <= i < plans(ws, checked, mic_app, mic_device).len(),
        0 <= j < plans(ws, checked, mic_app, mic_device).len(),
        plans(ws, checked, mic_app, mic_device)[i].mic_device is Some,
        i != j,
    ensures
        plans(ws, checked, mic_app, mic_device)[i].mic_device == mic_device,
        mic_app == Some(checked_windows(ws, checked)[i].app_name@),
        forall|k: int|
            0 <= k < i ==> (#[trigger] checked_windows(ws, checked)[k]).app_name@ != mic_app->0,
        plans(ws, checked, mic_app, mic_device)[j].mic_device is None,
{
    let cw = checked_windows(ws, checked);
    if j < i {
        assert(cw[j].app_name@ != cw[i].app_name@);
    } else {
        assert(plan_at(cw, j, mic_app, mic_device).mic_device is Some ==> cw[i].app_name@
            != cw[j].app_name@);
    }
}


/// The `f64` bits of the screenshot interval sent with a capture (2.0 seconds).
pub open spec fn interval_bits() -> u64 {
    0x4000_0000_0000_0000
}

/// The request body of a planned capture: output directory, process, window, app audio, the
/// screenshot interval, the microphone when attached, then the screenshot settings.
pub open spec fn capture_body_spec(
    out_dir: Seq<char>,
    p: PlanView,
    shot: Seq<(Seq<char>, JsonView)>,
) -> Seq<(Seq<char>, JsonView)> {
    let base = seq![
        ("output_dir"@, JsonView::Str(out_dir)),
        ("pid"@, JsonView::Int(p.pid)),
        ("window_id"@, JsonView::Int(p.window_id)),
        ("audio_source"@, JsonView::Str("app"@)),
        ("capture_audio"@, JsonView::Bool(p.capture_audio)),
        ("screenshot_interval"@, JsonView::Float(interval_bits())),
    ];
    let with_mic = match p.mic_device {
        Some(m) => base.push(("mic_device"@, JsonView::Str(m))),
        None => base,
    };
    with_mic + shot
}

/// A copy of a body.
fn clone_body(b: &Body) -> (r: Body)
    ensures
        body_view(r) == body_view(*b),
{
    let mut r: Body = Vec::new();
    let n = b.len();
    let mut i: usize = 0;
    while i < n
        invariant
            n == b@.len(),
            i <= n,
            body_view(r) =~= body_view(*b).take(i as int),
        decreases n - i,
    {
        let v = match &b[i].1 {
            JsonValue::Null => JsonValue::Null,
            JsonValue::Bool(x) => JsonValue::Bool(*x),
            JsonValue::Int(x) => JsonValue::Int(*x),
            JsonValue::UInt(x) => JsonValue::UInt(*x),
            JsonValue::Float(x) => JsonValue::Float(*x),
            JsonValue::Str(s) => JsonValue::Str(s.clone()),
            JsonValue::StrList(l) => {
                let mut c: Vec<String> = Vec::new();
                let m = l.len();
                let mut j: usize = 0;
                while j < m
                    invariant
                        m == l@.len(),
                        j <= m,
                        c.deep_view() =~= l.deep_view().take(j as int),
                    decreases m - j,
                {
                    let ghost before = c.deep_view();
                    let s = l[j].clone();
                    let ghost sv = s@;
                    c.push(s);
                    assert(c.deep_view() =~= before.push(sv));
                    j = j + 1;
                }
                assert(l.deep_view().take(m as int) =~= l.deep_view());
                JsonValue::StrList(c)
            },
        };
        let k = b[i].0.clone();
        let ghost before = body_view(r);
        r.push((k, v));
        assert(body_view(r) =~= before.push(body_view(*b)[i as int]));
        i = i + 1;
    }
    assert(body_view(*b).take(n as int) =~= body_view(*b));
    r
}

/// The request body for one planned capture.
pub fn capture_body(out_dir: &str, p: &CapturePlan, shot: &Body) -> (r: Body)
    ensures
        body_view(r) == capture_body_spec(out_dir@, p@, body_view(*shot)),
{
    let mut b: Body = Vec::new();
    b.push((owned("output_dir"), JsonValue::Str(owned(out_dir))));
    b.push((owned("pid"), JsonValue::Int(p.pid)));
    b.push((owned("window_id"), JsonValue::Int(p.window_id)));
    b.push((owned("audio_source"), JsonValue::Str(owned("app"))));
    b.push((owned("capture_audio"), JsonValue::Bool(p.capture_audio)));
    b.push((owned("screenshot_interval"), JsonValue::Float(0x4000_0000_0000_0000)));
    if let Some(m) = &p.mic_device {
        b.push((owned("mic_device"), JsonValue::Str(m.clone())));
    }
    let ghost head = body_view(b);
    let mut tail = clone_body(shot);
    b.append(&mut tail);
    assert(body_view(b) =~= head + body_view(*shot));
    b
}

/// The request body that launches `command`: output directory, the command,
/// app audio, the screenshot interval, then the screenshot settings.
pub open spec fn launch_body_spec(
    out_dir: Seq<char>,
    command: Seq<char>,
    shot: Seq<(Seq<char>, JsonView)>,
) -> Seq<(Seq<char>, JsonView)> {
    seq![
        ("output_dir"@, JsonView::Str(out_dir)),
        ("command"@, JsonView::Str(command)),
        ("audio_source"@, JsonView::Str("app"@)),
        ("screenshot_interval"@, JsonView::Float(interval_bits())),
    ] + shot
}

/// The body that launches the command typed into the launch field, or `None` when the field is
/// blank (the command is sent trimmed).
pub fn launch_body(out_dir: &str, input: &str, shot: &Body) -> (r: Option<Body>)
    ensures
        match r {
            Some(b) => trim(input@).len() > 0 && body_view(b) == launch_body_spec(
                out_dir@,
                trim(input@),
                body_view(*shot),
            ),
            None => trim(input@).len() == 0,
        },
{
    let cmd = trim_str(input);
    if chars_of(cmd.as_str()).len() == 0 {
        return None;
    }
    let mut b: Body = Vec::new();
    b.push((owned("output_dir"), JsonValue::Str(owned(out_dir))));
    b.push((owned("command"), JsonValue::Str(cmd)));
    b.push((owned("audio_source"), JsonValue::Str(owned("app"))));
    b.push((owned("screenshot_interval"), JsonValue::Float(0x4000_0000_0000_0000)));
    let ghost head = body_view(b);
    let mut tail = clone_body(shot);
    b.append(&mut tail);
    assert(body_view(b) =~= head + body_view(*shot));
    Some(b)
}

// ---------------------------------------------------------------------------------------------
// The window picker
// ---------------------------------------------------------------------------------------------

/// The position of the group named `name`, or the number of groups.
pub open spec fn group_of(g: Seq<(Seq<char>, Seq<usize>)>, name: Seq<char>) -> int
    decreases g.len(),
{
    if g.len() == 0 {
        0
    } else if g[0].0 == name {
        0
    } else {
        1 + group_of(g.drop_first(), name)
    }
}

/// The picker's groups: one per app name, in the order apps first appear, each with the
/// positions of that app's windows in order.
pub open spec fn app_groups(ws: Seq<WindowInfo>) -> Seq<(Seq<char>, Seq<usize>)>
    decreases ws.len(),
{
    if ws.len() == 0 {
        Seq::empty()
    } else {
        let g = app_groups(ws.drop_last());
        let name = ws.last().app_name@;
        let k = group_of(g, name);
        let i = (ws.len() - 1) as usize;
        if k < g.len() {
            g.update(k, (g[k].0, g[k].1.push(i)))
        } else {
            g.push((name, seq![i]))
        }
    }
}

/// `group_of` lies within the groups, names the group when it is found, and no earlier group
/// has the name.
pub proof fn lemma_group_of(g: Seq<(Seq<char>, Seq<usize>)>, name: Seq<char>)
    ensures
        0 <= group_of(g, name) <= g.len(),
        group_of(g, name) < g.len() ==> g[group_of(g, name)].0 == name,
        forall|j: int| 0 <= j < group_of(g, name) ==> g[j].0 != name,
    decreases g.len(),
{
    if g.len() > 0 && g[0].0 != name {
        lemma_group_of(g.drop_first(), name);
        assert forall|j: int| 0 <= j < group_of(g, name) implies g[j].0 != name by {
            if j > 0 {
                assert(g[j] == g.drop_first()[j - 1]);
            }
        }
    }
}

/// The view of the picker's groups.
pub open spec fn groups_view(g: Seq<(String, Vec<usize>)>) -> Seq<(Seq<char>, Seq<usize>)> {
    g.map_values(|e: (String, Vec<usize>)| (e.0@, e.1@))
}

/// Groups the picker's windows by app name, in first-seen order (the window picker's rows).
pub fn group_windows(ws: &[WindowInfo]) -> (r: Vec<(String, Vec<usize>)>)
    ensures
        groups_view(r@) == app_groups(ws@),
{
    let mut r: Vec<(String, Vec<usize>)> = Vec::new();
    let n = ws.len();
    let mut i: usize = 0;
    while i < n
        invariant
            n == ws@.len(),
            i <= n,
            groups_view(r@) =~= app_groups(ws@.take(i as int)),
        decreases n - i,
    {
        let ghost g = app_groups(ws@.take(i as int));
        assert(ws@.take(i + 1).drop_last() =~= ws@.take(i as int));
        assert(ws@.take(i + 1).last() == ws@[i as int]);
        let name = &ws[i].app_name;
        proof {
            lemma_group_of(g, name@);
        }
        let m = r.len();
        let mut k: usize = 0;
        while k < m && !str_eq(r[k].0.as_str(), name.as_str())
            invariant
                m == r@.len(),
                k <= m,
                g == groups_view(r@),
                forall|j: int| 0 <= j < k ==> g[j].0 != name@,
            decreases m - k,
        {
            k = k + 1;
        }
        proof {
            if k < m {
                assert(g[k as int].0 == name@);
            }
            assert(group_of(g, name@) == k as int) by {
                if (k as int) < group_of(g, name@) {
                    assert(g[k as int].0 != name@);
                } else if (k as int) > group_of(g, name@) {
                    assert(g[group_of(g, name@)].0 == name@);
                }
            }
        }
        if k < m {
            let (nm, mut idx) = r.remove(k);
            idx.push(i);
            r.insert(k, (nm, idx));
        } else {
            let mut idx: Vec<usize> = Vec::new();
            idx.push(i);
            r.push((name.clone(), idx));
        }
        i = i + 1;
    }
    assert(ws@.take(n as int) =~= ws@);
    r
}

/// The picker's groups have distinct names.
pub proof fn lemma_group_names_distinct(ws: Seq<WindowInfo>)
    ensures
        forall|a: int, b: int|
            0 <= a < b < app_groups(ws).len() ==> #[trigger] app_groups(ws)[a].0
                != #[trigger] app_groups(ws)[b].0,
    decreases ws.len(),
{
    if ws.len() > 0 {
        lemma_group_names_distinct(ws.drop_last());
        lemma_group_of(app_groups(ws.drop_last()), ws.last().app_name@);
    }
}


/// Only the meeting, coding and lecture presets touch the microphone: every other preset
/// (auto, general, custom, or one not known) leaves it as the user set it; coding and lecture
/// turn it off, and meeting keeps a chosen one.
pub proof fn lemma_preset_mic_choices(preset: Seq<char>, current: Option<Seq<char>>, mics: Seq<AudioDevice>)
    ensures
        !(preset == "meeting"@ || preset == "coding"@ || preset == "lecture"@) ==> preset_mic_spec(
            preset,
            current,
            mics,
        ) == current,
        (preset == "coding"@ || preset == "lecture"@) ==> preset_mic_spec(preset, current, mics) is None,
        preset == "meeting"@ && current is Some ==> preset_mic_spec(preset, current, mics) == current,
{
    lemma_mic_presets_differ();
}

/// The microphone-changing preset ids differ from one another.
proof fn lemma_mic_presets_differ()
    ensures
        "coding"@ != "meeting"@,
        "lecture"@ != "meeting"@,
{
    reveal_strlit("meeting");
    reveal_strlit("coding");
    reveal_strlit("lecture");
    assert("coding"@.len() != "meeting"@.len());
    assert("lecture"@[0] != "meeting"@[0]);
}


/// The first device marked default, found by position: it is the device at the first
/// position whose flag is set, and there is none when no flag is set.
proof fn lemma_first_default_at(mics: Seq<AudioDevice>)
    ensures
        forall|j: int|
            #![trigger mics[j]]
            0 <= j < mics.len() && mics[j].default && (forall|i: int|
                0 <= i < j ==> !(#[trigger] mics[i]).default) ==> first_default(mics) == Some(
                mics[j].id@,
            ),
        (forall|i: int| 0 <= i < mics.len() ==> !(#[trigger] mics[i]).default) ==> first_default(
            mics,
        ) is None,
    decreases mics.len(),
{
    if mics.len() > 0 {
        let t = mics.drop_first();
        lemma_first_default_at(t);
        assert forall|j: int|
            #![trigger mics[j]]
            0 <= j < mics.len() && mics[j].default && (forall|i: int|
                0 <= i < j ==> !(#[trigger] mics[i]).default) implies first_default(mics) == Some(
            mics[j].id@,
        ) by {
            if j > 0 {
                assert(!mics[0].default);
                assert(t[j - 1] == mics[j]);
                assert forall|i: int| 0 <= i < j - 1 implies !(#[trigger] t[i]).default by {
                    assert(t[i] == mics[i + 1]);
                }
            }
        }
        if forall|i: int| 0 <= i < mics.len() ==> !(#[trigger] mics[i]).default {
            assert(!mics[0].default);
            assert forall|i: int| 0 <= i < t.len() implies !(#[trigger] t[i]).default by {
                assert(t[i] == mics[i + 1]);
            }
        }
    }
}

/// The meeting preset without a chosen microphone picks the first device marked default,
/// else the first device listed, else none.
pub proof fn lemma_meeting_mic(mics: Seq<AudioDevice>)
    ensures
        forall|j: int|
            #![trigger mics[j]]
            0 <= j < mics.len() && mics[j].default && (forall|i: int|
                0 <= i < j ==> !(#[trigger] mics[i]).default) ==> preset_mic_spec(
                "meeting"@,
                None,
                mics,
            ) == Some(mics[j].id@),
        mics.len() > 0 && (forall|i: int| 0 <= i < mics.len() ==> !(#[trigger] mics[i]).default)
            ==> preset_mic_spec("meeting"@, None, mics) == Some(mics[0].id@),
        mics.len() == 0 ==> preset_mic_spec("meeting"@, None, mics) is None,
{
    lemma_first_default_at(mics);
}

} // verus!
