//! The window's screens: which top-level screen shows and what the header offers, the session
//! list's rows, the confirmation dialog, the start-up of the bundled daemon, and the playback
//! screen's data, which a background load fills only while its session is still open.

use vstd::prelude::*;
use crate::capture::{is_finished, is_running, session_finished};
use crate::daemon::{Health, Session};
use crate::labels::ConfirmKind;
use crate::playback::{frames_view, subtitles_view, Frame, Subtitle, Timeline};
use crate::text::{decimal, decimal_string, join2, join3, owned, str_eq};
use crate::update::UpdateInfo;

verus! {

// ---------------------------------------------------------------------------------------------
// Screens and header
// ---------------------------------------------------------------------------------------------

/// The three top-level screens; one shows at a time.
#[derive(Clone, Copy, PartialEq, Eq, Structural, Debug)]
pub enum Screen {
    Dashboard,
    Settings,
    Playback,
}

/// The screen that shows: an open playback screen wins, then the Settings screen, else the
/// dashboard.
pub fn shown_screen(show_settings: bool, playback_open: bool) -> (r: Screen)
    ensures
        r == if playback_open {
            Screen::Playback
        } else if show_settings {
            Screen::Settings
        } else {
            Screen::Dashboard
        },
{
    if playback_open {
        Screen::Playback
    } else if show_settings {
        Screen::Settings
    } else {
        Screen::Dashboard
    }
}

/// The header button's icon and text: `Back` on a sub-screen (playback or settings), else
/// `Settings`.
pub fn header_button(show_settings: bool, playback_open: bool) -> (r: (&'static str, &'static str))
    ensures
        (show_settings || playback_open) ==> r.0@ == "chevron-left"@ && r.1@ == "Back"@,
        !(show_settings || playback_open) ==> r.0@ == "settings"@ && r.1@ == "Settings"@,
{
    if show_settings || playback_open {
        ("chevron-left", "Back")
    } else {
        ("settings", "Settings")
    }
}

/// A click on the header button: it closes an open playback screen, else it toggles the
/// Settings screen. Returns the new `(show_settings, playback_open)`.
pub fn header_click(show_settings: bool, playback_open: bool) -> (r: (bool, bool))
    ensures
        r == if playback_open {
            (show_settings, false)
        } else {
            (!show_settings, false)
        },
{
    if playback_open {
        (show_settings, false)
    } else {
        (!show_settings, false)
    }
}

/// The daemon line under the header.
pub open spec fn daemon_line(health: Option<Health>) -> Seq<char> {
    match health {
        Some(h) => if h.ok {
            "daemon v"@ + h.version@ + " (api "@ + h.api_version@ + ") · pid "@ + decimal(
                h.pid as nat,
            )
        } else {
            "no daemon — run: capture daemon start"@
        },
        None => "no daemon — run: capture daemon start"@,
    }
}

/// The daemon line: its version, API version and pid while its health is ok.
pub fn daemon_header(health: &Option<Health>) -> (r: String)
    ensures
        r@ == daemon_line(*health),
{
    match health {
        Some(h) => if h.ok {
            let a = join3("daemon v", h.version.as_str(), " (api ");
            let b = join3(a.as_str(), h.api_version.as_str(), ") · pid ");
            let pid = decimal_string(h.pid as u64);
            join2(b.as_str(), pid.as_str())
        } else {
            owned("no daemon — run: capture daemon start")
        },
        None => owned("no daemon — run: capture daemon start"),
    }
}

// ---------------------------------------------------------------------------------------------
// The session list
// ---------------------------------------------------------------------------------------------

/// The action button of a session row: a running capture can be stopped, any other one
/// deleted (after a question).
#[derive(Clone, Copy, PartialEq, Eq, Structural, Debug)]
pub enum RowAction {
    Stop,
    Delete,
}

/// One row of the session list: the session's position in the daemon's list, whether it is
/// the open one, and its action.
#[derive(Clone, Copy, PartialEq, Eq, Structural, Debug)]
pub struct SessionRow {
    pub index: usize,
    pub open: bool,
    pub action: RowAction,
}

/// The row of session `i`.
pub open spec fn row_of(s: Seq<Session>, i: int, selected: Option<Seq<char>>) -> SessionRow {
    SessionRow {
        index: i as usize,
        open: selected == Some(s[i].session_id@),
        action: if is_running(s[i].state@) {
            RowAction::Stop
        } else {
            RowAction::Delete
        },
    }
}

/// The session list, newest first: the daemon's list in reverse order.
pub fn session_rows(sessions: &[Session], selected: &Option<String>) -> (r: Vec<SessionRow>)
    ensures
        r@.len() == sessions@.len(),
        forall|k: int|
            0 <= k < r@.len() ==> #[trigger] r@[k] == row_of(
                sessions@,
                sessions@.len() - 1 - k,
                selected.deep_view(),
            ),
{
    let n = sessions.len();
    let mut rows: Vec<SessionRow> = Vec::new();
    let mut k: usize = 0;
    while k < n
        invariant
            n == sessions@.len(),
            k <= n,
            rows@.len() == k,
            forall|j: int|
                0 <= j < k ==> #[trigger] rows@[j] == row_of(
                    sessions@,
                    n - 1 - j,
                    selected.deep_view(),
                ),
        decreases n - k,
    {
        let i = n - 1 - k;
        let s = &sessions[i];
        let open = match selected {
            Some(x) => str_eq(x.as_str(), s.session_id.as_str()),
            None => false,
        };
        let action = if str_eq(s.state.as_str(), "running") {
            RowAction::Stop
        } else {
            RowAction::Delete
        };
        rows.push(SessionRow { index: i, open, action });
        k = k + 1;
    }
    rows
}

// ---------------------------------------------------------------------------------------------
// The confirmation dialog
// ---------------------------------------------------------------------------------------------

/// What confirming a question does.
pub enum ConfirmedAction {
    DeleteSession(String),
    Prune(String, Vec<String>),
    Update(UpdateInfo),
}

/// The confirm button: the question closes and its action runs (delete the session, prune
/// the parts named, or install the update). Without a question nothing happens.
pub fn confirm_go(pending: &mut Option<ConfirmKind>) -> (r: Option<ConfirmedAction>)
    ensures
        *final(pending) is None,
        match *old(pending) {
            Some(ConfirmKind::DeleteSession(sid)) => r matches Some(
                ConfirmedAction::DeleteSession(s),
            ) && s@ == sid@,
            Some(ConfirmKind::Prune(sid, parts, _)) => r matches Some(
                ConfirmedAction::Prune(s, p),
            ) && s@ == sid@ && p.deep_view() == parts.deep_view(),
            Some(ConfirmKind::Update(info)) => r matches Some(ConfirmedAction::Update(i)) && i.version@
                == info.version@ && i.dmg_url@ == info.dmg_url@,
            None => r is None,
        },
{
    match pending.take() {
        Some(ConfirmKind::DeleteSession(sid)) => Some(ConfirmedAction::DeleteSession(sid)),
        Some(ConfirmKind::Prune(sid, parts, _)) => Some(ConfirmedAction::Prune(sid, parts)),
        Some(ConfirmKind::Update(info)) => Some(ConfirmedAction::Update(info)),
        None => None,
    }
}

/// The cancel button: the question closes and nothing runs.
pub fn confirm_cancel(pending: &mut Option<ConfirmKind>)
    ensures
        *final(pending) is None,
{
    *pending = None;
}

// ---------------------------------------------------------------------------------------------
// Start-up
// ---------------------------------------------------------------------------------------------

/// What the window does at start-up: build its own tray icon, and start the bundled daemon.
#[derive(Clone, Copy, PartialEq, Eq, Structural, Debug)]
pub struct StartupPlan {
    pub build_tray: bool,
    pub spawn_daemon: bool,
}

/// Under the menu-bar agent (`CAPTURE_AGENT` set) the agent owns the tray and the daemon, so
/// the window does neither; standalone it builds its tray, and starts the bundled daemon when
/// no daemon answers and one is bundled.
pub fn startup_plan(under_agent: bool, daemon_answers: bool, bundled: bool) -> (r: StartupPlan)
    ensures
        r.build_tray == !under_agent,
        r.spawn_daemon == (!under_agent && !daemon_answers && bundled),
{
    StartupPlan { build_tray: !under_agent, spawn_daemon: !under_agent && !daemon_answers && bundled }
}

// ---------------------------------------------------------------------------------------------
// The playback screen's data
// ---------------------------------------------------------------------------------------------

/// The data of an open playback screen: its session, whether that capture has finished, the
/// loaded timeline with the playhead, and the summary of the session's built index.
pub struct PlaybackPane {
    pub sid: String,
    pub finished: bool,
    pub frames: Vec<Frame>,
    pub subtitles: Vec<Subtitle>,
    pub start: i64,
    pub end: i64,
    pub pos: i64,
    pub loaded: bool,
    pub index_summary: Option<String>,
    pub index_nodes: Option<u64>,
}

/// The mathematical content of a playback screen's data.
pub struct PaneView {
    pub sid: Seq<char>,
    pub finished: bool,
    pub frames: Seq<(i64, Seq<char>)>,
    pub subtitles: Seq<(i64, i64, Seq<char>, bool)>,
    pub start: i64,
    pub end: i64,
    pub pos: i64,
    pub loaded: bool,
    pub index_summary: Option<Seq<char>>,
    pub index_nodes: Option<u64>,
}

/// The mathematical content of a loaded timeline.
pub struct TimelineView {
    pub frames: Seq<(i64, Seq<char>)>,
    pub subtitles: Seq<(i64, i64, Seq<char>, bool)>,
    pub start: i64,
    pub end: i64,
}

/// The view of a loaded timeline.
pub open spec fn timeline_view(t: Timeline) -> TimelineView {
    TimelineView {
        frames: frames_view(t.frames@),
        subtitles: subtitles_view(t.subtitles@),
        start: t.start,
        end: t.end,
    }
}

impl PlaybackPane {
    /// The view of the data.
    pub open spec fn view_of(&self) -> PaneView {
        PaneView {
            sid: self.sid@,
            finished: self.finished,
            frames: frames_view(self.frames@),
            subtitles: subtitles_view(self.subtitles@),
            start: self.start,
            end: self.end,
            pos: self.pos,
            loaded: self.loaded,
            index_summary: self.index_summary.deep_view(),
            index_nodes: self.index_nodes,
        }
    }
}

/// The first session of the list with this id.
pub open spec fn first_with_id(s: Seq<Session>, id: Seq<char>, i: int) -> Option<int>
    decreases s.len() - i,
{
    if i < 0 || i >= s.len() {
        None
    } else if s[i].session_id@ == id {
        Some(i)
    } else {
        first_with_id(s, id, i + 1)
    }
}

/// The screen opened for session `id`: empty, marked finished when the listed session has
/// finished (an unlisted one counts as not finished).
pub open spec fn opened_pane(s: Seq<Session>, id: Seq<char>) -> PaneView {
    PaneView {
        sid: id,
        finished: match first_with_id(s, id, 0) {
            Some(i) => is_finished(s[i].state@),
            None => false,
        },
        frames: Seq::empty(),
        subtitles: Seq::empty(),
        start: 0,
        end: 0,
        pos: 0,
        loaded: false,
        index_summary: None,
        index_nodes: None,
    }
}

/// The folder to load the timeline from when a screen opens: a finished listed session's
/// folder, when it names one.
pub open spec fn folder_to_load(s: Seq<Session>, id: Seq<char>) -> Option<Seq<char>> {
    match first_with_id(s, id, 0) {
        Some(i) => if is_finished(s[i].state@) && s[i].dir@.len() > 0 {
            Some(s[i].dir@)
        } else {
            None
        },
        None => None,
    }
}

/// The screen after a background load of `want`'s timeline: filled (the playhead at the
/// start) when it is still `want`'s screen, else unchanged.
pub open spec fn filled(p: PaneView, want: Seq<char>, t: TimelineView) -> PaneView {
    if p.sid == want {
        PaneView {
            frames: t.frames,
            subtitles: t.subtitles,
            start: t.start,
            end: t.end,
            pos: t.start,
            loaded: true,
            ..p
        }
    } else {
        p
    }
}

/// Opens the playback screen of session `id`: the empty screen, and the folder whose timeline
/// to load in the background (none for a running or unknown capture). A screen for a
/// finished capture also loads the session's built index.
pub fn open_pane(sessions: &[Session], id: &str) -> (r: (PlaybackPane, Option<String>))
    ensures
        r.0.view_of() == opened_pane(sessions@, id@),
        r.1.deep_view() == folder_to_load(sessions@, id@),
{
    let n = sessions.len();
    let mut i: usize = 0;
    while i < n
        invariant
            n == sessions@.len(),
            i <= n,
            first_with_id(sessions@, id@, 0) == first_with_id(sessions@, id@, i as int),
        decreases n - i,
    {
        if str_eq(sessions[i].session_id.as_str(), id) {
            let s = &sessions[i];
            let finished = session_finished(s.state.as_str());
            let dir = if finished && s.dir.unicode_len() > 0 {
                Some(s.dir.clone())
            } else {
                None
            };
            return (empty_pane(id, finished), dir);
        }
        i = i + 1;
    }
    (empty_pane(id, false), None)
}

/// An empty screen for a session.
fn empty_pane(id: &str, finished: bool) -> (p: PlaybackPane)
    ensures
        p.view_of() == (PaneView {
            sid: id@,
            finished,
            frames: Seq::empty(),
            subtitles: Seq::empty(),
            start: 0,
            end: 0,
            pos: 0,
            loaded: false,
            index_summary: None,
            index_nodes: None,
        }),
{
    let p = PlaybackPane {
        sid: owned(id),
        finished,
        frames: Vec::new(),
        subtitles: Vec::new(),
        start: 0,
        end: 0,
        pos: 0,
        loaded: false,
        index_summary: None,
        index_nodes: None,
    };
    assert(frames_view(p.frames@) =~= Seq::empty());
    assert(subtitles_view(p.subtitles@) =~= Seq::empty());
    p
}

impl PlaybackPane {
    /// A background load of `want`'s timeline finished: it fills the screen only while the
    /// screen is still `want`'s. Returns whether it did.
    pub fn fill(&mut self, want: &str, t: Timeline) -> (applied: bool)
        ensures
            applied == (old(self).sid@ == want@),
            final(self).view_of() == filled(old(self).view_of(), want@, timeline_view(t)),
    {
        if str_eq(self.sid.as_str(), want) {
            self.frames = t.frames;
            self.subtitles = t.subtitles;
            self.start = t.start;
            self.end = t.end;
            self.pos = t.start;
            self.loaded = true;
            true
        } else {
            false
        }
    }

    /// A background read of the session's built index finished: the summary (when it is a
    /// non-empty text) and the node count go to the open screen.
    pub fn set_index(&mut self, summary: Option<String>, nodes: Option<u64>)
        ensures
            final(self).view_of() == (PaneView {
                index_summary: match summary {
                    Some(s) => if s@.len() > 0 {
                        Some(s@)
                    } else {
                        None
                    },
                    None => None,
                },
                index_nodes: nodes,
                ..old(self).view_of()
            }),
    {
        self.index_summary = match summary {
            Some(s) => if s.unicode_len() > 0 {
                Some(s)
            } else {
                None
            },
            None => None,
        };
        self.index_nodes = nodes;
    }
}

/// A timeline load of a session that is no longer open changes nothing: after session `id`
/// is left for another session `id2`, the screen of `id2` stays as it is when `id`'s load
/// finishes, and `id2`'s own load fills it.
pub proof fn lemma_stale_load_changes_nothing(
    sessions: Seq<Session>,
    id: Seq<char>,
    id2: Seq<char>,
    t: TimelineView,
)
    requires
        id != id2,
    ensures
        filled(opened_pane(sessions, id2), id, t) == opened_pane(sessions, id2),
        filled(opened_pane(sessions, id2), id2, t).loaded,
        filled(opened_pane(sessions, id2), id2, t).frames == t.frames,
{
}

} // verus!
