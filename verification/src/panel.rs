//! The client window's state and the decisions around its requests to the daemon: the status
//! message each action shows before and after its request, which session is selected and
//! which one's playback screen is open, the re-transcribe and index builds in flight, and what
//! the once-a-second poll does with the work the event stream reported finished (finished
//! re-transcribes, a finished import and finished index builds, and the newest running capture
//! as the default live session). The requests themselves are sent by the application.

use vstd::prelude::*;
use crate::capture::{newest_running, newest_running_session, running_ids, running_session_ids};
use crate::daemon::{Daemon, Health, Permissions, Session};
use crate::keyed::KeyedMap;
use crate::state::{after_last, last_path_part, short_id, short_id_spec};
use crate::lang::{top_lang_match, top_match};
use crate::text::{decimal, decimal_string, join2, join3, owned, str_eq, trim, trim_str};

verus! {

/// The client window's state.
pub struct CaptureApp {
    /// The session whose re-transcribe the window waits for.
    pub retranscribing: Option<String>,
    /// The sessions with an index build in flight.
    pub indexing: KeyedMap<()>,
    /// The session of the live pane.
    pub selected_session: Option<String>,
    /// The session of the open playback screen.
    pub playback: Option<String>,
    /// The status message.
    pub message: Option<String>,
    /// The sessions selected, in order (the application loads each one's data).
    pub opened: Vec<String>,
    /// Whether the once-a-second poll runs.
    pub polling: bool,
}

/// The mathematical content of the window's state.
pub struct AppView {
    pub retranscribing: Option<Seq<char>>,
    pub indexing: Set<Seq<char>>,
    pub selected_session: Option<Seq<char>>,
    pub playback: Option<Seq<char>>,
    pub message: Option<Seq<char>>,
    pub opened: Seq<Seq<char>>,
    pub polling: bool,
}

impl CaptureApp {
    /// The view of the window's state.
    pub open spec fn view_of(&self) -> AppView {
        AppView {
            retranscribing: self.retranscribing.deep_view(),
            indexing: self.indexing@.dom(),
            selected_session: self.selected_session.deep_view(),
            playback: self.playback.deep_view(),
            message: self.message.deep_view(),
            opened: self.opened.deep_view(),
            polling: self.polling,
        }
    }

    /// Well-formedness: the in-flight set is well formed.
    pub open spec fn wf(&self) -> bool {
        self.indexing.wf()
    }
}

/// Opening session `id`: it becomes the live pane's and the playback screen's session.
pub open spec fn open_session(s: AppView, id: Seq<char>) -> AppView {
    AppView { selected_session: Some(id), playback: Some(id), opened: s.opened.push(id), ..s }
}

/// One finished re-transcribe: clear the marker (with a message) when it is the awaited one,
/// and reopen the session when its playback screen is open.
pub open spec fn retranscribe_step(s: AppView, sid: Seq<char>) -> AppView {
    let s1 = if s.retranscribing == Some(sid) {
        AppView {
            retranscribing: None,
            message: Some("re-transcribed "@ + short_id_spec(sid)),
            ..s
        }
    } else {
        s
    };
    if s1.playback == Some(sid) {
        open_session(s1, sid)
    } else {
        s1
    }
}

/// The finished re-transcribes, in order.
pub open spec fn retranscribe_steps(s: AppView, done: Seq<Seq<char>>) -> AppView
    decreases done.len(),
{
    if done.len() == 0 {
        s
    } else {
        retranscribe_step(retranscribe_steps(s, done.drop_last()), done.last())
    }
}

/// A finished import: open the new session, or report the failure.
pub open spec fn import_step(s: AppView, r: Option<Result<Seq<char>, Seq<char>>>) -> AppView {
    match r {
        Some(Ok(sid)) => open_session(
            AppView { message: Some("imported session "@ + short_id_spec(sid)), ..s },
            sid,
        ),
        Some(Err(e)) => AppView { message: Some("import failed: "@ + e), ..s },
        None => s,
    }
}

/// One finished index build: clear its marker (with a message) when it was in flight, and
/// reopen the session after a success when its playback screen is open.
pub open spec fn index_step(s: AppView, sid: Seq<char>, err: Option<Seq<char>>) -> AppView {
    let s1 = if s.indexing.contains(sid) {
        AppView {
            indexing: s.indexing.remove(sid),
            message: Some(
                match err {
                    None => "indexed "@ + short_id_spec(sid),
                    Some(e) => "index failed: "@ + e,
                },
            ),
            ..s
        }
    } else {
        s
    };
    if err is None && s1.playback == Some(sid) {
        open_session(s1, sid)
    } else {
        s1
    }
}

/// The finished index builds, in order.
pub open spec fn index_steps(s: AppView, done: Seq<(Seq<char>, Option<Seq<char>>)>) -> AppView
    decreases done.len(),
{
    if done.len() == 0 {
        s
    } else {
        let d = done.last();
        index_step(index_steps(s, done.drop_last()), d.0, d.1)
    }
}

/// With no live session chosen, the newest running capture is opened.
pub open spec fn default_step(s: AppView, sessions: Seq<Session>) -> AppView {
    if s.selected_session is None {
        match newest_running(sessions) {
            Some(id) => open_session(s, id),
            None => s,
        }
    } else {
        s
    }
}

/// The whole poll: re-transcribes, then the import, then index builds, then the default.
pub open spec fn poll_result(
    s: AppView,
    sessions: Seq<Session>,
    retranscribed: Seq<Seq<char>>,
    imported: Option<Result<Seq<char>, Seq<char>>>,
    indexed: Seq<(Seq<char>, Option<Seq<char>>)>,
) -> AppView {
    default_step(
        index_steps(import_step(retranscribe_steps(s, retranscribed), imported), indexed),
        sessions,
    )
}

/// The view of a request's outcome: `None` for a success, the error otherwise.
pub open spec fn result_text(r: Result<(), String>) -> Option<Seq<char>> {
    match r {
        Ok(_) => None,
        Err(e) => Some(e@),
    }
}

/// The message for an outcome: `ok` for a success, `fail` followed by the error otherwise.
pub open spec fn outcome_text(r: Option<Seq<char>>, ok: Seq<char>, fail: Seq<char>) -> Seq<char> {
    match r {
        None => ok,
        Some(e) => fail + e,
    }
}

/// Whether an optional string holds `s`.
fn holds(o: &Option<String>, s: &str) -> (r: bool)
    ensures
        r == (o.deep_view() == Some(s@)),
{
    match o {
        Some(x) => str_eq(x.as_str(), s),
        None => false,
    }
}

impl CaptureApp {
    /// A window with nothing selected or in flight.
    pub fn new() -> (p: Self)
        ensures
            p.wf(),
            p.view_of().retranscribing is None,
            p.view_of().indexing == Set::<Seq<char>>::empty(),
            p.view_of().selected_session is None,
            p.view_of().playback is None,
            p.view_of().message is None,
            p.view_of().opened.len() == 0,
            !p.view_of().polling,
    {
        let p = CaptureApp {
            retranscribing: None,
            indexing: KeyedMap::new(),
            selected_session: None,
            playback: None,
            message: None,
            opened: Vec::new(),
            polling: false,
        };
        assert(p.indexing@.dom() =~= Set::<Seq<char>>::empty());
        assert(p.opened.deep_view() =~= Seq::<Seq<char>>::empty());
        p
    }

    /// `select_session`: session `id` becomes the live pane's and its playback screen opens.
    pub fn select_session(&mut self, id: &String)
        requires
            old(self).wf(),
        ensures
            final(self).wf(),
            final(self).view_of() == open_session(old(self).view_of(), id@),
    {
        self.selected_session = Some(id.clone());
        self.playback = Some(id.clone());
        let ghost before = self.opened.deep_view();
        self.opened.push(id.clone());
        assert(self.opened.deep_view() =~= before.push(id@));
    }

    /// Handles one finished re-transcribe.
    fn retranscribed(&mut self, sid: &String)
        requires
            old(self).wf(),
        ensures
            final(self).wf(),
            final(self).view_of() == retranscribe_step(old(self).view_of(), sid@),
    {
        if holds(&self.retranscribing, sid.as_str()) {
            self.retranscribing = None;
            let short = short_id(sid.as_str());
            self.message = Some(join2("re-transcribed ", short.as_str()));
        }
        if holds(&self.playback, sid.as_str()) {
            self.select_session(sid);
        }
    }

    /// Handles the finished import.
    fn imported(&mut self, r: &Option<Result<String, String>>)
        requires
            old(self).wf(),
        ensures
            final(self).wf(),
            final(self).view_of() == import_step(
                old(self).view_of(),
                crate::live::result_view(*r),
            ),
    {
        match r {
            Some(Ok(sid)) => {
                let short = short_id(sid.as_str());
                self.message = Some(join2("imported session ", short.as_str()));
                self.select_session(sid);
            },
            Some(Err(e)) => {
                self.message = Some(join2("import failed: ", e.as_str()));
            },
            None => {},
        }
    }

    /// Handles one finished index build.
    fn indexed(&mut self, sid: &String, err: &Option<String>)
        requires
            old(self).wf(),
        ensures
            final(self).wf(),
            final(self).view_of() == index_step(old(self).view_of(), sid@, err.deep_view()),
    {
        if self.indexing.contains(sid.as_str()) {
            self.indexing.remove(sid.as_str());
            let msg = match err {
                None => {
                    let short = short_id(sid.as_str());
                    join2("indexed ", short.as_str())
                },
                Some(e) => join2("index failed: ", e.as_str()),
            };
            self.message = Some(msg);
        }
        if err.is_none() && holds(&self.playback, sid.as_str()) {
            self.select_session(sid);
        }
    }

    /// Applies what the once-a-second poll found finished.
    pub fn after_poll(
        &mut self,
        sessions: &[Session],
        retranscribed: &Vec<String>,
        imported: &Option<Result<String, String>>,
        indexed: &Vec<(String, Option<String>)>,
    )
        requires
            old(self).wf(),
        ensures
            final(self).wf(),
            final(self).view_of() == poll_result(
                old(self).view_of(),
                sessions@,
                retranscribed.deep_view(),
                crate::live::result_view(*imported),
                indexed.deep_view(),
            ),
    {
        let ghost s0 = self.view_of();
        let n = retranscribed.len();
        let mut i: usize = 0;
        while i < n
            invariant
                n == retranscribed@.len(),
                i <= n,
                self.wf(),
                self.view_of() == retranscribe_steps(
                    s0,
                    retranscribed.deep_view().take(i as int),
                ),
            decreases n - i,
        {
            assert(retranscribed.deep_view().take(i + 1).drop_last() =~= retranscribed.deep_view().take(
                i as int,
            ));
            self.retranscribed(&retranscribed[i]);
            i = i + 1;
        }
        assert(retranscribed.deep_view().take(n as int) =~= retranscribed.deep_view());
        self.imported(imported);
        let ghost s1 = self.view_of();
        let m = indexed.len();
        let mut j: usize = 0;
        while j < m
            invariant
                m == indexed@.len(),
                j <= m,
                self.wf(),
                self.view_of() == index_steps(s1, indexed.deep_view().take(j as int)),
            decreases m - j,
        {
            assert(indexed.deep_view().take(j + 1).drop_last() =~= indexed.deep_view().take(
                j as int,
            ));
            self.indexed(&indexed[j].0, &indexed[j].1);
            j = j + 1;
        }
        assert(indexed.deep_view().take(m as int) =~= indexed.deep_view());
        if self.selected_session.is_none() {
            if let Some(id) = newest_running_session(sessions) {
                self.select_session(&id);
            }
        }
    }

    /// Indexing a session (before the request): the build of `sid` is in flight and the message
    /// names it with its prompt preset.
    pub fn begin_index(&mut self, sid: String, preset: &str)
        requires
            old(self).wf(),
        ensures
            final(self).wf(),
            final(self).view_of() == (AppView {
                indexing: old(self).view_of().indexing.insert(sid@),
                message: Some("indexing "@ + short_id_spec(sid@) + " ("@ + preset@ + ")…"@),
                ..old(self).view_of()
            }),
    {
        let short = short_id(sid.as_str());
        let head = join3("indexing ", short.as_str(), " (");
        let msg = join3(head.as_str(), preset, ")…");
        let ghost key = sid@;
        self.indexing.insert(sid, ());
        assert(self.indexing@.dom() =~= old(self).indexing@.dom().insert(key));
        self.message = Some(msg);
    }

    /// Indexing a session (after a rejected request): the build of `sid` is no longer in flight and
    /// the failure is reported.
    pub fn index_failed(&mut self, sid: &str, err: &str)
        requires
            old(self).wf(),
        ensures
            final(self).wf(),
            final(self).view_of() == (AppView {
                indexing: old(self).view_of().indexing.remove(sid@),
                message: Some("index failed: "@ + err@),
                ..old(self).view_of()
            }),
    {
        self.indexing.remove(sid);
        assert(self.indexing@.dom() =~= old(self).indexing@.dom().remove(sid@));
        self.message = Some(join2("index failed: ", err));
    }

    /// `retranscribe` (before the request): the window waits for `sid` and says so.
    pub fn begin_retranscribe(&mut self, sid: &str)
        requires
            old(self).wf(),
        ensures
            final(self).wf(),
            final(self).view_of() == (AppView {
                retranscribing: Some(sid@),
                message: Some("re-transcribing "@ + short_id_spec(sid@) + "…"@),
                ..old(self).view_of()
            }),
    {
        let short = short_id(sid);
        self.retranscribing = Some(owned(sid));
        self.message = Some(join3("re-transcribing ", short.as_str(), "…"));
    }

    /// `retranscribe` (after a rejected request): nothing is awaited and the failure is reported.
    pub fn retranscribe_failed(&mut self, err: &str)
        requires
            old(self).wf(),
        ensures
            final(self).wf(),
            final(self).view_of() == (AppView {
                retranscribing: None,
                message: Some("re-transcribe failed: "@ + err@),
                ..old(self).view_of()
            }),
    {
        self.retranscribing = None;
        self.message = Some(join2("re-transcribe failed: ", err));
    }

    /// Deleting a session (before the request): the message names the session, and it is no
    /// longer the live pane's.
    pub fn begin_delete(&mut self, sid: &str)
        requires
            old(self).wf(),
        ensures
            final(self).wf(),
            final(self).view_of() == (AppView {
                selected_session: if old(self).view_of().selected_session == Some(sid@) {
                    None
                } else {
                    old(self).view_of().selected_session
                },
                message: Some("deleting "@ + short_id_spec(sid@) + "…"@),
                ..old(self).view_of()
            }),
    {
        if holds(&self.selected_session, sid) {
            self.selected_session = None;
        }
        let short = short_id(sid);
        self.message = Some(join3("deleting ", short.as_str(), "…"));
    }

    /// Deleting a session (after the request): the outcome is reported, and the playback screen
    /// of the deleted session closes.
    pub fn delete_finished(&mut self, sid: &str, r: &Result<(), String>)
        requires
            old(self).wf(),
        ensures
            final(self).wf(),
            final(self).view_of() == (AppView {
                playback: if old(self).view_of().playback == Some(sid@) {
                    None
                } else {
                    old(self).view_of().playback
                },
                message: Some(
                    match r {
                        Ok(_) => "deleted capture"@,
                        Err(e) => "delete failed: "@ + e@,
                    },
                ),
                ..old(self).view_of()
            }),
    {
        let msg = match r {
            Ok(_) => owned("deleted capture"),
            Err(e) => join2("delete failed: ", e.as_str()),
        };
        self.message = Some(msg);
        if holds(&self.playback, sid) {
            self.playback = None;
        }
    }

    /// `prune` (before the request): the message names the session.
    pub fn begin_prune(&mut self, sid: &str)
        requires
            old(self).wf(),
        ensures
            final(self).wf(),
            final(self).view_of() == (AppView {
                message: Some("pruning "@ + short_id_spec(sid@) + "…"@),
                ..old(self).view_of()
            }),
    {
        let short = short_id(sid);
        self.message = Some(join3("pruning ", short.as_str(), "…"));
    }

    /// `prune` (after the request): the outcome is reported, and the session is opened again
    /// when its playback screen is open (to show what is left).
    pub fn prune_finished(&mut self, sid: &String, r: &Result<(), String>)
        requires
            old(self).wf(),
        ensures
            final(self).wf(),
            final(self).view_of() == ({
                let s1 = AppView {
                    message: Some(
                        match r {
                            Ok(_) => "pruned"@,
                            Err(e) => "prune failed: "@ + e@,
                        },
                    ),
                    ..old(self).view_of()
                };
                if s1.playback == Some(sid@) {
                    open_session(s1, sid@)
                } else {
                    s1
                }
            }),
    {
        let msg = match r {
            Ok(_) => owned("pruned"),
            Err(e) => join2("prune failed: ", e.as_str()),
        };
        self.message = Some(msg);
        if holds(&self.playback, sid.as_str()) {
            self.select_session(sid);
        }
    }

    /// Reports how a request ended: `ok` after a success, `fail` followed by the error after a
    /// failure.
    fn report(&mut self, r: &Result<(), String>, ok: &str, fail: &str)
        requires
            old(self).wf(),
        ensures
            final(self).wf(),
            final(self).view_of() == (AppView {
                message: Some(outcome_text(result_text(*r), ok@, fail@)),
                ..old(self).view_of()
            }),
    {
        let msg = match r {
            Ok(_) => owned(ok),
            Err(e) => join2(fail, e.as_str()),
        };
        self.message = Some(msg);
    }

    /// Sets the status message.
    fn say(&mut self, text: String)
        requires
            old(self).wf(),
        ensures
            final(self).wf(),
            final(self).view_of() == (AppView { message: Some(text@), ..old(self).view_of() }),
    {
        self.message = Some(text);
    }

    /// `stop_all` (before the requests): the running sessions to stop, and a message saying how
    /// many (or that none runs).
    pub fn begin_stop_all(&mut self, sessions: &[Session]) -> (ids: Vec<String>)
        requires
            old(self).wf(),
        ensures
            final(self).wf(),
            ids.deep_view() == running_ids(sessions@),
            final(self).view_of() == (AppView {
                message: Some(
                    if running_ids(sessions@).len() == 0 {
                        "no running captures"@
                    } else {
                        "stopping "@ + decimal(running_ids(sessions@).len()) + " capture(s)…"@
                    },
                ),
                ..old(self).view_of()
            }),
    {
        let ids = running_session_ids(sessions);
        if ids.len() == 0 {
            self.say(owned("no running captures"));
        } else {
            let n = decimal_string(ids.len() as u64);
            self.say(join3("stopping ", n.as_str(), " capture(s)…"));
        }
        ids
    }

    /// `stop_all` (after the requests).
    pub fn stop_all_finished(&mut self)
        requires
            old(self).wf(),
        ensures
            final(self).wf(),
            final(self).view_of() == (AppView {
                message: Some("stopped all captures"@),
                ..old(self).view_of()
            }),
    {
        self.say(owned("stopped all captures"));
    }

    /// Stopping one capture (before the request).
    pub fn begin_stop(&mut self, sid: &str)
        requires
            old(self).wf(),
        ensures
            final(self).wf(),
            final(self).view_of() == (AppView {
                message: Some("stopping "@ + short_id_spec(sid@) + "…"@),
                ..old(self).view_of()
            }),
    {
        let short = short_id(sid);
        self.say(join3("stopping ", short.as_str(), "…"));
    }

    /// Stopping one capture (after the request): the stopped session's id, or the error.
    pub fn stop_finished(&mut self, r: &Result<String, String>)
        requires
            old(self).wf(),
        ensures
            final(self).wf(),
            final(self).view_of() == (AppView {
                message: Some(
                    match r {
                        Ok(id) => "stopped "@ + short_id_spec(id@),
                        Err(e) => "stop failed: "@ + e@,
                    },
                ),
                ..old(self).view_of()
            }),
    {
        match r {
            Ok(id) => {
                let short = short_id(id.as_str());
                self.say(join2("stopped ", short.as_str()));
            },
            Err(e) => self.say(join2("stop failed: ", e.as_str())),
        }
    }

    /// Starting the captures of the checked windows (before the requests): `n` captures are to start; none means no window
    /// is checked. Returns whether to go on.
    pub fn begin_start(&mut self, n: usize) -> (go: bool)
        requires
            old(self).wf(),
        ensures
            final(self).wf(),
            go == (n > 0),
            final(self).view_of() == (AppView {
                message: Some(
                    if n == 0 {
                        "check at least one window"@
                    } else {
                        "starting "@ + decimal(n as nat) + " capture(s)…"@
                    },
                ),
                ..old(self).view_of()
            }),
    {
        if n == 0 {
            self.say(owned("check at least one window"));
            false
        } else {
            let d = decimal_string(n as u64);
            self.say(join3("starting ", d.as_str(), " capture(s)…"));
            true
        }
    }

    /// Starting the captures of the checked windows (after the requests): `ok` of `n` started, the last of them `last`, and
    /// the last error. After any success the last started session is opened.
    pub fn start_finished(&mut self, ok: usize, n: usize, last: &Option<String>, err: &Option<String>)
        requires
            old(self).wf(),
        ensures
            final(self).wf(),
            final(self).view_of() == ({
                let s0 = old(self).view_of();
                if ok > 0 {
                    let s1 = AppView {
                        message: Some(
                            "started "@ + decimal(ok as nat) + "/"@ + decimal(n as nat)
                                + " capture(s)"@,
                        ),
                        ..s0
                    };
                    match last.deep_view() {
                        Some(id) => open_session(s1, id),
                        None => s1,
                    }
                } else {
                    match err.deep_view() {
                        Some(e) => AppView { message: Some("start failed: "@ + e), ..s0 },
                        None => s0,
                    }
                }
            }),
    {
        if ok > 0 {
            let a = decimal_string(ok as u64);
            let b = decimal_string(n as u64);
            let head = join3("started ", a.as_str(), "/");
            self.say(join3(head.as_str(), b.as_str(), " capture(s)"));
            if let Some(id) = last {
                self.select_session(id);
            }
        } else if let Some(e) = err {
            self.say(join2("start failed: ", e.as_str()));
        }
    }

    /// Launching a command (before the request).
    pub fn begin_launch(&mut self, command: &str)
        requires
            old(self).wf(),
        ensures
            final(self).wf(),
            final(self).view_of() == (AppView {
                message: Some("launching: "@ + command@ + "…"@),
                ..old(self).view_of()
            }),
    {
        self.say(join3("launching: ", command, "…"));
    }

    /// Launching a command (after the request): the new session is opened, or the error reported.
    pub fn launch_finished(&mut self, r: &Result<String, String>)
        requires
            old(self).wf(),
        ensures
            final(self).wf(),
            final(self).view_of() == match r {
                Ok(id) => open_session(
                    AppView {
                        message: Some("launched "@ + short_id_spec(id@)),
                        ..old(self).view_of()
                    },
                    id@,
                ),
                Err(e) => AppView {
                    message: Some("launch failed: "@ + e@),
                    ..old(self).view_of()
                },
            },
    {
        match r {
            Ok(id) => {
                let short = short_id(id.as_str());
                self.say(join2("launched ", short.as_str()));
                self.select_session(id);
            },
            Err(e) => self.say(join2("launch failed: ", e.as_str())),
        }
    }

    /// Downloading a model (before the request).
    pub fn begin_download(&mut self, repo: &str)
        requires
            old(self).wf(),
        ensures
            final(self).wf(),
            final(self).view_of() == (AppView {
                message: Some("downloading "@ + after_last(repo@, '/') + "…"@),
                ..old(self).view_of()
            }),
    {
        let short = last_path_part(repo);
        self.say(join3("downloading ", short.as_str(), "…"));
    }

    /// Downloading a model (after a rejected request).
    pub fn download_failed(&mut self, err: &str)
        requires
            old(self).wf(),
        ensures
            final(self).wf(),
            final(self).view_of() == (AppView {
                message: Some("download failed: "@ + err@),
                ..old(self).view_of()
            }),
    {
        self.say(join2("download failed: ", err));
    }

    /// Choosing the active model (after the request).
    pub fn model_set(&mut self, repo: &str, r: &Result<(), String>)
        requires
            old(self).wf(),
        ensures
            final(self).wf(),
            final(self).view_of() == (AppView {
                message: Some(
                    outcome_text(
                        result_text(*r),
                        "active model: "@ + after_last(repo@, '/'),
                        "set model failed: "@,
                    ),
                ),
                ..old(self).view_of()
            }),
    {
        let short = last_path_part(repo);
        let ok = join2("active model: ", short.as_str());
        self.report(r, ok.as_str(), "set model failed: ");
    }

    /// Removing a model's weights (before the request).
    pub fn begin_remove_model(&mut self, repo: &str)
        requires
            old(self).wf(),
        ensures
            final(self).wf(),
            final(self).view_of() == (AppView {
                message: Some("removing "@ + after_last(repo@, '/') + "…"@),
                ..old(self).view_of()
            }),
    {
        let short = last_path_part(repo);
        self.say(join3("removing ", short.as_str(), "…"));
    }

    /// Removing a model's weights (after the request).
    pub fn model_removed(&mut self, repo: &str, r: &Result<(), String>)
        requires
            old(self).wf(),
        ensures
            final(self).wf(),
            final(self).view_of() == (AppView {
                message: Some(
                    outcome_text(
                        result_text(*r),
                        "removed "@ + after_last(repo@, '/'),
                        "remove failed: "@,
                    ),
                ),
                ..old(self).view_of()
            }),
    {
        let short = last_path_part(repo);
        let ok = join2("removed ", short.as_str());
        self.report(r, ok.as_str(), "remove failed: ");
    }

    /// Installing a transcription runtime (before the request).
    pub fn begin_runtime_install(&mut self, id: &str)
        requires
            old(self).wf(),
        ensures
            final(self).wf(),
            final(self).view_of() == (AppView {
                message: Some("installing "@ + id@ + " runtime…"@),
                ..old(self).view_of()
            }),
    {
        self.say(join3("installing ", id, " runtime…"));
    }

    /// Installing a transcription runtime (after a rejected request).
    pub fn runtime_install_failed(&mut self, err: &str)
        requires
            old(self).wf(),
        ensures
            final(self).wf(),
            final(self).view_of() == (AppView {
                message: Some("runtime install failed: "@ + err@),
                ..old(self).view_of()
            }),
    {
        self.say(join2("runtime install failed: ", err));
    }

    /// Choosing the active runtime (after the request).
    pub fn runtime_set(&mut self, id: &str, r: &Result<(), String>)
        requires
            old(self).wf(),
        ensures
            final(self).wf(),
            final(self).view_of() == (AppView {
                message: Some(
                    outcome_text(result_text(*r), "active runtime: "@ + id@, "set runtime failed: "@),
                ),
                ..old(self).view_of()
            }),
    {
        let ok = join2("active runtime: ", id);
        self.report(r, ok.as_str(), "set runtime failed: ");
    }

    /// Enter in the language field: the code sent
    /// is the best-matching language's, else the typed text trimmed; the message names it (or
    /// auto-detection for an empty code or `auto`).
    pub fn begin_language(&mut self, typed: &str) -> (code: String)
        requires
            old(self).wf(),
        ensures
            final(self).wf(),
            code@ == match top_match(typed@) {
                Some(c) => c,
                None => trim(typed@),
            },
            final(self).view_of() == (AppView {
                message: Some(
                    if code@.len() == 0 || code@ == "auto"@ {
                        "language: auto-detect"@
                    } else {
                        "language: "@ + code@
                    },
                ),
                ..old(self).view_of()
            }),
    {
        let code = match top_lang_match(typed) {
            Some(c) => owned(c),
            None => trim_str(typed),
        };
        if code.as_str().unicode_len() == 0 || str_eq(code.as_str(), "auto") {
            self.say(owned("language: auto-detect"));
        } else {
            self.say(join2("language: ", code.as_str()));
        }
        code
    }

    /// A rejected language change.
    pub fn language_failed(&mut self, err: &str)
        requires
            old(self).wf(),
        ensures
            final(self).wf(),
            final(self).view_of() == (AppView {
                message: Some("set language failed: "@ + err@),
                ..old(self).view_of()
            }),
    {
        self.say(join2("set language failed: ", err));
    }

    /// Switching a live capture's microphone (before the request): switching to a device, or turning the microphone off.
    pub fn begin_mic_switch(&mut self, device: Option<&str>)
        requires
            old(self).wf(),
        ensures
            final(self).wf(),
            final(self).view_of() == (AppView {
                message: Some(
                    if device is Some {
                        "switching microphone…"@
                    } else {
                        "turning microphone off…"@
                    },
                ),
                ..old(self).view_of()
            }),
    {
        if device.is_some() {
            self.say(owned("switching microphone…"));
        } else {
            self.say(owned("turning microphone off…"));
        }
    }

    /// A rejected microphone switch.
    pub fn mic_switch_failed(&mut self, err: &str)
        requires
            old(self).wf(),
        ensures
            final(self).wf(),
            final(self).view_of() == (AppView {
                message: Some("mic switch failed: "@ + err@),
                ..old(self).view_of()
            }),
    {
        self.say(join2("mic switch failed: ", err));
    }

    /// Importing a media file (before the file is chosen).
    pub fn begin_import(&mut self)
        requires
            old(self).wf(),
        ensures
            final(self).wf(),
            final(self).view_of() == (AppView {
                message: Some("choose a file to import…"@),
                ..old(self).view_of()
            }),
    {
        self.say(owned("choose a file to import…"));
    }

    /// Importing a media file (after the request): the chosen file's name while it imports, the error, or
    /// that no file was chosen.
    pub fn import_sent(&mut self, r: &Option<Result<String, String>>)
        requires
            old(self).wf(),
        ensures
            final(self).wf(),
            final(self).view_of() == (AppView {
                message: Some(
                    match r {
                        Some(Ok(path)) => "importing "@ + after_last(path@, '/') + "…"@,
                        Some(Err(e)) => "import failed: "@ + e@,
                        None => "import cancelled"@,
                    },
                ),
                ..old(self).view_of()
            }),
    {
        match r {
            Some(Ok(path)) => {
                let name = last_path_part(path.as_str());
                self.say(join3("importing ", name.as_str(), "…"));
            },
            Some(Err(e)) => self.say(join2("import failed: ", e.as_str())),
            None => self.say(owned("import cancelled")),
        }
    }

    /// Starting the once-a-second poll: it starts only when it does not run yet. Returns whether
    /// it starts.
    pub fn begin_polling(&mut self) -> (starts: bool)
        requires
            old(self).wf(),
        ensures
            final(self).wf(),
            starts == !old(self).view_of().polling,
            final(self).view_of() == (AppView { polling: true, ..old(self).view_of() }),
    {
        let starts = !self.polling;
        self.polling = true;
        starts
    }

    /// Whether an index build of `sid` is in flight.
    pub fn is_indexing(&self, sid: &str) -> (r: bool)
        requires
            self.wf(),
        ensures
            r == self.view_of().indexing.contains(sid@),
    {
        self.indexing.contains(sid)
    }
}

/// The opening of the summarization prompt, up to the capture folder.
pub open spec fn summary_head() -> Seq<char> {
    "Summarize this screen + audio capture for me.\n\nThe capture is in this folder:\n  "@
}

/// The rest of the summarization prompt, after the capture folder.
pub open spec fn summary_tail() -> Seq<char> {
    "\n\nIt contains:\n\
     - transcript.jsonl — timestamped speech-to-text (one JSON object per line)\n\
     - screenshots/ — timestamped frames of the captured window\n\
     - session.json — metadata (app/window, timing, counts)\n\
     - output.log / stdout.log / stderr.log — process logs (if a launched process)\n\n\
     Read the transcript and skim the screenshots, then give me:\n\
     1. A concise summary of what happened / was discussed.\n\
     2. Key points, decisions, and action items.\n\
     3. Anything notable on screen the transcript misses.\n\
     Cite timestamps where useful."@
}

/// The prompt that asks a coding agent to summarize the capture in folder `dir`.
pub fn summary_prompt(dir: &str) -> (r: String)
    ensures
        r@ == summary_head() + dir@ + summary_tail(),
{
    join3(
        "Summarize this screen + audio capture for me.\n\nThe capture is in this folder:\n  ",
        dir,
        "\n\nIt contains:\n\
         - transcript.jsonl — timestamped speech-to-text (one JSON object per line)\n\
         - screenshots/ — timestamped frames of the captured window\n\
         - session.json — metadata (app/window, timing, counts)\n\
         - output.log / stdout.log / stderr.log — process logs (if a launched process)\n\n\
         Read the transcript and skim the screenshots, then give me:\n\
         1. A concise summary of what happened / was discussed.\n\
         2. Key points, decisions, and action items.\n\
         3. Anything notable on screen the transcript misses.\n\
         Cite timestamps where useful.",
    )
}

/// A finished index build is never in flight afterwards, whatever else the poll did.
pub proof fn lemma_index_done_clears(s: AppView, sid: Seq<char>, err: Option<Seq<char>>)
    ensures
        !index_step(s, sid, err).indexing.contains(sid),
        index_step(s, sid, err).indexing == s.indexing.remove(sid),
{
    assert(s.indexing.remove(sid) =~= if s.indexing.contains(sid) {
        s.indexing.remove(sid)
    } else {
        s.indexing
    });
}

/// The sessions of a list of finished index builds.
pub open spec fn done_sessions(done: Seq<(Seq<char>, Option<Seq<char>>)>) -> Set<Seq<char>> {
    Set::new(|sid: Seq<char>| exists|k: int| 0 <= k < done.len() && (#[trigger] done[k]).0 == sid)
}

/// The index builds in flight after the poll handled finished builds are those in flight
/// before, less every session whose build finished (with or without an error).
pub proof fn lemma_index_steps_clear(s: AppView, done: Seq<(Seq<char>, Option<Seq<char>>)>)
    ensures
        index_steps(s, done).indexing == s.indexing.difference(done_sessions(done)),
    decreases done.len(),
{
    if done.len() == 0 {
        assert(s.indexing.difference(done_sessions(done)) =~= s.indexing);
    } else {
        let prev = done.drop_last();
        let d = done.last();
        lemma_index_steps_clear(s, prev);
        lemma_index_done_clears(index_steps(s, prev), d.0, d.1);
        assert forall|x: Seq<char>| done_sessions(done).contains(x) <==> (done_sessions(
            prev,
        ).contains(x) || x == d.0) by {
            if done_sessions(done).contains(x) {
                let k = choose|k: int| 0 <= k < done.len() && (#[trigger] done[k]).0 == x;
                if k < done.len() - 1 {
                    assert(prev[k] == done[k]);
                }
            }
            if done_sessions(prev).contains(x) {
                let k = choose|k: int| 0 <= k < prev.len() && (#[trigger] prev[k]).0 == x;
                assert(done[k] == prev[k]);
            }
            if x == d.0 {
                assert(done[done.len() - 1] == d);
            }
        }
        assert(index_steps(s, done).indexing =~= s.indexing.difference(done_sessions(done)));
    }
}

/// The re-transcribe the window waits for is either still the same or no longer awaited after
/// the poll handled finished re-transcribes; it is no longer awaited once its own finished.
pub proof fn lemma_retranscribe_steps_clear(s: AppView, done: Seq<Seq<char>>)
    ensures
        retranscribe_steps(s, done).retranscribing == s.retranscribing
            || retranscribe_steps(s, done).retranscribing is None,
        s.retranscribing matches Some(sid) && done.contains(sid)
            ==> retranscribe_steps(s, done).retranscribing is None,
    decreases done.len(),
{
    if done.len() > 0 {
        let prev = done.drop_last();
        lemma_retranscribe_steps_clear(s, prev);
        if let Some(sid) = s.retranscribing {
            if done.contains(sid) && done.last() != sid {
                let k = choose|k: int| 0 <= k < done.len() && done[k] == sid;
                assert(k < done.len() - 1);
                assert(prev[k] == sid);
            }
        }
    }
}

/// A re-transcribe ends for the window as soon as its end event has been read and the poll
/// has run: the end event queues the session, and the poll stops waiting for it.
pub proof fn lemma_retranscribe_end_reaches_window(
    w: AppView,
    live: crate::live::LiveView,
    e: crate::live::EventView,
    sid: Seq<char>,
)
    requires
        crate::live::kind_of(e.kind) == crate::live::EventKind::RetranscribeEnd,
        e.session_id == Some(sid),
        w.retranscribing == Some(sid),
    ensures
        retranscribe_steps(w, crate::live::next(live, e).retranscribe_done).retranscribing is None,
{
    let done = crate::live::next(live, e).retranscribe_done;
    assert(done == live.retranscribe_done.push(sid));
    assert(done[done.len() - 1] == sid);
    lemma_retranscribe_steps_clear(w, done);
}

/// An index build ends for the window as soon as its done or error event has been read and
/// the poll has run: the event queues the session, and the poll clears its in-flight mark.
pub proof fn lemma_index_end_reaches_window(
    w: AppView,
    live: crate::live::LiveView,
    e: crate::live::EventView,
    sid: Seq<char>,
)
    requires
        crate::live::kind_of(e.kind) == crate::live::EventKind::IndexDone
            || crate::live::kind_of(e.kind) == crate::live::EventKind::IndexError,
        e.session_id == Some(sid),
    ensures
        !index_steps(w, crate::live::next(live, e).index_done).indexing.contains(sid),
{
    let done = crate::live::next(live, e).index_done;
    assert(done[done.len() - 1].0 == sid);
    lemma_index_steps_clear(w, done);
    assert(done_sessions(done).contains(sid));
}

/// The daemon state one poll yields: the daemon with its health, sessions and permissions while
/// it answers; nothing (and no sessions, default permissions) when none is found or its health
/// probe fails.
pub struct PollState {
    pub daemon: Option<Daemon>,
    pub health: Option<Health>,
    pub sessions: Vec<Session>,
    pub permissions: Permissions,
}

/// The daemon state of one poll, from the daemon found (if any) and what it answered: the first
/// health probe (`available`) decides whether the daemon counts as there; then a failed second
/// health probe reads as no health, a failed session list as empty and failed permissions as
/// the defaults. Without an available daemon all of it is reset.
pub fn poll_state(
    found: Option<Daemon>,
    available: bool,
    health: Result<Health, String>,
    sessions: Result<Vec<Session>, String>,
    permissions: Result<Permissions, String>,
) -> (r: PollState)
    ensures
        (found is Some && available) ==> {
            &&& r.daemon == found
            &&& r.health == match health {
                Ok(h) => Some(h),
                Err(_) => None,
            }
            &&& r.sessions@ == match sessions {
                Ok(v) => v@,
                Err(_) => Seq::<Session>::empty(),
            }
            &&& match permissions {
                Ok(p) => r.permissions == p,
                Err(_) => unreported(r.permissions),
            }
        },
        !(found is Some && available) ==> {
            &&& r.daemon is None
            &&& r.health is None
            &&& r.sessions@.len() == 0
            &&& unreported(r.permissions)
        },
{
    match found {
        Some(d) if available => PollState {
            daemon: Some(d),
            health: match health {
                Ok(h) => Some(h),
                Err(_) => None,
            },
            sessions: match sessions {
                Ok(v) => v,
                Err(_) => Vec::new(),
            },
            permissions: match permissions {
                Ok(p) => p,
                Err(_) => unknown_permissions(),
            },
        },
        _ => PollState {
            daemon: None,
            health: None,
            sessions: Vec::new(),
            permissions: unknown_permissions(),
        },
    }
}

/// Whether permissions are the ones shown before the daemon reports any: all fields empty.
pub open spec fn unreported(p: Permissions) -> bool {
    p.platform@.len() == 0 && p.screen_recording@.len() == 0 && p.microphone@.len() == 0
}

/// The permissions shown before the daemon reports any.
fn unknown_permissions() -> (p: Permissions)
    ensures
        unreported(p),
{
    Permissions { platform: String::new(), screen_recording: String::new(), microphone: String::new() }
}

/// After a poll a live session is chosen whenever a capture is running.
pub proof fn lemma_poll_picks_running(
    s: AppView,
    sessions: Seq<Session>,
    retranscribed: Seq<Seq<char>>,
    imported: Option<Result<Seq<char>, Seq<char>>>,
    indexed: Seq<(Seq<char>, Option<Seq<char>>)>,
)
    requires
        newest_running(sessions) is Some,
    ensures
        poll_result(s, sessions, retranscribed, imported, indexed).selected_session is Some,
{
}

} // verus!
