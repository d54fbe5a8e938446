//! Live state fed by the daemon's `/v1/events` stream: the watched session's transcript and
//! latest screenshot, plus daemon-wide progress (model downloads, runtime installs,
//! re-transcribes, imports, index builds). Each stream line is one event; `LiveState::apply`
//! is the transition the reader thread performs for it.
//!
//! Fractions travel as the bit pattern of the event's `f64` value (`f64::to_bits`), so the
//! state stores exactly what arrived and the renderer converts it back.

use vstd::prelude::*;
use crate::keyed::KeyedMap;
use crate::text::{chars_of, has_prefix, owned, str_eq, string_of, trim, trim_str};

verus! {

/// One decoded event of the stream: the string fields the client reads (`None` where the field
/// is absent or not a string) and the numeric `fraction` (as `f64` bits; `None` where absent or
/// not a number).
pub struct StreamEvent {
    pub kind: Option<String>,
    pub session_id: Option<String>,
    pub repo: Option<String>,
    pub id: Option<String>,
    pub phase: Option<String>,
    pub fraction: Option<u64>,
    pub error: Option<String>,
    pub text: Option<String>,
    pub path: Option<String>,
}

/// The mathematical content of a `StreamEvent`.
pub struct EventView {
    pub kind: Option<Seq<char>>,
    pub session_id: Option<Seq<char>>,
    pub repo: Option<Seq<char>>,
    pub id: Option<Seq<char>>,
    pub phase: Option<Seq<char>>,
    pub fraction: Option<u64>,
    pub error: Option<Seq<char>>,
    pub text: Option<Seq<char>>,
    pub path: Option<Seq<char>>,
}

impl View for StreamEvent {
    type V = EventView;

    open spec fn view(&self) -> EventView {
        EventView {
            kind: self.kind.deep_view(),
            session_id: self.session_id.deep_view(),
            repo: self.repo.deep_view(),
            id: self.id.deep_view(),
            phase: self.phase.deep_view(),
            fraction: self.fraction,
            error: self.error.deep_view(),
            text: self.text.deep_view(),
            path: self.path.deep_view(),
        }
    }
}

/// The event types the client acts on.
#[derive(Clone, Copy, PartialEq, Eq, Structural, Debug)]
pub enum EventKind {
    AsrDownload,
    AsrDownloadEnd,
    RuntimeInstall,
    RuntimeInstallEnd,
    Retranscribe,
    RetranscribeEnd,
    Import,
    ImportDone,
    ImportError,
    Index,
    IndexDone,
    IndexError,
    TranscriptSegment,
    ScreenshotTaken,
    Other,
}

/// The event type named by an event's `type` field.
pub open spec fn kind_of(k: Option<Seq<char>>) -> EventKind {
    if k == Some("asr_download"@) {
        EventKind::AsrDownload
    } else if k == Some("asr_download_done"@) || k == Some("asr_download_error"@) {
        EventKind::AsrDownloadEnd
    } else if k == Some("asr_runtime_install"@) {
        EventKind::RuntimeInstall
    } else if k == Some("asr_runtime_install_done"@) || k == Some("asr_runtime_install_error"@) {
        EventKind::RuntimeInstallEnd
    } else if k == Some("retranscribe"@) {
        EventKind::Retranscribe
    } else if k == Some("retranscribe_done"@) || k == Some("retranscribe_error"@) {
        EventKind::RetranscribeEnd
    } else if k == Some("import"@) {
        EventKind::Import
    } else if k == Some("import_done"@) {
        EventKind::ImportDone
    } else if k == Some("import_error"@) {
        EventKind::ImportError
    } else if k == Some("index"@) {
        EventKind::Index
    } else if k == Some("index_done"@) {
        EventKind::IndexDone
    } else if k == Some("index_error"@) {
        EventKind::IndexError
    } else if k == Some("transcript_segment"@) {
        EventKind::TranscriptSegment
    } else if k == Some("screenshot_taken"@) {
        EventKind::ScreenshotTaken
    } else {
        EventKind::Other
    }
}

/// Whether an optional string holds exactly `lit`.
fn opt_is(o: &Option<String>, lit: &str) -> (r: bool)
    ensures
        r == (o.deep_view() == Some(lit@)),
{
    match o {
        Some(s) => str_eq(s.as_str(), lit),
        None => false,
    }
}

/// Classifies an event by its `type` field.
pub fn classify(kind: &Option<String>) -> (k: EventKind)
    ensures
        k == kind_of(kind.deep_view()),
{
    if opt_is(kind, "asr_download") {
        EventKind::AsrDownload
    } else if opt_is(kind, "asr_download_done") || opt_is(kind, "asr_download_error") {
        EventKind::AsrDownloadEnd
    } else if opt_is(kind, "asr_runtime_install") {
        EventKind::RuntimeInstall
    } else if opt_is(kind, "asr_runtime_install_done") || opt_is(kind, "asr_runtime_install_error") {
        EventKind::RuntimeInstallEnd
    } else if opt_is(kind, "retranscribe") {
        EventKind::Retranscribe
    } else if opt_is(kind, "retranscribe_done") || opt_is(kind, "retranscribe_error") {
        EventKind::RetranscribeEnd
    } else if opt_is(kind, "import") {
        EventKind::Import
    } else if opt_is(kind, "import_done") {
        EventKind::ImportDone
    } else if opt_is(kind, "import_error") {
        EventKind::ImportError
    } else if opt_is(kind, "index") {
        EventKind::Index
    } else if opt_is(kind, "index_done") {
        EventKind::IndexDone
    } else if opt_is(kind, "index_error") {
        EventKind::IndexError
    } else if opt_is(kind, "transcript_segment") {
        EventKind::TranscriptSegment
    } else if opt_is(kind, "screenshot_taken") {
        EventKind::ScreenshotTaken
    } else {
        EventKind::Other
    }
}

/// The payload of a stream line: the text after a leading `data: `, if the line has one.
pub open spec fn sse_payload(line: Seq<char>) -> Option<Seq<char>> {
    if "data: "@.is_prefix_of(line) {
        Some(line.subrange(6, line.len() as int))
    } else {
        None
    }
}

/// The payload of a stream line (`strip_prefix("data: ")`).
pub fn sse_data(line: &str) -> (r: Option<String>)
    ensures
        r.deep_view() == sse_payload(line@),
{
    let l = chars_of(line);
    let p = chars_of("data: ");
    proof {
        reveal_strlit("data: ");
    }
    if has_prefix(l.as_slice(), p.as_slice()) {
        let mut rest: Vec<char> = Vec::new();
        let n = l.len();
        let mut i: usize = 6;
        while i < n
            invariant
                6 <= i <= n,
                n == l@.len(),
                rest@ == l@.subrange(6, i as int),
            decreases n - i,
        {
            rest.push(l[i]);
            assert(l@.subrange(6, i as int).push(l@[i as int]) =~= l@.subrange(6, i + 1));
            i = i + 1;
        }
        Some(string_of(rest.as_slice()))
    } else {
        None
    }
}

/// The mathematical content of the live state.
pub struct LiveView {
    pub watched: Option<Seq<char>>,
    pub transcript: Seq<Seq<char>>,
    pub last_shot: Option<Seq<char>>,
    pub asr_progress: Map<Seq<char>, u64>,
    pub retranscribe: Map<Seq<char>, u64>,
    pub retranscribe_done: Seq<Seq<char>>,
    pub import_progress: Option<(Seq<char>, u64)>,
    pub import_result: Option<Result<Seq<char>, Seq<char>>>,
    pub index_progress: Map<Seq<char>, (Seq<char>, u64)>,
    pub runtime_install: Map<Seq<char>, u64>,
    pub index_done: Seq<(Seq<char>, Option<Seq<char>>)>,
}

/// The state written by the stream reader and read by the renderer.
pub struct LiveState {
    watched: Option<String>,
    transcript: Vec<String>,
    last_shot: Option<String>,
    asr_progress: KeyedMap<u64>,
    retranscribe: KeyedMap<u64>,
    retranscribe_done: Vec<String>,
    import_progress: Option<(String, u64)>,
    import_result: Option<Result<String, String>>,
    index_progress: KeyedMap<(String, u64)>,
    runtime_install: KeyedMap<u64>,
    index_done: Vec<(String, Option<String>)>,
}

/// The view of an optional result of strings.
pub open spec fn result_view(r: Option<Result<String, String>>) -> Option<Result<Seq<char>, Seq<char>>> {
    match r {
        Some(Ok(s)) => Some(Ok(s@)),
        Some(Err(e)) => Some(Err(e@)),
        None => None,
    }
}

impl View for LiveState {
    type V = LiveView;

    closed spec fn view(&self) -> LiveView {
        LiveView {
            watched: self.watched.deep_view(),
            transcript: self.transcript.deep_view(),
            last_shot: self.last_shot.deep_view(),
            asr_progress: self.asr_progress@,
            retranscribe: self.retranscribe@,
            retranscribe_done: self.retranscribe_done.deep_view(),
            import_progress: match self.import_progress {
                Some((p, f)) => Some((p@, f)),
                None => None,
            },
            import_result: result_view(self.import_result),
            index_progress: self.index_progress@,
            runtime_install: self.runtime_install@,
            index_done: self.index_done.deep_view(),
        }
    }
}

/// The fraction an event carries, or `0.0` (whose bits are 0) when it has none.
pub open spec fn fraction_or_zero(f: Option<u64>) -> u64 {
    match f {
        Some(b) => b,
        None => 0,
    }
}

/// An optional string, or a default.
pub open spec fn or_default(o: Option<Seq<char>>, d: Seq<char>) -> Seq<char> {
    match o {
        Some(s) => s,
        None => d,
    }
}

/// The state after one event.
pub open spec fn next(s: LiveView, e: EventView) -> LiveView {
    match kind_of(e.kind) {
        EventKind::AsrDownload => if e.repo is Some && e.fraction is Some {
            LiveView { asr_progress: s.asr_progress.insert(e.repo->0, e.fraction->0), ..s }
        } else {
            s
        },
        EventKind::AsrDownloadEnd => if e.repo is Some {
            LiveView { asr_progress: s.asr_progress.remove(e.repo->0), ..s }
        } else {
            s
        },
        EventKind::RuntimeInstall => if e.id is Some && e.fraction is Some {
            LiveView { runtime_install: s.runtime_install.insert(e.id->0, e.fraction->0), ..s }
        } else {
            s
        },
        EventKind::RuntimeInstallEnd => if e.id is Some {
            LiveView { runtime_install: s.runtime_install.remove(e.id->0), ..s }
        } else {
            s
        },
        EventKind::Retranscribe => if e.session_id is Some && e.fraction is Some {
            LiveView {
                retranscribe: s.retranscribe.insert(e.session_id->0, e.fraction->0),
                ..s
            }
        } else {
            s
        },
        EventKind::RetranscribeEnd => if e.session_id is Some {
            LiveView {
                retranscribe: s.retranscribe.remove(e.session_id->0),
                retranscribe_done: s.retranscribe_done.push(e.session_id->0),
                ..s
            }
        } else {
            s
        },
        EventKind::Import => LiveView {
            import_progress: Some((or_default(e.phase, ""@), fraction_or_zero(e.fraction))),
            ..s
        },
        EventKind::ImportDone => LiveView {
            import_progress: None,
            import_result: if e.session_id is Some {
                Some(Ok(e.session_id->0))
            } else {
                s.import_result
            },
            ..s
        },
        EventKind::ImportError => LiveView {
            import_progress: None,
            import_result: Some(Err(or_default(e.error, "import failed"@))),
            ..s
        },
        EventKind::Index => if e.session_id is Some {
            LiveView {
                index_progress: s.index_progress.insert(
                    e.session_id->0,
                    (or_default(e.phase, ""@), fraction_or_zero(e.fraction)),
                ),
                ..s
            }
        } else {
            s
        },
        EventKind::IndexDone => if e.session_id is Some {
            LiveView {
                index_progress: s.index_progress.remove(e.session_id->0),
                index_done: s.index_done.push((e.session_id->0, None)),
                ..s
            }
        } else {
            s
        },
        EventKind::IndexError => if e.session_id is Some {
            LiveView {
                index_progress: s.index_progress.remove(e.session_id->0),
                index_done: s.index_done.push(
                    (e.session_id->0, Some(or_default(e.error, "index failed"@))),
                ),
                ..s
            }
        } else {
            s
        },
        EventKind::TranscriptSegment => if s.watched is Some && s.watched == e.session_id
            && e.text is Some {
            LiveView { transcript: s.transcript.push(trim(e.text->0)), ..s }
        } else {
            s
        },
        EventKind::ScreenshotTaken => if s.watched is Some && s.watched == e.session_id
            && e.path is Some {
            LiveView { last_shot: e.path, ..s }
        } else {
            s
        },
        EventKind::Other => s,
    }
}


/// A done or error event removes the progress entry it names: model downloads, runtime
/// installs, re-transcribes and index builds all end with no entry for their key.
pub proof fn lemma_end_events_clear_progress(s: LiveView, e: EventView, key: Seq<char>)
    ensures
        kind_of(e.kind) == EventKind::AsrDownloadEnd && e.repo == Some(key)
            ==> !next(s, e).asr_progress.contains_key(key),
        kind_of(e.kind) == EventKind::RuntimeInstallEnd && e.id == Some(key)
            ==> !next(s, e).runtime_install.contains_key(key),
        kind_of(e.kind) == EventKind::RetranscribeEnd && e.session_id == Some(key)
            ==> !next(s, e).retranscribe.contains_key(key),
        (kind_of(e.kind) == EventKind::IndexDone || kind_of(e.kind) == EventKind::IndexError)
            && e.session_id == Some(key) ==> !next(s, e).index_progress.contains_key(key),
{
}

/// A progress event followed by the matching end event leaves the download map as it was
/// before, without the key.
pub proof fn lemma_download_progress_then_end(
    s: LiveView,
    progress: EventView,
    end: EventView,
    repo: Seq<char>,
    frac: u64,
)
    requires
        kind_of(progress.kind) == EventKind::AsrDownload,
        progress.repo == Some(repo),
        progress.fraction == Some(frac),
        kind_of(end.kind) == EventKind::AsrDownloadEnd,
        end.repo == Some(repo),
    ensures
        next(s, progress).asr_progress.contains_key(repo),
        next(s, progress).asr_progress[repo] == frac,
        next(next(s, progress), end).asr_progress == s.asr_progress.remove(repo),
{
    assert(s.asr_progress.insert(repo, frac).remove(repo) =~= s.asr_progress.remove(repo));
}

/// No event changes which session is watched.
pub proof fn lemma_events_keep_watched(s: LiveView, e: EventView)
    ensures
        next(s, e).watched == s.watched,
{
}

/// The transcript only grows: every event keeps the lines already there.
pub proof fn lemma_transcript_grows(s: LiveView, e: EventView)
    ensures
        s.transcript.is_prefix_of(next(s, e).transcript),
        next(s, e).transcript.len() <= s.transcript.len() + 1,
{
    assert(s.transcript =~= s.transcript.subrange(0, s.transcript.len() as int));
    if kind_of(e.kind) == EventKind::TranscriptSegment && s.watched is Some && s.watched
        == e.session_id && e.text is Some {
        assert(s.transcript =~= s.transcript.push(trim(e.text->0)).subrange(
            0,
            s.transcript.len() as int,
        ));
    }
}

/// Events about any session other than the watched one (or events while nothing is watched)
/// leave the transcript and the screenshot as they were.
pub proof fn lemma_other_sessions_leave_pane(s: LiveView, e: EventView)
    requires
        s.watched is None || s.watched != e.session_id,
    ensures
        next(s, e).transcript == s.transcript,
        next(s, e).last_shot == s.last_shot,
{
}

/// A copy of an optional string, or the given default.
fn string_or(o: &Option<String>, d: &str) -> (r: String)
    ensures
        r@ == or_default(o.deep_view(), d@),
{
    match o {
        Some(s) => s.clone(),
        None => owned(d),
    }
}

impl LiveState {
    /// Well-formedness: every progress map is well formed.
    pub closed spec fn wf(&self) -> bool {
        &&& self.asr_progress.wf()
        &&& self.retranscribe.wf()
        &&& self.index_progress.wf()
        &&& self.runtime_install.wf()
    }

    /// Nothing watched, nothing in flight.
    pub fn new() -> (s: Self)
        ensures
            s.wf(),
            s@.watched is None,
            s@.transcript.len() == 0,
            s@.last_shot is None,
            s@.asr_progress == Map::<Seq<char>, u64>::empty(),
            s@.retranscribe == Map::<Seq<char>, u64>::empty(),
            s@.retranscribe_done.len() == 0,
            s@.import_progress is None,
            s@.import_result is None,
            s@.index_progress == Map::<Seq<char>, (Seq<char>, u64)>::empty(),
            s@.runtime_install == Map::<Seq<char>, u64>::empty(),
            s@.index_done.len() == 0,
    {
        let s = LiveState {
            watched: None,
            transcript: Vec::new(),
            last_shot: None,
            asr_progress: KeyedMap::new(),
            retranscribe: KeyedMap::new(),
            retranscribe_done: Vec::new(),
            import_progress: None,
            import_result: None,
            index_progress: KeyedMap::new(),
            runtime_install: KeyedMap::new(),
            index_done: Vec::new(),
        };
        assert(s.transcript.deep_view() =~= Seq::<Seq<char>>::empty());
        assert(s.retranscribe_done.deep_view() =~= Seq::<Seq<char>>::empty());
        assert(s.index_done.deep_view() =~= Seq::<(Seq<char>, Option<Seq<char>>)>::empty());
        s
    }

    /// Applies one stream event.
    pub fn apply(&mut self, ev: &StreamEvent)
        requires
            old(self).wf(),
        ensures
            final(self).wf(),
            final(self)@ == next(old(self)@, ev@),
            kind_of(ev@.kind) == EventKind::Import ==> final(self)@.import_progress == Some(
                (
                    match ev@.phase {
                        Some(p) => p,
                        None => Seq::<char>::empty(),
                    },
                    match ev@.fraction {
                        Some(f) => f,
                        None => 0u64,
                    },
                ),
            ),
    {
        proof {
            reveal_strlit("");
            assert(""@ =~= Seq::<char>::empty());
        }
        let k = classify(&ev.kind);
        match k {
            EventKind::AsrDownload => {
                if let (Some(repo), Some(f)) = (&ev.repo, ev.fraction) {
                    self.asr_progress.insert(repo.clone(), f);
                }
            },
            EventKind::AsrDownloadEnd => {
                if let Some(repo) = &ev.repo {
                    self.asr_progress.remove(repo.as_str());
                }
            },
            EventKind::RuntimeInstall => {
                if let (Some(id), Some(f)) = (&ev.id, ev.fraction) {
                    self.runtime_install.insert(id.clone(), f);
                }
            },
            EventKind::RuntimeInstallEnd => {
                if let Some(id) = &ev.id {
                    self.runtime_install.remove(id.as_str());
                }
            },
            EventKind::Retranscribe => {
                if let (Some(sid), Some(f)) = (&ev.session_id, ev.fraction) {
                    self.retranscribe.insert(sid.clone(), f);
                }
            },
            EventKind::RetranscribeEnd => {
                if let Some(sid) = &ev.session_id {
                    self.retranscribe.remove(sid.as_str());
                    let ghost before = self.retranscribe_done.deep_view();
                    self.retranscribe_done.push(sid.clone());
                    assert(self.retranscribe_done.deep_view() =~= before.push(sid@));
                }
            },
            EventKind::Import => {
                let phase = string_or(&ev.phase, "");
                let frac = match ev.fraction {
                    Some(b) => b,
                    None => 0,
                };
                self.import_progress = Some((phase, frac));
            },
            EventKind::ImportDone => {
                self.import_progress = None;
                if let Some(sid) = &ev.session_id {
                    self.import_result = Some(Ok(sid.clone()));
                }
            },
            EventKind::ImportError => {
                self.import_progress = None;
                let msg = string_or(&ev.error, "import failed");
                self.import_result = Some(Err(msg));
            },
            EventKind::Index => {
                if let Some(sid) = &ev.session_id {
                    let phase = string_or(&ev.phase, "");
                    let frac = match ev.fraction {
                        Some(b) => b,
                        None => 0,
                    };
                    self.index_progress.insert(sid.clone(), (phase, frac));
                }
            },
            EventKind::IndexDone => {
                if let Some(sid) = &ev.session_id {
                    self.index_progress.remove(sid.as_str());
                    let ghost before = self.index_done.deep_view();
                    self.index_done.push((sid.clone(), None));
                    assert(self.index_done.deep_view() =~= before.push((sid@, None)));
                }
            },
            EventKind::IndexError => {
                if let Some(sid) = &ev.session_id {
                    self.index_progress.remove(sid.as_str());
                    let err = string_or(&ev.error, "index failed");
                    let ghost before = self.index_done.deep_view();
                    let ghost ev_err = err@;
                    self.index_done.push((sid.clone(), Some(err)));
                    assert(self.index_done.deep_view() =~= before.push((sid@, Some(ev_err))));
                }
            },
            EventKind::TranscriptSegment => {
                if self.is_watched(&ev.session_id) {
                    if let Some(t) = &ev.text {
                        let line = trim_str(t.as_str());
                        let ghost before = self.transcript.deep_view();
                        let ghost lv = line@;
                        self.transcript.push(line);
                        assert(self.transcript.deep_view() =~= before.push(lv));
                    }
                }
            },
            EventKind::ScreenshotTaken => {
                if self.is_watched(&ev.session_id) {
                    if let Some(p) = &ev.path {
                        self.last_shot = Some(p.clone());
                    }
                }
            },
            EventKind::Other => {},
        }
    }

    /// Whether events naming `sid` concern the watched session.
    fn is_watched(&self, sid: &Option<String>) -> (r: bool)
        ensures
            r == (self@.watched is Some && self@.watched == sid.deep_view()),
    {
        match (&self.watched, sid) {
            (Some(t), Some(s)) => str_eq(t.as_str(), s.as_str()),
            _ => false,
        }
    }

    /// Starts watching session `id`: its transcript and screenshot pane start empty.
    pub fn watch(&mut self, id: String)
        requires
            old(self).wf(),
        ensures
            final(self).wf(),
            final(self)@ == (LiveView {
                watched: Some(id@),
                transcript: Seq::empty(),
                last_shot: None,
                ..old(self)@
            }),
    {
        self.watched = Some(id);
        self.transcript = Vec::new();
        self.last_shot = None;
        assert(self.transcript.deep_view() =~= Seq::<Seq<char>>::empty());
    }

    /// Replaces the transcript with an earlier fetch of session `id`'s segments (trimmed),
    /// provided `id` is still the watched session; otherwise nothing changes.
    pub fn backfill(&mut self, id: &str, segments: &Vec<String>)
        requires
            old(self).wf(),
        ensures
            final(self).wf(),
            final(self)@ == (if old(self)@.watched == Some(id@) {
                LiveView {
                    transcript: segments.deep_view().map_values(|t: Seq<char>| trim(t)),
                    ..old(self)@
                }
            } else {
                old(self)@
            }),
    {
        let still = match &self.watched {
            Some(t) => str_eq(t.as_str(), id),
            None => false,
        };
        if still {
            let mut lines: Vec<String> = Vec::new();
            let n = segments.len();
            let mut i: usize = 0;
            while i < n
                invariant
                    n == segments@.len(),
                    i <= n,
                    lines.deep_view() =~= segments.deep_view().take(i as int).map_values(
                        |t: Seq<char>| trim(t),
                    ),
                decreases n - i,
            {
                let line = trim_str(segments[i].as_str());
                let ghost before = lines.deep_view();
                let ghost lv = line@;
                lines.push(line);
                assert(lines.deep_view() =~= before.push(lv));
                assert(segments.deep_view().take(i + 1).map_values(|t: Seq<char>| trim(t))
                    =~= segments.deep_view().take(i as int).map_values(|t: Seq<char>| trim(t)).push(
                    trim(segments@[i as int]@),
                ));
                i = i + 1;
            }
            assert(segments.deep_view().take(n as int) =~= segments.deep_view());
            self.transcript = lines;
        }
    }

    /// Marks a model download as started (progress 0).
    pub fn begin_download(&mut self, repo: String)
        requires
            old(self).wf(),
        ensures
            final(self).wf(),
            final(self)@ == (LiveView {
                asr_progress: old(self)@.asr_progress.insert(repo@, 0),
                ..old(self)@
            }),
    {
        self.asr_progress.insert(repo, 0);
    }

    /// Forgets a model download (its request failed).
    pub fn drop_download(&mut self, repo: &str)
        requires
            old(self).wf(),
        ensures
            final(self).wf(),
            final(self)@ == (LiveView {
                asr_progress: old(self)@.asr_progress.remove(repo@),
                ..old(self)@
            }),
    {
        self.asr_progress.remove(repo);
    }

    /// Marks a runtime install as started (progress 0).
    pub fn begin_runtime_install(&mut self, id: String)
        requires
            old(self).wf(),
        ensures
            final(self).wf(),
            final(self)@ == (LiveView {
                runtime_install: old(self)@.runtime_install.insert(id@, 0),
                ..old(self)@
            }),
    {
        self.runtime_install.insert(id, 0);
    }

    /// Forgets a runtime install (its request failed).
    pub fn drop_runtime_install(&mut self, id: &str)
        requires
            old(self).wf(),
        ensures
            final(self).wf(),
            final(self)@ == (LiveView {
                runtime_install: old(self)@.runtime_install.remove(id@),
                ..old(self)@
            }),
    {
        self.runtime_install.remove(id);
    }

    /// Marks a re-transcribe as started (progress 0).
    pub fn begin_retranscribe(&mut self, sid: String)
        requires
            old(self).wf(),
        ensures
            final(self).wf(),
            final(self)@ == (LiveView {
                retranscribe: old(self)@.retranscribe.insert(sid@, 0),
                ..old(self)@
            }),
    {
        self.retranscribe.insert(sid, 0);
    }

    /// Forgets a re-transcribe (its request failed).
    pub fn drop_retranscribe(&mut self, sid: &str)
        requires
            old(self).wf(),
        ensures
            final(self).wf(),
            final(self)@ == (LiveView {
                retranscribe: old(self)@.retranscribe.remove(sid@),
                ..old(self)@
            }),
    {
        self.retranscribe.remove(sid);
    }

    /// Marks an index build as started (phase `starting`, progress 0).
    pub fn begin_index(&mut self, sid: String)
        requires
            old(self).wf(),
        ensures
            final(self).wf(),
            final(self)@ == (LiveView {
                index_progress: old(self)@.index_progress.insert(sid@, ("starting"@, 0)),
                ..old(self)@
            }),
    {
        let phase = owned("starting");
        self.index_progress.insert(sid, (phase, 0));
    }

    /// Forgets an index build (its request failed).
    pub fn drop_index(&mut self, sid: &str)
        requires
            old(self).wf(),
        ensures
            final(self).wf(),
            final(self)@ == (LiveView {
                index_progress: old(self)@.index_progress.remove(sid@),
                ..old(self)@
            }),
    {
        self.index_progress.remove(sid);
    }

    /// Hands over (and clears) the sessions whose re-transcribe ended.
    pub fn take_retranscribe_done(&mut self) -> (done: Vec<String>)
        requires
            old(self).wf(),
        ensures
            final(self).wf(),
            done.deep_view() == old(self)@.retranscribe_done,
            final(self)@ == (LiveView { retranscribe_done: Seq::empty(), ..old(self)@ }),
    {
        let mut done: Vec<String> = Vec::new();
        std::mem::swap(&mut done, &mut self.retranscribe_done);
        assert(self.retranscribe_done.deep_view() =~= Seq::<Seq<char>>::empty());
        done
    }

    /// Hands over (and clears) the outcome of the last finished import.
    pub fn take_import_result(&mut self) -> (r: Option<Result<String, String>>)
        requires
            old(self).wf(),
        ensures
            final(self).wf(),
            result_view(r) == old(self)@.import_result,
            final(self)@ == (LiveView { import_result: None, ..old(self)@ }),
    {
        let mut r: Option<Result<String, String>> = None;
        std::mem::swap(&mut r, &mut self.import_result);
        r
    }

    /// Hands over (and clears) the index builds that ended, with their errors.
    pub fn take_index_done(&mut self) -> (done: Vec<(String, Option<String>)>)
        requires
            old(self).wf(),
        ensures
            final(self).wf(),
            done.deep_view() == old(self)@.index_done,
            final(self)@ == (LiveView { index_done: Seq::empty(), ..old(self)@ }),
    {
        let mut done: Vec<(String, Option<String>)> = Vec::new();
        std::mem::swap(&mut done, &mut self.index_done);
        assert(self.index_done.deep_view() =~= Seq::<(Seq<char>, Option<Seq<char>>)>::empty());
        done
    }

    /// The watched session.
    pub fn watched(&self) -> (r: &Option<String>)
        ensures
            r.deep_view() == self@.watched,
    {
        &self.watched
    }

    /// The watched session's transcript lines.
    pub fn transcript(&self) -> (r: &Vec<String>)
        ensures
            r.deep_view() == self@.transcript,
    {
        &self.transcript
    }

    /// The watched session's latest screenshot path.
    pub fn last_shot(&self) -> (r: &Option<String>)
        ensures
            r.deep_view() == self@.last_shot,
    {
        &self.last_shot
    }

    /// Download progress per model repo.
    pub fn asr_progress(&self) -> (r: &KeyedMap<u64>)
        requires
            self.wf(),
        ensures
            r.wf(),
            r@ == self@.asr_progress,
    {
        &self.asr_progress
    }

    /// Re-transcribe progress per session.
    pub fn retranscribe(&self) -> (r: &KeyedMap<u64>)
        requires
            self.wf(),
        ensures
            r.wf(),
            r@ == self@.retranscribe,
    {
        &self.retranscribe
    }

    /// Runtime-install progress per runtime id.
    pub fn runtime_install(&self) -> (r: &KeyedMap<u64>)
        requires
            self.wf(),
        ensures
            r.wf(),
            r@ == self@.runtime_install,
    {
        &self.runtime_install
    }

    /// Index-build phase and progress per session.
    pub fn index_progress(&self) -> (r: &KeyedMap<(String, u64)>)
        requires
            self.wf(),
        ensures
            r.wf(),
            r@ == self@.index_progress,
    {
        &self.index_progress
    }

    /// The running import's phase and progress.
    pub fn import_progress(&self) -> (r: &Option<(String, u64)>)
        ensures
            match *r {
                Some((p, f)) => self@.import_progress == Some((p@, f)),
                None => self@.import_progress is None,
            },
    {
        &self.import_progress
    }
}


/// An import event sets the import progress to the event's phase (empty when it has none) and
/// exactly its fraction (0.0, whose bits are 0, when it has none); an index event of a session
/// sets that session's progress the same way.
pub proof fn lemma_progress_events(s: LiveView, e: EventView)
    ensures
        kind_of(e.kind) == EventKind::Import ==> next(s, e).import_progress == Some(
            (
                match e.phase {
                    Some(p) => p,
                    None => Seq::<char>::empty(),
                },
                match e.fraction {
                    Some(f) => f,
                    None => 0u64,
                },
            ),
        ),
        kind_of(e.kind) == EventKind::Index && e.session_id is Some ==> next(s, e).index_progress
            == s.index_progress.insert(
            e.session_id->0,
            (
                match e.phase {
                    Some(p) => p,
                    None => Seq::<char>::empty(),
                },
                match e.fraction {
                    Some(f) => f,
                    None => 0u64,
                },
            ),
        ),
{
    reveal_strlit("");
    assert(""@ =~= Seq::<char>::empty());
    if kind_of(e.kind) == EventKind::Index && e.session_id is Some {
        assert(next(s, e).index_progress =~= s.index_progress.insert(
            e.session_id->0,
            (
                match e.phase {
                    Some(p) => p,
                    None => Seq::<char>::empty(),
                },
                match e.fraction {
                    Some(f) => f,
                    None => 0u64,
                },
            ),
        ));
    }
}


/// The outcome events of an import clear its progress: a done event with a session records
/// that session, an error event records its message (or `import failed`).
pub proof fn lemma_import_outcomes(s: LiveView, e: EventView)
    ensures
        kind_of(e.kind) == EventKind::ImportDone ==> next(s, e).import_progress is None,
        kind_of(e.kind) == EventKind::ImportDone && e.session_id is Some ==> next(s, e).import_result
            == Some(Ok::<Seq<char>, Seq<char>>(e.session_id->0)),
        kind_of(e.kind) == EventKind::ImportDone && e.session_id is None ==> next(s, e).import_result
            == s.import_result,
        kind_of(e.kind) == EventKind::ImportError ==> next(s, e).import_progress is None,
        kind_of(e.kind) == EventKind::ImportError ==> next(s, e).import_result == Some(
            Err::<Seq<char>, Seq<char>>(
                match e.error {
                    Some(m) => m,
                    None => "import failed"@,
                },
            ),
        ),
        kind_of(e.kind) == EventKind::AsrDownload && e.repo is Some && e.fraction is Some ==> next(
            s,
            e,
        ).asr_progress == s.asr_progress.insert(e.repo->0, e.fraction->0),
{
}

} // verus!
