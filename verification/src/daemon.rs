//! Client of the capture daemon's `/v1` API: the wire types, the request each API call makes
//! (method, URL, bearer token, query, JSON body, timeout) and how a reply becomes a result.
//! Sending requests and decoding JSON is done by the application around this module.

use vstd::prelude::*;
use crate::text::{chars_of, join2, join3, decimal, decimal_string, owned, trim, trim_str};

verus! {

/// A running daemon: its base URL and bearer token (from its discovery file).
#[derive(Clone, Debug)]
pub struct Daemon {
    pub endpoint: String,
    pub token: String,
}

/// `GET /v1/health`.
#[derive(Clone, Default, Debug)]
pub struct Health {
    pub ok: bool,
    pub version: String,
    pub api_version: String,
    pub pid: u32,
}

/// One capture session as the daemon summarizes it.
#[derive(Clone, Default, Debug)]
pub struct Session {
    pub session_id: String,
    pub state: String,
    pub screenshots: i64,
    pub transcript_segments: i64,
    pub audio_status: String,
    pub window_title: Option<String>,
    pub dir: String,
    pub has_screenshots: bool,
    pub has_audio: bool,
    pub has_mic: bool,
    pub mic_device: Option<String>,
    pub can_retranscribe: bool,
    pub can_index: bool,
}

/// Availability of the multimodal-index endpoint.
#[derive(Clone, Default, Debug)]
pub struct IndexStatus {
    pub available: bool,
    pub configured: bool,
}

/// An on-screen window that can be captured.
#[derive(Clone, Debug)]
pub struct WindowInfo {
    pub window_id: i64,
    pub pid: i64,
    pub app_name: String,
    pub title: String,
    pub width: i64,
    pub height: i64,
}

/// One transcript segment.
#[derive(Clone, Debug)]
pub struct TranscriptSeg {
    pub text: String,
}

/// One Whisper model of the catalog.
#[derive(Clone, Debug)]
pub struct AsrModel {
    pub repo: String,
    pub name: String,
    pub size_label: String,
    pub downloaded: bool,
    pub active: bool,
    pub downloading: bool,
}

/// The daemon's view of the OS permissions.
#[derive(Clone, Default, Debug)]
pub struct Permissions {
    pub platform: String,
    pub screen_recording: String,
    pub microphone: String,
}

/// A microphone / input device.
#[derive(Clone, Default, Debug)]
pub struct AudioDevice {
    pub id: String,
    pub name: String,
    pub default: bool,
}

/// The input devices the daemon lists.
#[derive(Clone, Default, Debug)]
pub struct AudioDevices {
    pub devices: Vec<AudioDevice>,
}

/// HTTP method.
#[derive(Clone, Copy, PartialEq, Eq, Structural, Debug)]
pub enum Method {
    Get,
    Post,
}

/// A JSON value of a request body. Numbers with a fraction travel as `f64` bits; a whole
/// number is `UInt` where it is not negative and fits in a `u64`, else `Int`.
#[derive(Clone, Debug)]
pub enum JsonValue {
    Null,
    Bool(bool),
    Int(i64),
    UInt(u64),
    Float(u64),
    Str(String),
    StrList(Vec<String>),
}

/// The mathematical content of a body value.
pub enum JsonView {
    Null,
    Bool(bool),
    Int(i64),
    UInt(u64),
    Float(u64),
    Str(Seq<char>),
    StrList(Seq<Seq<char>>),
}

impl View for JsonValue {
    type V = JsonView;

    open spec fn view(&self) -> JsonView {
        match self {
            JsonValue::Null => JsonView::Null,
            JsonValue::Bool(b) => JsonView::Bool(*b),
            JsonValue::Int(i) => JsonView::Int(*i),
            JsonValue::UInt(n) => JsonView::UInt(*n),
            JsonValue::Float(f) => JsonView::Float(*f),
            JsonValue::Str(s) => JsonView::Str(s@),
            JsonValue::StrList(v) => JsonView::StrList(v.deep_view()),
        }
    }
}

/// A JSON object body: its members in order.
pub type Body = Vec<(String, JsonValue)>;

/// The view of a body.
pub open spec fn body_view(b: Body) -> Seq<(Seq<char>, JsonView)> {
    b@.map_values(|m: (String, JsonValue)| (m.0@, m.1@))
}

/// One API call to make.
pub struct ApiRequest {
    pub method: Method,
    pub url: String,
    /// The `Authorization` header.
    pub authorization: String,
    /// Query parameters, in order.
    pub query: Vec<(String, String)>,
    /// The JSON object to send (POST only).
    pub body: Option<Body>,
    /// The request timeout; `None` for the long-lived event stream.
    pub timeout_secs: Option<u64>,
    /// The error reported when the daemon rejects the call without an `error` message;
    /// `None` when a rejection is reported by its transport message like any other failure.
    pub fallback_error: Option<String>,
}

/// The mathematical content of a request.
pub struct RequestView {
    pub method: Method,
    pub url: Seq<char>,
    pub authorization: Seq<char>,
    pub query: Seq<(Seq<char>, Seq<char>)>,
    pub body: Option<Seq<(Seq<char>, JsonView)>>,
    pub timeout_secs: Option<u64>,
    pub fallback_error: Option<Seq<char>>,
}

impl View for ApiRequest {
    type V = RequestView;

    open spec fn view(&self) -> RequestView {
        RequestView {
            method: self.method,
            url: self.url@,
            authorization: self.authorization@,
            query: self.query@.map_values(|q: (String, String)| (q.0@, q.1@)),
            body: match self.body {
                Some(b) => Some(body_view(b)),
                None => None,
            },
            timeout_secs: self.timeout_secs,
            fallback_error: self.fallback_error.deep_view(),
        }
    }
}

/// How a sent request ended: a success (carrying what was read from it), a rejection by the
/// daemon (an HTTP error status, with the `error` string of its JSON body if it had one), or a
/// transport failure (with its message).
pub enum Outcome<T> {
    Success(T),
    Rejected(Option<String>),
    Transport(String),
}

/// The timeout of ordinary API calls, in seconds.
pub open spec fn call_timeout() -> u64 {
    30
}

impl Daemon {
    /// The `Authorization` header value.
    pub open spec fn auth_spec(&self) -> Seq<char> {
        "Bearer "@ + self.token@
    }

    /// A plain `GET` of `path`.
    pub open spec fn get_spec(&self, path: Seq<char>) -> RequestView {
        RequestView {
            method: Method::Get,
            url: self.endpoint@ + path,
            authorization: self.auth_spec(),
            query: Seq::empty(),
            body: None,
            timeout_secs: Some(call_timeout()),
            fallback_error: None,
        }
    }

    /// A `POST` of `body` to `path`, reporting `fallback` for a rejection without a message.
    pub open spec fn post_spec(
        &self,
        path: Seq<char>,
        body: Seq<(Seq<char>, JsonView)>,
        fallback: Option<Seq<char>>,
    ) -> RequestView {
        RequestView {
            method: Method::Post,
            url: self.endpoint@ + path,
            authorization: self.auth_spec(),
            query: Seq::empty(),
            body: Some(body),
            timeout_secs: Some(call_timeout()),
            fallback_error: fallback,
        }
    }

    /// `auth`: the bearer token header value.
    pub fn auth(&self) -> (r: String)
        ensures
            r@ == self.auth_spec(),
    {
        join2("Bearer ", self.token.as_str())
    }

    /// A `GET` request.
    fn get(&self, path: String) -> (r: ApiRequest)
        ensures
            r@ == self.get_spec(path@),
    {
        let r = ApiRequest {
            method: Method::Get,
            url: join2(self.endpoint.as_str(), path.as_str()),
            authorization: self.auth(),
            query: Vec::new(),
            body: None,
            timeout_secs: Some(30),
            fallback_error: None,
        };
        assert(r@.query =~= Seq::<(Seq<char>, Seq<char>)>::empty());
        r
    }

    /// A `POST` request.
    fn post(&self, path: String, body: Body, fallback: Option<String>) -> (r: ApiRequest)
        ensures
            r@ == self.post_spec(path@, body_view(body), fallback.deep_view()),
    {
        let r = ApiRequest {
            method: Method::Post,
            url: join2(self.endpoint.as_str(), path.as_str()),
            authorization: self.auth(),
            query: Vec::new(),
            body: Some(body),
            timeout_secs: Some(30),
            fallback_error: fallback,
        };
        assert(r@.query =~= Seq::<(Seq<char>, Seq<char>)>::empty());
        r
    }

    /// `health`: `GET /v1/health`.
    pub fn health(&self) -> (r: ApiRequest)
        ensures
            r@ == self.get_spec("/v1/health"@),
    {
        self.get(owned("/v1/health"))
    }

    /// `sessions`: `GET /v1/sessions`.
    pub fn sessions(&self) -> (r: ApiRequest)
        ensures
            r@ == self.get_spec("/v1/sessions"@),
    {
        self.get(owned("/v1/sessions"))
    }

    /// `windows`: `GET /v1/windows`.
    pub fn windows(&self) -> (r: ApiRequest)
        ensures
            r@ == self.get_spec("/v1/windows"@),
    {
        self.get(owned("/v1/windows"))
    }

    /// `transcript`: `GET /v1/sessions/{id}/transcript?tail={tail}`.
    pub fn transcript(&self, id: &str, tail: u32) -> (r: ApiRequest)
        ensures
            r@ == (RequestView {
                query: seq![("tail"@, decimal(tail as nat))],
                ..self.get_spec("/v1/sessions/"@ + id@ + "/transcript"@)
            }),
    {
        let mut r = self.get(join3("/v1/sessions/", id, "/transcript"));
        let t = decimal_string(tail as u64);
        r.query.push((owned("tail"), t));
        assert(r@.query =~= seq![("tail"@, decimal(tail as nat))]);
        r
    }

    /// `open_events`: the `/v1/events` stream, read without a timeout.
    pub fn open_events(&self) -> (r: ApiRequest)
        ensures
            r@ == (RequestView { timeout_secs: None, ..self.get_spec("/v1/events"@) }),
    {
        let mut r = self.get(owned("/v1/events"));
        r.timeout_secs = None;
        r
    }

    /// `start`: `POST /v1/sessions` with the session's settings and, when one is given (not
    /// empty), the start preset's id as the body's last member `preset` (the daemon records it
    /// and a later index of the session defaults to it).
    pub fn start(&self, body: Body, preset: &str) -> (r: ApiRequest)
        ensures
            r@ == self.post_spec(
                "/v1/sessions"@,
                with_preset(body_view(body), preset@),
                Some("request failed"@),
            ),
    {
        let mut b = body;
        let ghost before = body_view(b);
        if preset.unicode_len() > 0 {
            b.push((owned("preset"), JsonValue::Str(owned(preset))));
            assert(body_view(b) =~= before.push(("preset"@, JsonView::Str(preset@))));
        }
        self.post(owned("/v1/sessions"), b, Some(owned("request failed")))
    }

    /// `stop`: `POST /v1/sessions/{id}/stop`.
    pub fn stop(&self, id: &str) -> (r: ApiRequest)
        ensures
            r@ == self.post_spec(
                "/v1/sessions/"@ + id@ + "/stop"@,
                Seq::empty(),
                Some("request failed"@),
            ),
    {
        let b: Body = Vec::new();
        assert(body_view(b) =~= Seq::<(Seq<char>, JsonView)>::empty());
        self.post(join3("/v1/sessions/", id, "/stop"), b, Some(owned("request failed")))
    }

    /// `delete`: `POST /v1/sessions/{id}/delete` (a live session is refused by the daemon).
    pub fn delete(&self, id: &str) -> (r: ApiRequest)
        ensures
            r@ == self.post_spec(
                "/v1/sessions/"@ + id@ + "/delete"@,
                Seq::empty(),
                Some("delete failed"@),
            ),
    {
        let b: Body = Vec::new();
        assert(body_view(b) =~= Seq::<(Seq<char>, JsonView)>::empty());
        self.post(join3("/v1/sessions/", id, "/delete"), b, Some(owned("delete failed")))
    }

    /// `prune`: `POST /v1/sessions/{id}/prune` with the parts to remove.
    pub fn prune(&self, id: &str, parts: &[&str]) -> (r: ApiRequest)
        ensures
            r@ == self.post_spec(
                "/v1/sessions/"@ + id@ + "/prune"@,
                seq![("parts"@, JsonView::StrList(parts@.map_values(|p: &str| p@)))],
                Some("prune failed"@),
            ),
    {
        let mut list: Vec<String> = Vec::new();
        let n = parts.len();
        let mut i: usize = 0;
        while i < n
            invariant
                n == parts@.len(),
                i <= n,
                list.deep_view() =~= parts@.take(i as int).map_values(|p: &str| p@),
            decreases n - i,
        {
            let ghost before = list.deep_view();
            let p = owned(parts[i]);
            let ghost pv = p@;
            list.push(p);
            assert(list.deep_view() =~= before.push(pv));
            assert(parts@.take(i + 1).map_values(|p: &str| p@) =~= parts@.take(
                i as int,
            ).map_values(|p: &str| p@).push(parts@[i as int]@));
            i = i + 1;
        }
        assert(parts@.take(n as int) =~= parts@);
        let mut b: Body = Vec::new();
        b.push((owned("parts"), JsonValue::StrList(list)));
        assert(body_view(b) =~= seq![
            ("parts"@, JsonView::StrList(parts@.map_values(|p: &str| p@))),
        ]);
        self.post(join3("/v1/sessions/", id, "/prune"), b, Some(owned("prune failed")))
    }

    /// `retranscribe`: `POST /v1/sessions/{id}/retranscribe`, naming a model when one is given.
    pub fn retranscribe(&self, id: &str, model: Option<&str>) -> (r: ApiRequest)
        ensures
            r@ == self.post_spec(
                "/v1/sessions/"@ + id@ + "/retranscribe"@,
                match model {
                    Some(m) => seq![("model"@, JsonView::Str(m@))],
                    None => Seq::empty(),
                },
                Some("retranscribe failed"@),
            ),
    {
        let mut b: Body = Vec::new();
        if let Some(m) = model {
            b.push((owned("model"), JsonValue::Str(owned(m))));
        }
        assert(body_view(b) =~= match model {
            Some(m) => seq![("model"@, JsonView::Str(m@))],
            None => Seq::empty(),
        });
        self.post(
            join3("/v1/sessions/", id, "/retranscribe"),
            b,
            Some(owned("retranscribe failed")),
        )
    }

    /// `import_media`: `POST /v1/sessions/import` of a media file path.
    pub fn import_media(&self, path: &str) -> (r: ApiRequest)
        ensures
            r@ == self.post_spec(
                "/v1/sessions/import"@,
                seq![("path"@, JsonView::Str(path@))],
                Some("import failed"@),
            ),
    {
        let mut b: Body = Vec::new();
        b.push((owned("path"), JsonValue::Str(owned(path))));
        assert(body_view(b) =~= seq![("path"@, JsonView::Str(path@))]);
        self.post(owned("/v1/sessions/import"), b, Some(owned("import failed")))
    }

    /// `index`: `POST /v1/sessions/{id}/index` with the sampling rate (as `f64` bits) and,
    /// when given (non-blank), the trimmed endpoint, model and prompt preset.
    pub fn index(&self, id: &str, endpoint: &str, model: &str, sample_rate: u64, preset: &str) -> (r:
        ApiRequest)
        ensures
            r@ == self.post_spec(
                "/v1/sessions/"@ + id@ + "/index"@,
                index_body(endpoint@, model@, sample_rate, preset@),
                Some("index failed"@),
            ),
    {
        let mut b: Body = Vec::new();
        b.push((owned("sample_rate"), JsonValue::Float(sample_rate)));
        let ghost b0 = body_view(b);
        let e = trim_str(endpoint);
        if chars_of(e.as_str()).len() > 0 {
            b.push((owned("endpoint"), JsonValue::Str(e)));
        }
        let ghost b1 = body_view(b);
        let m = trim_str(model);
        if chars_of(m.as_str()).len() > 0 {
            b.push((owned("model"), JsonValue::Str(m)));
        }
        let ghost b2 = body_view(b);
        let p = trim_str(preset);
        if chars_of(p.as_str()).len() > 0 {
            b.push((owned("prompt_preset"), JsonValue::Str(p)));
        }
        assert(body_view(b) =~= index_body(endpoint@, model@, sample_rate, preset@));
        self.post(join3("/v1/sessions/", id, "/index"), b, Some(owned("index failed")))
    }

    /// `index_status`: `GET /v1/index/status`, with `url` (trimmed) as a query parameter when
    /// it is not blank.
    pub fn index_status(&self, url: &str) -> (r: ApiRequest)
        ensures
            r@ == (RequestView {
                query: if trim(url@).len() == 0 {
                    Seq::empty()
                } else {
                    seq![("url"@, trim(url@))]
                },
                ..self.get_spec("/v1/index/status"@)
            }),
    {
        let mut r = self.get(owned("/v1/index/status"));
        let u = trim_str(url);
        let uc = chars_of(u.as_str());
        if uc.len() > 0 {
            r.query.push((owned("url"), u));
        }
        assert(r@.query =~= if trim(url@).len() == 0 {
            Seq::empty()
        } else {
            seq![("url"@, trim(url@))]
        });
        r
    }

    /// `get_index`: `GET /v1/sessions/{id}/index`.
    pub fn get_index(&self, id: &str) -> (r: ApiRequest)
        ensures
            r@ == self.get_spec("/v1/sessions/"@ + id@ + "/index"@),
    {
        self.get(join3("/v1/sessions/", id, "/index"))
    }

    /// `audio_mics`: `GET /v1/audio/mics`.
    pub fn audio_mics(&self) -> (r: ApiRequest)
        ensures
            r@ == self.get_spec("/v1/audio/mics"@),
    {
        self.get(owned("/v1/audio/mics"))
    }

    /// `asr_models`: `GET /v1/asr/models`.
    pub fn asr_models(&self) -> (r: ApiRequest)
        ensures
            r@ == self.get_spec("/v1/asr/models"@),
    {
        self.get(owned("/v1/asr/models"))
    }

    /// A model-catalog `POST` naming `repo`.
    fn asr_post(&self, path: &str, repo: &str) -> (r: ApiRequest)
        ensures
            r@ == self.post_spec(
                path@,
                seq![("repo"@, JsonView::Str(repo@))],
                Some("request failed"@),
            ),
    {
        let mut b: Body = Vec::new();
        b.push((owned("repo"), JsonValue::Str(owned(repo))));
        assert(body_view(b) =~= seq![("repo"@, JsonView::Str(repo@))]);
        self.post(owned(path), b, Some(owned("request failed")))
    }

    /// `asr_download`: start downloading model `repo`.
    pub fn asr_download(&self, repo: &str) -> (r: ApiRequest)
        ensures
            r@ == self.post_spec(
                "/v1/asr/models/download"@,
                seq![("repo"@, JsonView::Str(repo@))],
                Some("request failed"@),
            ),
    {
        self.asr_post("/v1/asr/models/download", repo)
    }

    /// `asr_set_model`: make model `repo` the active one.
    pub fn asr_set_model(&self, repo: &str) -> (r: ApiRequest)
        ensures
            r@ == self.post_spec(
                "/v1/asr/model"@,
                seq![("repo"@, JsonView::Str(repo@))],
                Some("request failed"@),
            ),
    {
        self.asr_post("/v1/asr/model", repo)
    }

    /// `asr_delete`: remove model `repo`'s weights.
    pub fn asr_delete(&self, repo: &str) -> (r: ApiRequest)
        ensures
            r@ == self.post_spec(
                "/v1/asr/models/delete"@,
                seq![("repo"@, JsonView::Str(repo@))],
                Some("request failed"@),
            ),
    {
        self.asr_post("/v1/asr/models/delete", repo)
    }

    /// `set_mic`: switch the microphone of live session `id` (`None` turns it off).
    pub fn set_mic(&self, id: &str, device: Option<&str>) -> (r: ApiRequest)
        ensures
            r@ == self.post_spec(
                "/v1/sessions/"@ + id@ + "/mic"@,
                seq![
                    ("device"@, match device {
                        Some(d) => JsonView::Str(d@),
                        None => JsonView::Null,
                    }),
                ],
                Some("mic switch failed"@),
            ),
    {
        let v = match device {
            Some(d) => JsonValue::Str(owned(d)),
            None => JsonValue::Null,
        };
        let mut b: Body = Vec::new();
        b.push((owned("device"), v));
        assert(body_view(b) =~= seq![
            ("device"@, match device {
                Some(d) => JsonView::Str(d@),
                None => JsonView::Null,
            }),
        ]);
        self.post(join3("/v1/sessions/", id, "/mic"), b, Some(owned("mic switch failed")))
    }

    /// `asr_set_language`: set the transcription language (`""`/`auto` = detect).
    pub fn asr_set_language(&self, language: &str) -> (r: ApiRequest)
        ensures
            r@ == self.post_spec(
                "/v1/asr/language"@,
                seq![("language"@, JsonView::Str(language@))],
                Some("set language failed"@),
            ),
    {
        let mut b: Body = Vec::new();
        b.push((owned("language"), JsonValue::Str(owned(language))));
        assert(body_view(b) =~= seq![("language"@, JsonView::Str(language@))]);
        self.post(owned("/v1/asr/language"), b, Some(owned("set language failed")))
    }

    /// `asr_set_chunk`: set the transcription chunk length (seconds, as `f64` bits).
    pub fn asr_set_chunk(&self, seconds: u64) -> (r: ApiRequest)
        ensures
            r@ == self.post_spec(
                "/v1/asr/chunk"@,
                seq![("seconds"@, JsonView::Float(seconds))],
                Some("set chunk failed"@),
            ),
    {
        let mut b: Body = Vec::new();
        b.push((owned("seconds"), JsonValue::Float(seconds)));
        assert(body_view(b) =~= seq![("seconds"@, JsonView::Float(seconds))]);
        self.post(owned("/v1/asr/chunk"), b, Some(owned("set chunk failed")))
    }

    /// `shutdown`: `POST /v1/admin/shutdown` (every failure is reported as its transport
    /// message, so there is no fallback).
    pub fn shutdown(&self) -> (r: ApiRequest)
        ensures
            r@ == self.post_spec("/v1/admin/shutdown"@, Seq::empty(), None),
    {
        let b: Body = Vec::new();
        assert(body_view(b) =~= Seq::<(Seq<char>, JsonView)>::empty());
        self.post(owned("/v1/admin/shutdown"), b, None)
    }

    /// `permissions`: `GET /v1/permissions`.
    pub fn permissions(&self) -> (r: ApiRequest)
        ensures
            r@ == self.get_spec("/v1/permissions"@),
    {
        self.get(owned("/v1/permissions"))
    }

    /// `available`: the daemon is available exactly when its health probe succeeded.
    pub fn available(health: &Result<Health, String>) -> (r: bool)
        ensures
            r == health is Ok,
    {
        health.is_ok()
    }

    /// `ok_or_error`: success, the daemon's `error` message (or `fallback` when it gave none),
    /// or the transport failure's message.
    pub fn ok_or_error(outcome: Outcome<()>, fallback: &str) -> (r: Result<(), String>)
        ensures
            match outcome {
                Outcome::Success(_) => r is Ok,
                Outcome::Rejected(Some(e)) => r matches Err(m) && m@ == e@,
                Outcome::Rejected(None) => r matches Err(m) && m@ == fallback@,
                Outcome::Transport(e) => r matches Err(m) && m@ == e@,
            },
    {
        match outcome {
            Outcome::Success(_) => Ok(()),
            Outcome::Rejected(Some(e)) => Err(e),
            Outcome::Rejected(None) => Err(owned(fallback)),
            Outcome::Transport(e) => Err(e),
        }
    }

    /// The result of a call made with `request`: what `ok_or_error` gives with the request's
    /// fallback message (or, for a request without one, the rejection's message or `""`).
    pub fn finish(request: &ApiRequest, outcome: Outcome<()>) -> (r: Result<(), String>)
        ensures
            match outcome {
                Outcome::Success(_) => r is Ok,
                Outcome::Rejected(Some(e)) => r matches Err(m) && m@ == e@,
                Outcome::Rejected(None) => r matches Err(m) && m@ == match request.fallback_error {
                    Some(f) => f@,
                    None => Seq::<char>::empty(),
                },
                Outcome::Transport(e) => r matches Err(m) && m@ == e@,
            },
    {
        let fb: String = match &request.fallback_error {
            Some(f) => f.clone(),
            None => String::new(),
        };
        Self::ok_or_error(outcome, fb.as_str())
    }
}

/// `parse_session_or_error`: the session read from a successful reply (or why it could not be
/// read), the daemon's `error` message (or `request failed`), or the transport failure.
pub fn parse_session_or_error(outcome: Outcome<Result<Session, String>>) -> (r: Result<
    Session,
    String,
>)
    ensures
        match outcome {
            Outcome::Success(read) => r == read,
            Outcome::Rejected(Some(e)) => r matches Err(m) && m@ == e@,
            Outcome::Rejected(None) => r matches Err(m) && m@ == "request failed"@,
            Outcome::Transport(e) => r matches Err(m) && m@ == e@,
        },
{
    match outcome {
        Outcome::Success(read) => read,
        Outcome::Rejected(Some(e)) => Err(e),
        Outcome::Rejected(None) => Err(owned("request failed")),
        Outcome::Transport(e) => Err(e),
    }
}

/// A start request's body: the settings, then the preset when one is given.
pub open spec fn with_preset(body: Seq<(Seq<char>, JsonView)>, preset: Seq<char>) -> Seq<
    (Seq<char>, JsonView),
> {
    if preset.len() > 0 {
        body.push(("preset"@, JsonView::Str(preset)))
    } else {
        body
    }
}

/// The body of an index request.
pub open spec fn index_body(endpoint: Seq<char>, model: Seq<char>, rate: u64, preset: Seq<char>) -> Seq<
    (Seq<char>, JsonView),
> {
    let b0 = seq![("sample_rate"@, JsonView::Float(rate))];
    let b1 = if trim(endpoint).len() > 0 {
        b0.push(("endpoint"@, JsonView::Str(trim(endpoint))))
    } else {
        b0
    };
    let b2 = if trim(model).len() > 0 {
        b1.push(("model"@, JsonView::Str(trim(model))))
    } else {
        b1
    };
    if trim(preset).len() > 0 {
        b2.push(("prompt_preset"@, JsonView::Str(trim(preset))))
    } else {
        b2
    }
}

} // verus!
