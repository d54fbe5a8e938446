//! Settings-side rules of the client: the Settings navigation, the index-endpoint providers and
//! their URL, migration of the legacy index URL, resolution of persisted settings with their
//! defaults, the screenshot settings sent with a capture, and short display forms of ids.

use vstd::prelude::*;
use crate::daemon::{body_view, Body, JsonValue, JsonView};
use crate::text::{
    chars_of, join2, join3, has_prefix, owned, parse_u32, parse_u32_spec, str_eq, string_of,
    sub_chars, sub_string, trim, trim_chars, trim_end, trim_start, trim_str,
};

verus! {

// ---------------------------------------------------------------------------------------------
// Settings navigation
// ---------------------------------------------------------------------------------------------

/// The sections of the Settings screen, in navigation order.
#[derive(Clone, Copy, PartialEq, Eq, Structural, Debug)]
pub enum SettingsSection {
    CaptureQuality,
    Transcription,
    Voice,
    IndexEndpoint,
    Skills,
    Permissions,
    Updates,
}

impl SettingsSection {
    /// Every section, in navigation order.
    pub fn all() -> (r: Vec<SettingsSection>)
        ensures
            r@ == seq![
                SettingsSection::CaptureQuality,
                SettingsSection::Transcription,
                SettingsSection::Voice,
                SettingsSection::IndexEndpoint,
                SettingsSection::Skills,
                SettingsSection::Permissions,
                SettingsSection::Updates,
            ],
    {
        let r = vec![
            SettingsSection::CaptureQuality,
            SettingsSection::Transcription,
            SettingsSection::Voice,
            SettingsSection::IndexEndpoint,
            SettingsSection::Skills,
            SettingsSection::Permissions,
            SettingsSection::Updates,
        ];
        assert(r@ =~= seq![
            SettingsSection::CaptureQuality,
            SettingsSection::Transcription,
            SettingsSection::Voice,
            SettingsSection::IndexEndpoint,
            SettingsSection::Skills,
            SettingsSection::Permissions,
            SettingsSection::Updates,
        ]);
        r
    }

    /// The navigation label of a section.
    pub open spec fn label_spec(self) -> Seq<char> {
        match self {
            SettingsSection::CaptureQuality => "Capture quality"@,
            SettingsSection::Transcription => "Transcription"@,
            SettingsSection::Voice => "Voice recognition"@,
            SettingsSection::IndexEndpoint => "Index endpoint"@,
            SettingsSection::Skills => "Skills"@,
            SettingsSection::Permissions => "Permissions"@,
            SettingsSection::Updates => "App & updates"@,
        }
    }

    /// The icon name of a section.
    pub open spec fn icon_spec(self) -> Seq<char> {
        match self {
            SettingsSection::CaptureQuality => "image"@,
            SettingsSection::Transcription => "mic"@,
            SettingsSection::Voice => "waveform"@,
            SettingsSection::IndexEndpoint => "list-tree"@,
            SettingsSection::Skills => "clipboard"@,
            SettingsSection::Permissions => "shield"@,
            SettingsSection::Updates => "refresh"@,
        }
    }

    /// `label`.
    pub fn label(&self) -> (r: &'static str)
        ensures
            r@ == self.label_spec(),
    {
        match self {
            SettingsSection::CaptureQuality => "Capture quality",
            SettingsSection::Transcription => "Transcription",
            SettingsSection::Voice => "Voice recognition",
            SettingsSection::IndexEndpoint => "Index endpoint",
            SettingsSection::Skills => "Skills",
            SettingsSection::Permissions => "Permissions",
            SettingsSection::Updates => "App & updates",
        }
    }

    /// `icon`.
    pub fn icon(&self) -> (r: &'static str)
        ensures
            r@ == self.icon_spec(),
    {
        match self {
            SettingsSection::CaptureQuality => "image",
            SettingsSection::Transcription => "mic",
            SettingsSection::Voice => "waveform",
            SettingsSection::IndexEndpoint => "list-tree",
            SettingsSection::Skills => "clipboard",
            SettingsSection::Permissions => "shield",
            SettingsSection::Updates => "refresh",
        }
    }
}

// ---------------------------------------------------------------------------------------------
// Index-endpoint providers
// ---------------------------------------------------------------------------------------------

/// What a provider needs: `(default_port, needs_key, is_base_url)`; an unknown id gets
/// `("", false, false)`.
pub open spec fn provider_meta(id: Seq<char>) -> (Seq<char>, bool, bool) {
    if id == "lmstudio"@ {
        ("1234"@, false, false)
    } else if id == "ollama"@ {
        ("11434"@, false, false)
    } else if id == "openai"@ {
        (""@, true, false)
    } else if id == "custom"@ {
        (""@, false, true)
    } else {
        (""@, false, false)
    }
}

/// `index_provider_meta`.
pub fn index_provider_meta(id: &str) -> (r: (&'static str, bool, bool))
    ensures
        (r.0@, r.1, r.2) == provider_meta(id@),
{
    if str_eq(id, "lmstudio") {
        ("1234", false, false)
    } else if str_eq(id, "ollama") {
        ("11434", false, false)
    } else if str_eq(id, "openai") {
        ("", true, false)
    } else if str_eq(id, "custom") {
        ("", false, true)
    } else {
        ("", false, false)
    }
}

/// The index endpoint's configuration: provider id, host (or base URL), port and API key.
#[derive(Clone, Debug)]
pub struct IndexCfg {
    pub provider: String,
    pub host: String,
    pub port: String,
    pub key: String,
}

/// `s` without its trailing `/`s (`trim_end_matches('/')`).
pub open spec fn trim_slashes(s: Seq<char>) -> Seq<char>
    decreases s.len(),
{
    if s.len() > 0 && s.last() == '/' {
        trim_slashes(s.drop_last())
    } else {
        s
    }
}

/// Removing the trailing slashes keeps the text before them whole: the result is a prefix of
/// the text, everything after it is `/`, and it does not itself end in `/`; a text that does
/// not end in `/` is kept as it is.
pub proof fn lemma_trim_slashes(s: Seq<char>)
    ensures
        trim_slashes(s).len() <= s.len(),
        trim_slashes(s) == s.subrange(0, trim_slashes(s).len() as int),
        forall|i: int| trim_slashes(s).len() <= i < s.len() ==> s[i] == '/',
        trim_slashes(s).len() == 0 || trim_slashes(s).last() != '/',
        (s.len() == 0 || s.last() != '/') ==> trim_slashes(s) == s,
    decreases s.len(),
{
    if s.len() > 0 && s.last() == '/' {
        let t = s.drop_last();
        lemma_trim_slashes(t);
        assert(trim_slashes(s) == trim_slashes(t));
        assert(t.subrange(0, trim_slashes(t).len() as int) =~= s.subrange(0, trim_slashes(t).len() as int));
        assert forall|i: int| trim_slashes(s).len() <= i < s.len() implies s[i] == '/' by {
            if i < t.len() {
                assert(s[i] == t[i]);
            }
        }
    } else {
        assert(s.subrange(0, s.len() as int) =~= s);
    }
}

/// The chat-completions URL of a provider configuration (empty when it cannot be formed).
pub open spec fn chat_url(provider: Seq<char>, host: Seq<char>, port: Seq<char>) -> Seq<char> {
    let h = trim(host);
    let p = trim(port);
    if provider == "openai"@ {
        "https://api.openai.com/v1/chat/completions"@
    } else if provider == "custom"@ {
        if h.len() == 0 {
            Seq::empty()
        } else {
            trim_slashes(h) + "/chat/completions"@
        }
    } else if h.len() == 0 {
        Seq::empty()
    } else if p.len() == 0 {
        "http://"@ + h + "/v1/chat/completions"@
    } else {
        "http://"@ + h + ":"@ + p + "/v1/chat/completions"@
    }
}

/// The custom provider's URL is its base URL, trimmed, without its trailing slashes, followed
/// by `/chat/completions`; the base URL is otherwise kept whole.
pub proof fn lemma_custom_chat_url(host: Seq<char>, port: Seq<char>)
    ensures
        trim(host).len() > 0 ==> {
            let h = trim(host);
            let r = chat_url("custom"@, host, port);
            let k = r.len() - "/chat/completions"@.len();
            &&& 0 <= k <= h.len()
            &&& r == h.subrange(0, k) + "/chat/completions"@
            &&& forall|i: int| k <= i < h.len() ==> h[i] == '/'
            &&& (k == 0 || h[k - 1] != '/')
        },
        trim(host).len() > 0 && trim(host).last() != '/' ==> chat_url("custom"@, host, port) == trim(
            host,
        ) + "/chat/completions"@,
{
    reveal_strlit("custom");
    reveal_strlit("openai");
    assert("custom"@[0] != "openai"@[0]);
    let h = trim(host);
    lemma_trim_slashes(h);
}

/// A local server's URL: `http://`, the trimmed host, `:` and the trimmed port when one is
/// given, and `/v1/chat/completions`; nothing without a host; the OpenAI URL is fixed.
pub proof fn lemma_local_chat_url(provider: Seq<char>, host: Seq<char>, port: Seq<char>)
    requires
        provider != "openai"@,
        provider != "custom"@,
    ensures
        trim(host).len() == 0 ==> chat_url(provider, host, port).len() == 0,
        trim(host).len() > 0 && trim(port).len() == 0 ==> chat_url(provider, host, port)
            == "http://"@ + trim(host) + "/v1/chat/completions"@,
        trim(host).len() > 0 && trim(port).len() > 0 ==> chat_url(provider, host, port) == "http://"@
            + trim(host) + ":"@ + trim(port) + "/v1/chat/completions"@,
        chat_url("openai"@, host, port) == "https://api.openai.com/v1/chat/completions"@,
{
}

/// `index_chat_url`: the URL probed for index availability.
pub fn index_chat_url(provider: &str, host: &str, port: &str) -> (r: String)
    ensures
        r@ == chat_url(provider@, host@, port@),
        provider@ == "custom"@ && trim(host@).len() > 0 ==> {
            let h = trim(host@);
            let k = r@.len() - "/chat/completions"@.len();
            &&& 0 <= k <= h.len()
            &&& r@ == h.subrange(0, k) + "/chat/completions"@
            &&& forall|i: int| k <= i < h.len() ==> h[i] == '/'
            &&& (k == 0 || h[k - 1] != '/')
        },
        provider@ == "custom"@ && trim(host@).len() > 0 && trim(host@).last() != '/' ==> r@ == trim(
            host@,
        ) + "/chat/completions"@,
{
    proof {
        lemma_custom_chat_url(host@, port@);
    }
    let hc = trim_chars(chars_of(host).as_slice());
    let pc = trim_chars(chars_of(port).as_slice());
    let h = string_of(hc.as_slice());
    let p = string_of(pc.as_slice());
    if str_eq(provider, "openai") {
        owned("https://api.openai.com/v1/chat/completions")
    } else if str_eq(provider, "custom") {
        if hc.len() == 0 {
            String::new()
        } else {
            let mut end = hc.len();
            assert(hc@.subrange(0, end as int) =~= hc@);
            while end > 0 && hc[end - 1] == '/'
                invariant
                    end <= hc@.len(),
                    trim_slashes(hc@) == trim_slashes(hc@.subrange(0, end as int)),
                decreases end,
            {
                assert(hc@.subrange(0, end as int).drop_last() =~= hc@.subrange(0, end - 1));
                end = end - 1;
            }
            let base = sub_string(hc.as_slice(), 0, end);
            assert(hc@.subrange(0, end as int) == trim_slashes(hc@));
            join2(base.as_str(), "/chat/completions")
        }
    } else if hc.len() == 0 {
        String::new()
    } else if pc.len() == 0 {
        join3("http://", h.as_str(), "/v1/chat/completions")
    } else {
        let hp = join3("http://", h.as_str(), ":");
        join3(hp.as_str(), p.as_str(), "/v1/chat/completions")
    }
}

/// Whether the provider needs an API key (`index_needs_key`).
pub fn index_needs_key(provider: &str) -> (r: bool)
    ensures
        r == provider_meta(provider@).1,
{
    index_provider_meta(provider).1
}

/// Whether the provider takes a full base URL instead of host and port (`index_is_base_url`).
pub fn index_is_base_url(provider: &str) -> (r: bool)
    ensures
        r == provider_meta(provider@).2,
{
    index_provider_meta(provider).2
}

/// Choosing index provider `id` (a change only when it differs from the
/// current one) keeps a filled-in port and fills a blank one with the provider's default port.
/// Returns the new provider and port, or `None` when nothing changes.
pub fn switch_provider(current: &str, id: &str, port: &str) -> (r: Option<(String, String)>)
    ensures
        match r {
            Some((p, q)) => current@ != id@ && p@ == id@ && q@ == if trim(port@).len() == 0 {
                provider_meta(id@).0
            } else {
                port@
            },
            None => current@ == id@,
        },
{
    if str_eq(current, id) {
        return None;
    }
    let t = trim_str(port);
    let q = if t.as_str().unicode_len() == 0 {
        owned(index_provider_meta(id).0)
    } else {
        owned(port)
    };
    Some((owned(id), q))
}

// ---------------------------------------------------------------------------------------------
// Legacy index URL
// ---------------------------------------------------------------------------------------------

/// The index of the first `c` in `s`, or `s.len()` when there is none.
pub open spec fn find_char(s: Seq<char>, c: char) -> int
    decreases s.len(),
{
    if s.len() == 0 {
        0
    } else if s[0] == c {
        0
    } else {
        1 + find_char(s.drop_first(), c)
    }
}

/// `find_char` lies within the sequence, and no earlier character is `c`.
pub proof fn lemma_find_char(s: Seq<char>, c: char)
    ensures
        0 <= find_char(s, c) <= s.len(),
        find_char(s, c) < s.len() ==> s[find_char(s, c)] == c,
        forall|i: int| 0 <= i < find_char(s, c) ==> s[i] != c,
    decreases s.len(),
{
    if s.len() > 0 && s[0] != c {
        lemma_find_char(s.drop_first(), c);
        assert forall|i: int| 0 <= i < find_char(s, c) implies s[i] != c by {
            if i > 0 {
                assert(s[i] == s.drop_first()[i - 1]);
            }
        }
    }
}

/// The `(host, port)` of a legacy `http(s)://HOST:PORT/...` index URL: host non-empty, port a
/// `u32`; `None` for anything else.
pub open spec fn migrated_url(url: Seq<char>) -> Option<(Seq<char>, Seq<char>)> {
    let rest = if "http://"@.is_prefix_of(url) {
        Some(url.skip(7))
    } else if "https://"@.is_prefix_of(url) {
        Some(url.skip(8))
    } else {
        None
    };
    match rest {
        None => None,
        Some(r) => {
            let authority = r.take(find_char(r, '/'));
            let colon = find_char(authority, ':');
            if colon >= authority.len() {
                None
            } else {
                let host = authority.take(colon);
                let port = authority.skip(colon + 1);
                if host.len() == 0 || parse_u32_spec(port) is None {
                    None
                } else {
                    Some((host, port))
                }
            }
        },
    }
}

/// The index of the first `c` in a slice from position `from` on (or its length).
fn find_from(s: &[char], from: usize, c: char) -> (r: usize)
    requires
        from <= s@.len(),
    ensures
        r == from + find_char(s@.skip(from as int), c),
{
    let n = s.len();
    let mut i = from;
    proof {
        lemma_find_char(s@.skip(from as int), c);
    }
    while i < n && s[i] != c
        invariant
            from <= i <= n,
            n == s@.len(),
            find_char(s@.skip(from as int), c) == (i - from) + find_char(s@.skip(i as int), c),
        decreases n - i,
    {
        assert(s@.skip(i as int).drop_first() =~= s@.skip(i + 1));
        i = i + 1;
    }
    i
}

/// `migrate_index_url`.
pub fn migrate_index_url(url: &str) -> (r: Option<(String, String)>)
    ensures
        match migrated_url(url@) {
            Some((h, p)) => r matches Some((rh, rp)) && rh@ == h && rp@ == p,
            None => r is None,
        },
{
    let u = chars_of(url);
    let http = chars_of("http://");
    let https = chars_of("https://");
    proof {
        reveal_strlit("http://");
        reveal_strlit("https://");
    }
    let start: usize = if has_prefix(u.as_slice(), http.as_slice()) {
        7
    } else if has_prefix(u.as_slice(), https.as_slice()) {
        8
    } else {
        return None;
    };
    let ghost rest = u@.skip(start as int);
    let slash = find_from(u.as_slice(), start, '/');
    proof {
        lemma_find_char(rest, '/');
    }
    let ghost authority = rest.take(slash - start);
    let head = sub_chars(u.as_slice(), 0, slash);
    let colon = find_from(head.as_slice(), start, ':');
    assert(head@.skip(start as int) =~= authority);
    proof {
        lemma_find_char(authority, ':');
    }
    if colon >= slash {
        return None;
    }
    let host = sub_string(u.as_slice(), start, colon);
    let port_chars = sub_chars(u.as_slice(), colon + 1, slash);
    assert(host@ =~= authority.take(colon - start));
    assert(port_chars@ =~= authority.skip(colon - start + 1));
    if colon == start {
        return None;
    }
    match parse_u32(port_chars.as_slice()) {
        None => None,
        Some(_) => Some((host, string_of(port_chars.as_slice()))),
    }
}

/// `find_char` past a prefix without `c`.
proof fn lemma_find_char_after(a: Seq<char>, b: Seq<char>, c: char)
    requires
        forall|i: int| 0 <= i < a.len() ==> a[i] != c,
    ensures
        find_char(a + b, c) == a.len() + find_char(b, c),
    decreases a.len(),
{
    if a.len() > 0 {
        assert((a + b).drop_first() =~= a.drop_first() + b);
        assert((a + b)[0] == a[0]);
        lemma_find_char_after(a.drop_first(), b, c);
    } else {
        assert(a + b =~= b);
    }
}

/// A port `str::parse` accepts holds only digits and perhaps a leading `+`.
proof fn lemma_port_chars(port: Seq<char>)
    requires
        parse_u32_spec(port) is Some,
    ensures
        port.len() > 0,
        forall|i: int| 0 <= i < port.len() ==> (port[i] == '+' && i == 0) || ('0' <= #[trigger] port[i] && port[i] <= '9'),
        '0' <= port.last() && port.last() <= '9',
{
    let d = if port.len() > 0 && port[0] == '+' {
        port.drop_first()
    } else {
        port
    };
    assert(d.len() > 0 && crate::text::all_digits(d));
    assert forall|i: int| 0 <= i < port.len() implies (port[i] == '+' && i == 0) || ('0' <= #[trigger] port[i] && port[i] <= '9') by {
        if port[0] == '+' {
            if i > 0 {
                assert(port[i] == d[i - 1]);
                assert(crate::text::is_digit(d[i - 1]));
            }
        } else {
            assert(port[i] == d[i]);
            assert(crate::text::is_digit(d[i]));
        }
    }
    if port[0] == '+' {
        assert(port.last() == d[d.len() - 1]);
        assert(crate::text::is_digit(d[d.len() - 1]));
    } else {
        assert(crate::text::is_digit(d[d.len() - 1]));
    }
}

/// Migration keeps the endpoint: a legacy URL `http://HOST:PORT` (with or without a path)
/// migrates to that host and port, and the LM Studio configuration they form probes
/// `http://HOST:PORT/v1/chat/completions`.
pub proof fn lemma_legacy_url_keeps_endpoint(host: Seq<char>, port: Seq<char>, path: Seq<char>)
    requires
        host.len() > 0,
        forall|i: int| 0 <= i < host.len() ==> host[i] != ':' && host[i] != '/',
        parse_u32_spec(port) is Some,
        path.len() == 0 || path[0] == '/',
    ensures
        migrated_url("http://"@ + host + ":"@ + port + path) == Some((host, port)),
        trim(host) == host ==> chat_url("lmstudio"@, host, port) == "http://"@ + host + ":"@
            + port + "/v1/chat/completions"@,
{
    reveal_strlit("http://");
    reveal_strlit("https://");
    reveal_strlit(":");
    reveal_strlit("lmstudio");
    reveal_strlit("openai");
    reveal_strlit("custom");
    lemma_port_chars(port);
    let url = "http://"@ + host + ":"@ + port + path;
    assert("http://"@.is_prefix_of(url)) by {
        assert(url.take(7) =~= "http://"@);
    }
    let r = url.skip(7);
    assert(r =~= host + (":"@ + (port + path)));
    lemma_find_char_after(host, ":"@ + (port + path), '/');
    lemma_find_char_after(":"@, port + path, '/');
    assert forall|i: int| 0 <= i < port.len() implies port[i] != '/' by {
        assert((port[i] == '+' && i == 0) || ('0' <= port[i] && port[i] <= '9'));
    }
    lemma_find_char_after(port, path, '/');
    assert(find_char(path, '/') == 0);
    let cut = host.len() + 1 + port.len();
    assert(find_char(r, '/') == cut);
    let authority = r.take(find_char(r, '/'));
    assert(authority =~= host + (":"@ + port));
    lemma_find_char_after(host, ":"@ + port, ':');
    assert(find_char(":"@ + port, ':') == 0);
    assert(authority.take(host.len() as int) =~= host);
    assert(authority.skip(host.len() + 1int) =~= port);
    assert(!("lmstudio"@ =~= "openai"@));
    assert(!("lmstudio"@ =~= "custom"@));
    assert(trim_start(port) == port);
    assert(trim_end(port) == port);
}

// ---------------------------------------------------------------------------------------------
// Persisted settings
// ---------------------------------------------------------------------------------------------

/// What the settings file holds for the index endpoint: whether the structured keys are
/// present, their string values (empty where absent or not strings), and the legacy URL.
pub struct IndexSettingsFile {
    pub has_provider: bool,
    pub has_host: bool,
    pub provider: String,
    pub host: String,
    pub port: String,
    pub key: String,
    pub legacy_url: String,
}

/// The default index configuration: LM Studio on its default port.
pub open spec fn default_index_cfg() -> (Seq<char>, Seq<char>, Seq<char>, Seq<char>) {
    ("lmstudio"@, Seq::empty(), "1234"@, Seq::empty())
}

/// The index configuration that the stored index keys yield: the structured keys when either
/// the provider or the host key is present (blank provider = LM Studio, blank port = the
/// provider's default), else the migrated legacy URL (as LM Studio), else the default.
pub open spec fn index_cfg_of(
    has_provider: bool,
    has_host: bool,
    provider: Seq<char>,
    host: Seq<char>,
    port: Seq<char>,
    key: Seq<char>,
    legacy_url: Seq<char>,
) -> (Seq<char>, Seq<char>, Seq<char>, Seq<char>) {
    if has_provider || has_host {
        let provider = if provider.len() == 0 {
            "lmstudio"@
        } else {
            provider
        };
        let port = if port.len() == 0 {
            provider_meta(provider).0
        } else {
            port
        };
        (provider, host, port, key)
    } else {
        match migrated_url(legacy_url) {
            Some((h, p)) => ("lmstudio"@, h, p, Seq::empty()),
            None => default_index_cfg(),
        }
    }
}

/// The index configuration a settings file yields.
pub open spec fn resolved_index_cfg(f: IndexSettingsFile) -> (Seq<char>, Seq<char>, Seq<char>, Seq<char>) {
    index_cfg_of(f.has_provider, f.has_host, f.provider@, f.host@, f.port@, f.key@, f.legacy_url@)
}

/// The view of an index configuration.
pub open spec fn cfg_view(c: IndexCfg) -> (Seq<char>, Seq<char>, Seq<char>, Seq<char>) {
    (c.provider@, c.host@, c.port@, c.key@)
}

/// The default index configuration.
pub fn default_index_config() -> (c: IndexCfg)
    ensures
        cfg_view(c) == default_index_cfg(),
{
    IndexCfg {
        provider: owned("lmstudio"),
        host: String::new(),
        port: owned(index_provider_meta("lmstudio").0),
        key: String::new(),
    }
}

/// The index configuration of a settings file (the index part of `load_settings`).
pub fn resolve_index_cfg(f: &IndexSettingsFile) -> (c: IndexCfg)
    ensures
        cfg_view(c) == resolved_index_cfg(*f),
{
    if f.has_provider || f.has_host {
        let provider = if chars_of(f.provider.as_str()).len() == 0 {
            owned("lmstudio")
        } else {
            f.provider.clone()
        };
        let port = if chars_of(f.port.as_str()).len() == 0 {
            owned(index_provider_meta(provider.as_str()).0)
        } else {
            f.port.clone()
        };
        IndexCfg { provider, host: f.host.clone(), port, key: f.key.clone() }
    } else {
        match migrate_index_url(f.legacy_url.as_str()) {
            Some((host, port)) => IndexCfg {
                provider: owned("lmstudio"),
                host,
                port,
                key: String::new(),
            },
            None => default_index_config(),
        }
    }
}

/// The non-numeric-fraction settings of the settings file, as read (`None` where absent or of
/// another type).
pub struct SettingsFile {
    pub shot_format: Option<String>,
    pub shot_res_ix: Option<u64>,
    pub jpeg_quality: Option<u64>,
    pub mic_device: Option<String>,
    pub capture_screenshots: Option<bool>,
    pub index: IndexSettingsFile,
    pub index_model: Option<String>,
    pub index_preset: Option<String>,
}

/// The capture-quality and index preferences, with defaults applied.
#[derive(Clone, Debug)]
pub struct GuiSettings {
    pub shot_format: String,
    pub shot_res_ix: usize,
    pub jpeg_quality: u32,
    pub mic_device: Option<String>,
    pub capture_screenshots: bool,
    pub index: IndexCfg,
    pub index_model: String,
    pub index_preset: String,
}

/// An optional string, or a default.
pub open spec fn str_or(o: Option<String>, d: Seq<char>) -> Seq<char> {
    match o {
        Some(s) => s@,
        None => d,
    }
}

/// A copy of an optional string, or the default.
fn string_or(o: &Option<String>, d: &str) -> (r: String)
    ensures
        r@ == str_or(*o, d@),
{
    match o {
        Some(s) => s.clone(),
        None => owned(d),
    }
}

/// The preferences when there is no readable settings file: `png`, native resolution, JPEG
/// quality 80, no microphone, screenshots on, the default index configuration, the server's
/// default model and the `auto` preset.
pub fn default_settings() -> (s: GuiSettings)
    ensures
        s.shot_format@ == "png"@,
        s.shot_res_ix == 0,
        s.jpeg_quality == 80,
        s.mic_device is None,
        s.capture_screenshots,
        cfg_view(s.index) == default_index_cfg(),
        s.index_model@ == Seq::<char>::empty(),
        s.index_preset@ == "auto"@,
{
    GuiSettings {
        shot_format: owned("png"),
        shot_res_ix: 0,
        jpeg_quality: 80,
        mic_device: None,
        capture_screenshots: true,
        index: default_index_config(),
        index_model: String::new(),
        index_preset: owned("auto"),
    }
}

/// `load_settings` (all but the sampling rate): each value from the file where present, else
/// its default. Numbers are narrowed as `as` does.
pub fn resolve_settings(f: &SettingsFile) -> (s: GuiSettings)
    ensures
        s.shot_format@ == str_or(f.shot_format, "png"@),
        s.shot_res_ix == match f.shot_res_ix {
            Some(n) => n as usize,
            None => 0usize,
        },
        s.jpeg_quality == match f.jpeg_quality {
            Some(n) => n as u32,
            None => 80u32,
        },
        s.mic_device.deep_view() == f.mic_device.deep_view(),
        s.capture_screenshots == match f.capture_screenshots {
            Some(b) => b,
            None => true,
        },
        cfg_view(s.index) == resolved_index_cfg(f.index),
        s.index_model@ == str_or(f.index_model, Seq::empty()),
        s.index_preset@ == str_or(f.index_preset, "auto"@),
{
    proof {
        reveal_strlit("");
    }
    GuiSettings {
        shot_format: string_or(&f.shot_format, "png"),
        shot_res_ix: match f.shot_res_ix {
            Some(n) => #[verifier::truncate] (n as usize),
            None => 0,
        },
        jpeg_quality: match f.jpeg_quality {
            Some(n) => #[verifier::truncate] (n as u32),
            None => 80,
        },
        mic_device: match &f.mic_device {
            Some(m) => Some(m.clone()),
            None => None,
        },
        capture_screenshots: match f.capture_screenshots {
            Some(b) => b,
            None => true,
        },
        index: resolve_index_cfg(&f.index),
        index_model: string_or(&f.index_model, ""),
        index_preset: string_or(&f.index_preset, "auto"),
    }
}

// ---------------------------------------------------------------------------------------------
// The settings object on disk
// ---------------------------------------------------------------------------------------------

/// The first value stored under `key` in the members of an object, from member `i` on.
pub open spec fn member_from(b: Seq<(Seq<char>, JsonView)>, key: Seq<char>, i: int) -> Option<JsonView>
    decreases b.len() - i,
{
    if i < 0 || i >= b.len() {
        None
    } else if b[i].0 == key {
        Some(b[i].1)
    } else {
        member_from(b, key, i + 1)
    }
}

/// The value stored under `key` in an object (a parsed object holds each key once).
pub open spec fn member(b: Seq<(Seq<char>, JsonView)>, key: Seq<char>) -> Option<JsonView> {
    member_from(b, key, 0)
}

/// The string stored under `key`, if the value there is a string.
pub open spec fn str_member(b: Seq<(Seq<char>, JsonView)>, key: Seq<char>) -> Option<Seq<char>> {
    match member(b, key) {
        Some(JsonView::Str(s)) => Some(s),
        _ => None,
    }
}

/// The string stored under `key`, or the empty string.
pub open spec fn str_member_or_empty(b: Seq<(Seq<char>, JsonView)>, key: Seq<char>) -> Seq<char> {
    match str_member(b, key) {
        Some(s) => s,
        None => Seq::empty(),
    }
}

/// The unsigned whole number stored under `key`, if the value there is one.
pub open spec fn u64_member(b: Seq<(Seq<char>, JsonView)>, key: Seq<char>) -> Option<u64> {
    match member(b, key) {
        Some(JsonView::UInt(n)) => Some(n),
        Some(JsonView::Int(i)) => if i >= 0 {
            Some(i as u64)
        } else {
            None
        },
        _ => None,
    }
}

/// The boolean stored under `key`, if the value there is one.
pub open spec fn bool_member(b: Seq<(Seq<char>, JsonView)>, key: Seq<char>) -> Option<bool> {
    match member(b, key) {
        Some(JsonView::Bool(x)) => Some(x),
        _ => None,
    }
}

/// The mathematical content of the preferences.
pub struct SettingsView {
    pub shot_format: Seq<char>,
    pub shot_res_ix: usize,
    pub jpeg_quality: u32,
    pub mic_device: Option<Seq<char>>,
    pub capture_screenshots: bool,
    pub index: (Seq<char>, Seq<char>, Seq<char>, Seq<char>),
    pub index_model: Seq<char>,
    pub index_preset: Seq<char>,
}

/// The view of the preferences.
pub open spec fn settings_view(s: GuiSettings) -> SettingsView {
    SettingsView {
        shot_format: s.shot_format@,
        shot_res_ix: s.shot_res_ix,
        jpeg_quality: s.jpeg_quality,
        mic_device: match s.mic_device {
            Some(m) => Some(m@),
            None => None,
        },
        capture_screenshots: s.capture_screenshots,
        index: cfg_view(s.index),
        index_model: s.index_model@,
        index_preset: s.index_preset@,
    }
}

/// The preferences that a settings object yields: each value where its key holds one of the
/// right type, else its default; the index endpoint as `index_cfg_of` resolves it.
pub open spec fn read_settings(b: Seq<(Seq<char>, JsonView)>) -> SettingsView {
    SettingsView {
        shot_format: match str_member(b, "shot_format"@) {
            Some(x) => x,
            None => "png"@,
        },
        shot_res_ix: match u64_member(b, "shot_res_ix"@) {
            Some(n) => n as usize,
            None => 0usize,
        },
        jpeg_quality: match u64_member(b, "jpeg_quality"@) {
            Some(n) => n as u32,
            None => 80u32,
        },
        mic_device: str_member(b, "mic_device"@),
        capture_screenshots: match bool_member(b, "capture_screenshots"@) {
            Some(x) => x,
            None => true,
        },
        index: index_cfg_of(
            member(b, "index_provider"@) is Some,
            member(b, "index_host"@) is Some,
            str_member_or_empty(b, "index_provider"@),
            str_member_or_empty(b, "index_host"@),
            str_member_or_empty(b, "index_port"@),
            str_member_or_empty(b, "index_key"@),
            str_member_or_empty(b, "index_url"@),
        ),
        index_model: str_member_or_empty(b, "index_model"@),
        index_preset: match str_member(b, "index_preset"@) {
            Some(x) => x,
            None => "auto"@,
        },
    }
}

/// The settings object that is written: the preferences and the index sampling rate (as `f64`
/// bits), in this order.
pub open spec fn saved_members(s: GuiSettings, rate_bits: u64) -> Seq<(Seq<char>, JsonView)> {
    seq![
        ("shot_format"@, JsonView::Str(s.shot_format@)),
        ("shot_res_ix"@, JsonView::UInt(s.shot_res_ix as u64)),
        ("jpeg_quality"@, JsonView::UInt(s.jpeg_quality as u64)),
        ("mic_device"@, match s.mic_device {
            Some(m) => JsonView::Str(m@),
            None => JsonView::Null,
        }),
        ("capture_screenshots"@, JsonView::Bool(s.capture_screenshots)),
        ("index_provider"@, JsonView::Str(s.index.provider@)),
        ("index_host"@, JsonView::Str(s.index.host@)),
        ("index_port"@, JsonView::Str(s.index.port@)),
        ("index_key"@, JsonView::Str(s.index.key@)),
        ("index_model"@, JsonView::Str(s.index_model@)),
        ("index_sample_rate"@, JsonView::Float(rate_bits)),
        ("index_preset"@, JsonView::Str(s.index_preset@)),
    ]
}

/// The settings object to write for the preferences and the index sampling rate (`f64` bits).
pub fn saved_settings(s: &GuiSettings, rate_bits: u64) -> (b: Body)
    ensures
        body_view(b) == saved_members(*s, rate_bits),
{
    let mut b: Body = Vec::new();
    b.push((owned("shot_format"), JsonValue::Str(s.shot_format.clone())));
    b.push((owned("shot_res_ix"), JsonValue::UInt(s.shot_res_ix as u64)));
    b.push((owned("jpeg_quality"), JsonValue::UInt(s.jpeg_quality as u64)));
    let mic = match &s.mic_device {
        Some(m) => JsonValue::Str(m.clone()),
        None => JsonValue::Null,
    };
    b.push((owned("mic_device"), mic));
    b.push((owned("capture_screenshots"), JsonValue::Bool(s.capture_screenshots)));
    b.push((owned("index_provider"), JsonValue::Str(s.index.provider.clone())));
    b.push((owned("index_host"), JsonValue::Str(s.index.host.clone())));
    b.push((owned("index_port"), JsonValue::Str(s.index.port.clone())));
    b.push((owned("index_key"), JsonValue::Str(s.index.key.clone())));
    b.push((owned("index_model"), JsonValue::Str(s.index_model.clone())));
    b.push((owned("index_sample_rate"), JsonValue::Float(rate_bits)));
    b.push((owned("index_preset"), JsonValue::Str(s.index_preset.clone())));
    assert(body_view(b) =~= saved_members(*s, rate_bits));
    b
}

/// The index of the member stored under `key`: the first one.
fn find_member(b: &Body, key: &str) -> (r: Option<usize>)
    ensures
        match r {
            Some(i) => i < b@.len() && member(body_view(*b), key@) == Some(b@[i as int].1@),
            None => member(body_view(*b), key@) is None,
        },
{
    let n = b.len();
    let mut i: usize = 0;
    while i < n
        invariant
            n == b@.len(),
            i <= n,
            member(body_view(*b), key@) == member_from(body_view(*b), key@, i as int),
        decreases n - i,
    {
        if str_eq(b[i].0.as_str(), key) {
            return Some(i);
        }
        i = i + 1;
    }
    None
}

/// A copy of the string stored under `key`, if the value there is a string.
fn str_at(b: &Body, key: &str) -> (r: Option<String>)
    ensures
        r.deep_view() == str_member(body_view(*b), key@),
{
    match find_member(b, key) {
        Some(i) => match &b[i].1 {
            JsonValue::Str(s) => Some(s.clone()),
            _ => None,
        },
        None => None,
    }
}

/// The string stored under `key`, or the empty string.
fn str_at_or_empty(b: &Body, key: &str) -> (r: String)
    ensures
        r@ == str_member_or_empty(body_view(*b), key@),
{
    match str_at(b, key) {
        Some(s) => s,
        None => String::new(),
    }
}

/// The unsigned whole number stored under `key`, if the value there is one.
fn u64_at(b: &Body, key: &str) -> (r: Option<u64>)
    ensures
        r == u64_member(body_view(*b), key@),
{
    match find_member(b, key) {
        Some(i) => match &b[i].1 {
            JsonValue::UInt(n) => Some(*n),
            JsonValue::Int(x) => if *x >= 0 {
                Some(*x as u64)
            } else {
                None
            },
            _ => None,
        },
        None => None,
    }
}

/// The boolean stored under `key`, if the value there is one.
fn bool_at(b: &Body, key: &str) -> (r: Option<bool>)
    ensures
        r == bool_member(body_view(*b), key@),
{
    match find_member(b, key) {
        Some(i) => match &b[i].1 {
            JsonValue::Bool(x) => Some(*x),
            _ => None,
        },
        None => None,
    }
}

/// What a settings object holds, as `resolve_settings` reads it.
pub fn settings_file_of(b: &Body) -> (f: SettingsFile)
    ensures
        f.shot_format.deep_view() == str_member(body_view(*b), "shot_format"@),
        f.shot_res_ix == u64_member(body_view(*b), "shot_res_ix"@),
        f.jpeg_quality == u64_member(body_view(*b), "jpeg_quality"@),
        f.mic_device.deep_view() == str_member(body_view(*b), "mic_device"@),
        f.capture_screenshots == bool_member(body_view(*b), "capture_screenshots"@),
        f.index.has_provider == member(body_view(*b), "index_provider"@) is Some,
        f.index.has_host == member(body_view(*b), "index_host"@) is Some,
        f.index.provider@ == str_member_or_empty(body_view(*b), "index_provider"@),
        f.index.host@ == str_member_or_empty(body_view(*b), "index_host"@),
        f.index.port@ == str_member_or_empty(body_view(*b), "index_port"@),
        f.index.key@ == str_member_or_empty(body_view(*b), "index_key"@),
        f.index.legacy_url@ == str_member_or_empty(body_view(*b), "index_url"@),
        f.index_model.deep_view() == str_member(body_view(*b), "index_model"@),
        f.index_preset.deep_view() == str_member(body_view(*b), "index_preset"@),
{
    SettingsFile {
        shot_format: str_at(b, "shot_format"),
        shot_res_ix: u64_at(b, "shot_res_ix"),
        jpeg_quality: u64_at(b, "jpeg_quality"),
        mic_device: str_at(b, "mic_device"),
        capture_screenshots: bool_at(b, "capture_screenshots"),
        index: IndexSettingsFile {
            has_provider: find_member(b, "index_provider").is_some(),
            has_host: find_member(b, "index_host").is_some(),
            provider: str_at_or_empty(b, "index_provider"),
            host: str_at_or_empty(b, "index_host"),
            port: str_at_or_empty(b, "index_port"),
            key: str_at_or_empty(b, "index_key"),
            legacy_url: str_at_or_empty(b, "index_url"),
        },
        index_model: str_at(b, "index_model"),
        index_preset: str_at(b, "index_preset"),
    }
}

/// `load_settings` on a parsed settings object (all but the sampling rate).
pub fn settings_from_object(b: &Body) -> (s: GuiSettings)
    ensures
        settings_view(s) == read_settings(body_view(*b)),
{
    let f = settings_file_of(b);
    let s = resolve_settings(&f);
    proof {
        reveal_strlit("");
    }
    assert(settings_view(s).index_model =~= read_settings(body_view(*b)).index_model);
    assert(settings_view(s).mic_device == read_settings(body_view(*b)).mic_device);
    s
}

/// Writing the preferences and reading the object back gives the same preferences, whenever
/// the stored provider is not blank and the stored port is not blank or the provider has no
/// default port (a blank provider reads back as LM Studio, a blank port as the default).
#[verifier::rlimit(50)]
pub proof fn lemma_saved_settings_read_back(s: GuiSettings, rate_bits: u64)
    requires
        s.index.provider@.len() > 0,
        s.index.port@.len() > 0 || provider_meta(s.index.provider@).0.len() == 0,
    ensures
        read_settings(saved_members(s, rate_bits)) == settings_view(s),
{
    let b = saved_members(s, rate_bits);
    reveal_strlit("shot_format");
    reveal_strlit("shot_res_ix");
    reveal_strlit("jpeg_quality");
    reveal_strlit("mic_device");
    reveal_strlit("capture_screenshots");
    reveal_strlit("index_provider");
    reveal_strlit("index_host");
    reveal_strlit("index_port");
    reveal_strlit("index_key");
    reveal_strlit("index_model");
    reveal_strlit("index_sample_rate");
    reveal_strlit("index_preset");
    reveal_strlit("index_url");
    assert(b.len() == 12);
    assert(b[0].0 == "shot_format"@);
    assert(b[1].0 == "shot_res_ix"@);
    assert(b[2].0 == "jpeg_quality"@);
    assert(b[3].0 == "mic_device"@);
    assert(b[4].0 == "capture_screenshots"@);
    assert(b[5].0 == "index_provider"@);
    assert(b[6].0 == "index_host"@);
    assert(b[7].0 == "index_port"@);
    assert(b[8].0 == "index_key"@);
    assert(b[9].0 == "index_model"@);
    assert(b[10].0 == "index_sample_rate"@);
    assert(b[11].0 == "index_preset"@);
    reveal_with_fuel(member_from, 13);
    assert(member(b, "shot_format"@) == Some(b[0].1));
    assert("shot_res_ix"@[5] != "shot_format"@[5]);
    assert("index_host"@[6] != "index_port"@[6]);
    assert("index_key"@[6] != "index_url"@[6]);
    assert("index_model"@[0] != "shot_format"@[0]);
    assert("index_preset"@[0] != "jpeg_quality"@[0]);
    assert("index_host"@[0] != "mic_device"@[0]);
    assert(member(b, "shot_res_ix"@) == Some(b[1].1));
    assert(member(b, "jpeg_quality"@) == Some(b[2].1));
    assert(member(b, "mic_device"@) == Some(b[3].1));
    assert(member(b, "capture_screenshots"@) == Some(b[4].1));
    assert(member(b, "index_provider"@) == Some(b[5].1));
    assert(member(b, "index_host"@) == Some(b[6].1));
    assert(member(b, "index_port"@) == Some(b[7].1));
    assert(member(b, "index_key"@) == Some(b[8].1));
    assert(member(b, "index_model"@) == Some(b[9].1));
    assert(member(b, "index_preset"@) == Some(b[11].1));
    assert(member(b, "index_url"@) is None);
    let r = read_settings(b);
    let v = settings_view(s);
    assert(r.shot_format == v.shot_format);
    assert(r.shot_res_ix == v.shot_res_ix);
    assert(r.jpeg_quality == v.jpeg_quality);
    assert(r.mic_device == v.mic_device);
    assert(r.capture_screenshots == v.capture_screenshots);
    assert(r.index == v.index);
    assert(r.index_model == v.index_model);
    assert(r.index_preset == v.index_preset);
}

// ---------------------------------------------------------------------------------------------
// Screenshot settings of a capture
// ---------------------------------------------------------------------------------------------

/// The resolution of screenshot preset `ix` (`None` = native, or out of range).
pub open spec fn res_preset(ix: int) -> Option<Seq<char>> {
    if ix == 1 {
        Some("2560x1440"@)
    } else if ix == 2 {
        Some("1920x1080"@)
    } else if ix == 3 {
        Some("1280x720"@)
    } else {
        None
    }
}

/// The labels of the resolution presets, in order.
pub open spec fn res_label(ix: int) -> Seq<char> {
    if ix == 0 {
        "Native"@
    } else if ix == 1 {
        "1440p"@
    } else if ix == 2 {
        "1080p"@
    } else {
        "720p"@
    }
}

/// The number of resolution presets.
pub const RES_PRESET_COUNT: usize = 4;

/// The label and resolution of resolution preset `ix`.
pub fn res_preset_at(ix: usize) -> (r: (&'static str, Option<&'static str>))
    requires
        ix < RES_PRESET_COUNT,
    ensures
        r.0@ == res_label(ix as int),
        match r.1 {
            Some(s) => res_preset(ix as int) == Some(s@),
            None => res_preset(ix as int) is None,
        },
{
    if ix == 0 {
        ("Native", None)
    } else if ix == 1 {
        ("1440p", Some("2560x1440"))
    } else if ix == 2 {
        ("1080p", Some("1920x1080"))
    } else {
        ("720p", Some("1280x720"))
    }
}

/// The screenshot fields merged into a capture request: screenshots on/off, the format, the
/// preset resolution (when not native) and the JPEG quality (for `jpeg` only).
pub open spec fn shot_fields(capture: bool, format: Seq<char>, res_ix: int, quality: u32) -> Seq<
    (Seq<char>, JsonView),
> {
    let b0 = seq![
        ("capture_screenshots"@, JsonView::Bool(capture)),
        ("screenshot_format"@, JsonView::Str(format)),
    ];
    let b1 = match res_preset(res_ix) {
        Some(r) => b0.push(("screenshot_resolution"@, JsonView::Str(r))),
        None => b0,
    };
    if format == "jpeg"@ {
        b1.push(("screenshot_jpeg_quality"@, JsonView::Int(quality as i64)))
    } else {
        b1
    }
}

/// `shot_settings`.
pub fn shot_settings(capture: bool, format: &str, res_ix: usize, quality: u32) -> (b: Body)
    ensures
        body_view(b) == shot_fields(capture, format@, res_ix as int, quality),
{
    let mut b: Body = Vec::new();
    b.push((owned("capture_screenshots"), JsonValue::Bool(capture)));
    b.push((owned("screenshot_format"), JsonValue::Str(owned(format))));
    if res_ix < RES_PRESET_COUNT {
        if let Some(r) = res_preset_at(res_ix).1 {
            b.push((owned("screenshot_resolution"), JsonValue::Str(owned(r))));
        }
    }
    if str_eq(format, "jpeg") {
        b.push((owned("screenshot_jpeg_quality"), JsonValue::Int(quality as i64)));
    }
    assert(body_view(b) =~= shot_fields(capture, format@, res_ix as int, quality));
    b
}

// ---------------------------------------------------------------------------------------------
// Short forms
// ---------------------------------------------------------------------------------------------

/// The index of the last `c` in `s`, or -1.
pub open spec fn rfind_char(s: Seq<char>, c: char) -> int
    decreases s.len(),
{
    if s.len() == 0 {
        -1
    } else if s.last() == c {
        s.len() - 1
    } else {
        rfind_char(s.drop_last(), c)
    }
}

/// `rfind_char` lies within the sequence, and no later character is `c`.
pub proof fn lemma_rfind_char(s: Seq<char>, c: char)
    ensures
        -1 <= rfind_char(s, c) < s.len(),
        rfind_char(s, c) >= 0 ==> s[rfind_char(s, c)] == c,
        forall|i: int| rfind_char(s, c) < i < s.len() ==> s[i] != c,
    decreases s.len(),
{
    if s.len() > 0 && s.last() != c {
        lemma_rfind_char(s.drop_last(), c);
        assert forall|i: int| rfind_char(s, c) < i < s.len() implies s[i] != c by {
            if i < s.len() - 1 {
                assert(s[i] == s.drop_last()[i]);
            }
        }
    }
}

/// The part of `s` after its last `c` (all of `s` when it has none).
pub open spec fn after_last(s: Seq<char>, c: char) -> Seq<char> {
    s.skip(rfind_char(s, c) + 1)
}

/// The part of a string after its last `c` (`rsplit(c).next()`).
pub fn after_last_char(s: &str, c: char) -> (r: String)
    ensures
        r@ == after_last(s@, c),
{
    let cs = chars_of(s);
    let mut i = cs.len();
    assert(cs@.take(i as int) =~= cs@);
    while i > 0 && cs[i - 1] != c
        invariant
            i <= cs@.len(),
            rfind_char(cs@, c) == rfind_char(cs@.take(i as int), c),
        decreases i,
    {
        assert(cs@.take(i as int).drop_last() =~= cs@.take(i - 1));
        i = i - 1;
    }
    assert(rfind_char(cs@, c) + 1 == i);
    sub_string(cs.as_slice(), i, cs.len())
}

/// The part of an id after its last `-` (the whole id when it has none).
pub open spec fn short_id_spec(id: Seq<char>) -> Seq<char> {
    after_last(id, '-')
}

/// `short_id`: the last `-`-separated part of a session id.
pub fn short_id(id: &str) -> (r: String)
    ensures
        r@ == short_id_spec(id@),
{
    after_last_char(id, '-')
}

/// The last `/`-separated part of a path or model repo (`rsplit('/').next()`).
pub fn last_path_part(s: &str) -> (r: String)
    ensures
        r@ == after_last(s@, '/'),
{
    after_last_char(s, '/')
}

/// The short form never holds a `-`, and it is a suffix of the id.
pub proof fn lemma_short_id_is_last_part(id: Seq<char>)
    ensures
        short_id_spec(id).is_suffix_of(id),
        forall|i: int| 0 <= i < short_id_spec(id).len() ==> short_id_spec(id)[i] != '-',
{
    lemma_rfind_char(id, '-');
    let k = rfind_char(id, '-') + 1;
    assert(short_id_spec(id) =~= id.subrange(id.len() - short_id_spec(id).len(), id.len() as int));
    assert forall|i: int| 0 <= i < short_id_spec(id).len() implies short_id_spec(id)[i] != '-' by {
        assert(short_id_spec(id)[i] == id[k + i]);
    }
}

/// A string cut to its first `n` characters, with `…` appended when it was longer.
pub open spec fn truncated(s: Seq<char>, n: nat) -> Seq<char> {
    if s.len() > n {
        s.take(n as int).push('…')
    } else {
        s
    }
}

/// `truncate`.
pub fn truncate(s: &str, n: usize) -> (r: String)
    ensures
        r@ == truncated(s@, n as nat),
{
    let cs = chars_of(s);
    if cs.len() > n {
        let mut head = sub_chars(cs.as_slice(), 0, n);
        head.push('…');
        string_of(head.as_slice())
    } else {
        string_of(cs.as_slice())
    }
}

/// A truncated string never has more than `n + 1` characters, and is the string itself when it
/// had at most `n`.
pub proof fn lemma_truncated_len(s: Seq<char>, n: nat)
    ensures
        truncated(s, n).len() <= n + 1,
        s.len() <= n ==> truncated(s, n) == s,
        s.len() > n ==> truncated(s, n).take(n as int) == s.take(n as int),
{
    if s.len() > n {
        assert(truncated(s, n).take(n as int) =~= s.take(n as int));
    }
}

} // verus!
