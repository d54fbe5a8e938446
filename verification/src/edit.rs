//! The single-line text fields of the client (launch command, index host / port / key, the
//! language search): how a key press edits the field's text and what the field does next.

use vstd::prelude::*;
use crate::text::{chars_of, join2, is_control, is_digit, str_eq, string_of, trim, trim_str};

verus! {

/// Which field a key press goes to.
#[derive(Clone, Copy, PartialEq, Eq, Structural, Debug)]
pub enum FieldKind {
    Command,
    Host,
    Port,
    Key,
    Language,
}

/// A key press: modifier state, the key's name and the text it types (if any).
pub struct KeyPress {
    pub platform: bool,
    pub control: bool,
    pub function: bool,
    pub key: String,
    pub key_char: Option<String>,
}

/// What a field does after a key press.
#[derive(Clone, Copy, PartialEq, Eq, Structural, Debug)]
pub enum KeyOutcome {
    /// Paste the clipboard's text (trimmed) into the field.
    Paste,
    /// Nothing happens (not even a repaint).
    Ignored,
    /// Enter: act on the field's text.
    Submit,
    /// The text may have changed; repaint.
    Changed,
    /// Text was typed (the language field opens its list).
    Typed,
    /// Escape in the language field: the text is cleared and the list closed.
    Cleared,
}

/// Whether typed text is accepted: non-empty and without control characters.
pub open spec fn typable(c: Seq<char>) -> bool {
    c.len() > 0 && forall|i: int| 0 <= i < c.len() ==> !is_control(#[trigger] c[i])
}

/// Whether every character is an ASCII digit.
pub open spec fn all_ascii_digits(c: Seq<char>) -> bool {
    forall|i: int| 0 <= i < c.len() ==> is_digit(#[trigger] c[i])
}

/// `s` without its last character (unchanged when empty).
pub open spec fn pop_char(s: Seq<char>) -> Seq<char> {
    if s.len() == 0 {
        s
    } else {
        s.drop_last()
    }
}

/// The field's text and outcome after a key press.
pub open spec fn key_effect(
    kind: FieldKind,
    buf: Seq<char>,
    platform: bool,
    control: bool,
    function: bool,
    key: Seq<char>,
    key_char: Option<Seq<char>>,
) -> (Seq<char>, KeyOutcome) {
    if platform && key == "v"@ {
        (buf, KeyOutcome::Paste)
    } else if platform || control || function {
        (buf, KeyOutcome::Ignored)
    } else if key == "backspace"@ {
        (pop_char(buf), KeyOutcome::Changed)
    } else if key == "escape"@ && kind == FieldKind::Language {
        (Seq::empty(), KeyOutcome::Cleared)
    } else if key == "enter"@ {
        (buf, KeyOutcome::Submit)
    } else if key == "space"@ && kind == FieldKind::Command {
        (buf.push(' '), KeyOutcome::Changed)
    } else {
        match key_char {
            Some(c) => if typable(c) {
                if kind == FieldKind::Port && !all_ascii_digits(c) {
                    (buf, KeyOutcome::Ignored)
                } else if kind == FieldKind::Language {
                    (buf + c, KeyOutcome::Typed)
                } else {
                    (buf + c, KeyOutcome::Changed)
                }
            } else {
                (buf, KeyOutcome::Changed)
            },
            None => (buf, KeyOutcome::Changed),
        }
    }
}

/// Whether typed text is accepted (executable).
fn is_typable(c: &[char]) -> (r: bool)
    ensures
        r == typable(c@),
{
    if c.len() == 0 {
        return false;
    }
    let n = c.len();
    let mut i: usize = 0;
    while i < n
        invariant
            n == c@.len(),
            i <= n,
            forall|k: int| 0 <= k < i ==> !is_control(#[trigger] c@[k]),
        decreases n - i,
    {
        if crate::text::char_is_control(c[i]) {
            return false;
        }
        i = i + 1;
    }
    true
}

/// Whether every character is an ASCII digit (executable).
fn is_all_digits(c: &[char]) -> (r: bool)
    ensures
        r == all_ascii_digits(c@),
{
    let n = c.len();
    let mut i: usize = 0;
    while i < n
        invariant
            n == c@.len(),
            i <= n,
            forall|k: int| 0 <= k < i ==> is_digit(#[trigger] c@[k]),
        decreases n - i,
    {
        if !('0' <= c[i] && c[i] <= '9') {
            assert(!is_digit(c@[i as int]));
            return false;
        }
        i = i + 1;
    }
    true
}

/// Applies a key press to a field's text and says what the field does next.
pub fn apply_key(kind: FieldKind, buf: &mut String, press: &KeyPress) -> (r: KeyOutcome)
    ensures
        (final(buf)@, r) == key_effect(
            kind,
            old(buf)@,
            press.platform,
            press.control,
            press.function,
            press.key@,
            press.key_char.deep_view(),
        ),
{
    let key = press.key.as_str();
    if press.platform && str_eq(key, "v") {
        return KeyOutcome::Paste;
    }
    if press.platform || press.control || press.function {
        return KeyOutcome::Ignored;
    }
    if str_eq(key, "backspace") {
        let mut cs = chars_of(buf.as_str());
        if cs.len() > 0 {
            cs.pop();
        }
        *buf = string_of(cs.as_slice());
        return KeyOutcome::Changed;
    }
    if str_eq(key, "escape") && kind == FieldKind::Language {
        *buf = String::new();
        return KeyOutcome::Cleared;
    }
    if str_eq(key, "enter") {
        return KeyOutcome::Submit;
    }
    if str_eq(key, "space") && kind == FieldKind::Command {
        *buf = join2(buf.as_str(), " ");
        proof {
            reveal_strlit(" ");
        }
        assert(final(buf)@ =~= old(buf)@.push(' ')) by {
            reveal_strlit(" ");
        }
        return KeyOutcome::Changed;
    }
    match &press.key_char {
        Some(c) => {
            let cc = chars_of(c.as_str());
            if is_typable(cc.as_slice()) {
                if kind == FieldKind::Port && !is_all_digits(cc.as_slice()) {
                    KeyOutcome::Ignored
                } else {
                    *buf = join2(buf.as_str(), c.as_str());
                    if kind == FieldKind::Language {
                        KeyOutcome::Typed
                    } else {
                        KeyOutcome::Changed
                    }
                }
            } else {
                KeyOutcome::Changed
            }
        },
        None => KeyOutcome::Changed,
    }
}

/// Pastes clipboard text into a field: its trimmed text is appended.
pub fn paste_into(buf: &mut String, clipboard: &str)
    ensures
        final(buf)@ == old(buf)@ + trim(clipboard@),
{
    let t = trim_str(clipboard);
    *buf = join2(buf.as_str(), t.as_str());
}

/// A field's text after pasting clipboard text: its trimmed text is appended, except that the
/// port field, which holds digits only, ignores a paste that is not all ASCII digits.
pub open spec fn pasted(kind: FieldKind, buf: Seq<char>, clipboard: Seq<char>) -> Seq<char> {
    let t = trim(clipboard);
    if kind == FieldKind::Port && !all_ascii_digits(t) {
        buf
    } else {
        buf + t
    }
}

/// Pastes clipboard text into a field of kind `kind` (the paste shortcut's effect).
pub fn paste_into_field(kind: FieldKind, buf: &mut String, clipboard: &str)
    ensures
        final(buf)@ == pasted(kind, old(buf)@, clipboard@),
{
    let t = trim_str(clipboard);
    if kind == FieldKind::Port {
        let tc = crate::text::chars_of(t.as_str());
        if !is_all_digits(tc.as_slice()) {
            return;
        }
    }
    *buf = join2(buf.as_str(), t.as_str());
}

/// Pasting never puts anything but digits into a port field that holds digits only.
pub proof fn lemma_port_paste_keeps_digits(buf: Seq<char>, clipboard: Seq<char>)
    requires
        all_ascii_digits(buf),
    ensures
        all_ascii_digits(pasted(FieldKind::Port, buf, clipboard)),
{
    let t = trim(clipboard);
    if all_ascii_digits(t) {
        let r = buf + t;
        assert forall|i: int| 0 <= i < r.len() implies is_digit(#[trigger] r[i]) by {
            if i < buf.len() {
                assert(r[i] == buf[i]);
            } else {
                assert(r[i] == t[i - buf.len()]);
            }
        }
    }
}

/// The port field only ever holds what was there plus ASCII digits typed into it: a typed
/// key press adds digits only.
pub proof fn lemma_port_keeps_digits(
    buf: Seq<char>,
    platform: bool,
    control: bool,
    function: bool,
    key: Seq<char>,
    key_char: Option<Seq<char>>,
)
    requires
        all_ascii_digits(buf),
    ensures
        all_ascii_digits(
            key_effect(FieldKind::Port, buf, platform, control, function, key, key_char).0,
        ),
{
    let r = key_effect(FieldKind::Port, buf, platform, control, function, key, key_char).0;
    if r != buf && key != "backspace"@ {
        let c = key_char->0;
        assert forall|i: int| 0 <= i < r.len() implies is_digit(#[trigger] r[i]) by {
            if i < buf.len() {
                assert(r[i] == buf[i]);
            } else {
                assert(r[i] == c[i - buf.len()]);
            }
        }
    } else if key == "backspace"@ && !(platform && key == "v"@) && !(platform || control
        || function) {
        assert forall|i: int| 0 <= i < r.len() implies is_digit(#[trigger] r[i]) by {
            assert(r[i] == buf[i]);
        }
    }
}

} // verus!
