//! Transcription languages: the searchable language list of the transcription settings,
//! how typed text filters it, which language Enter picks, and the name shown for the active
//! language.

use vstd::prelude::*;
use crate::text::{chars_of, contains_seq, has_prefix, has_substring, owned, str_eq, trim, trim_str};

verus! {

/// The number of languages in the list.
pub const LANGUAGE_COUNT: usize = 75;

/// Language `i` of the list: `(ISO code, English name)`; code `""` is auto-detect.
pub open spec fn language(i: int) -> (Seq<char>, Seq<char>) {
    if i == 0 {
        (""@, "Auto-detect"@)
    } else if i == 1 {
        ("en"@, "English"@)
    } else if i == 2 {
        ("zh"@, "Chinese"@)
    } else if i == 3 {
        ("de"@, "German"@)
    } else if i == 4 {
        ("es"@, "Spanish"@)
    } else if i == 5 {
        ("ru"@, "Russian"@)
    } else if i == 6 {
        ("ko"@, "Korean"@)
    } else if i == 7 {
        ("fr"@, "French"@)
    } else if i == 8 {
        ("ja"@, "Japanese"@)
    } else if i == 9 {
        ("pt"@, "Portuguese"@)
    } else if i == 10 {
        ("tr"@, "Turkish"@)
    } else if i == 11 {
        ("pl"@, "Polish"@)
    } else if i == 12 {
        ("ca"@, "Catalan"@)
    } else if i == 13 {
        ("nl"@, "Dutch"@)
    } else if i == 14 {
        ("ar"@, "Arabic"@)
    } else if i == 15 {
        ("sv"@, "Swedish"@)
    } else if i == 16 {
        ("it"@, "Italian"@)
    } else if i == 17 {
        ("id"@, "Indonesian"@)
    } else if i == 18 {
        ("hi"@, "Hindi"@)
    } else if i == 19 {
        ("fi"@, "Finnish"@)
    } else if i == 20 {
        ("vi"@, "Vietnamese"@)
    } else if i == 21 {
        ("he"@, "Hebrew"@)
    } else if i == 22 {
        ("uk"@, "Ukrainian"@)
    } else if i == 23 {
        ("el"@, "Greek"@)
    } else if i == 24 {
        ("ms"@, "Malay"@)
    } else if i == 25 {
        ("cs"@, "Czech"@)
    } else if i == 26 {
        ("ro"@, "Romanian"@)
    } else if i == 27 {
        ("da"@, "Danish"@)
    } else if i == 28 {
        ("hu"@, "Hungarian"@)
    } else if i == 29 {
        ("ta"@, "Tamil"@)
    } else if i == 30 {
        ("no"@, "Norwegian"@)
    } else if i == 31 {
        ("th"@, "Thai"@)
    } else if i == 32 {
        ("ur"@, "Urdu"@)
    } else if i == 33 {
        ("hr"@, "Croatian"@)
    } else if i == 34 {
        ("bg"@, "Bulgarian"@)
    } else if i == 35 {
        ("lt"@, "Lithuanian"@)
    } else if i == 36 {
        ("la"@, "Latin"@)
    } else if i == 37 {
        ("ml"@, "Malayalam"@)
    } else if i == 38 {
        ("cy"@, "Welsh"@)
    } else if i == 39 {
        ("sk"@, "Slovak"@)
    } else if i == 40 {
        ("te"@, "Telugu"@)
    } else if i == 41 {
        ("fa"@, "Persian"@)
    } else if i == 42 {
        ("lv"@, "Latvian"@)
    } else if i == 43 {
        ("bn"@, "Bengali"@)
    } else if i == 44 {
        ("sr"@, "Serbian"@)
    } else if i == 45 {
        ("az"@, "Azerbaijani"@)
    } else if i == 46 {
        ("sl"@, "Slovenian"@)
    } else if i == 47 {
        ("kn"@, "Kannada"@)
    } else if i == 48 {
        ("et"@, "Estonian"@)
    } else if i == 49 {
        ("mk"@, "Macedonian"@)
    } else if i == 50 {
        ("eu"@, "Basque"@)
    } else if i == 51 {
        ("is"@, "Icelandic"@)
    } else if i == 52 {
        ("hy"@, "Armenian"@)
    } else if i == 53 {
        ("ne"@, "Nepali"@)
    } else if i == 54 {
        ("mn"@, "Mongolian"@)
    } else if i == 55 {
        ("bs"@, "Bosnian"@)
    } else if i == 56 {
        ("kk"@, "Kazakh"@)
    } else if i == 57 {
        ("sq"@, "Albanian"@)
    } else if i == 58 {
        ("sw"@, "Swahili"@)
    } else if i == 59 {
        ("gl"@, "Galician"@)
    } else if i == 60 {
        ("mr"@, "Marathi"@)
    } else if i == 61 {
        ("pa"@, "Punjabi"@)
    } else if i == 62 {
        ("si"@, "Sinhala"@)
    } else if i == 63 {
        ("km"@, "Khmer"@)
    } else if i == 64 {
        ("af"@, "Afrikaans"@)
    } else if i == 65 {
        ("be"@, "Belarusian"@)
    } else if i == 66 {
        ("gu"@, "Gujarati"@)
    } else if i == 67 {
        ("am"@, "Amharic"@)
    } else if i == 68 {
        ("yi"@, "Yiddish"@)
    } else if i == 69 {
        ("lo"@, "Lao"@)
    } else if i == 70 {
        ("uz"@, "Uzbek"@)
    } else if i == 71 {
        ("fo"@, "Faroese"@)
    } else if i == 72 {
        ("ps"@, "Pashto"@)
    } else if i == 73 {
        ("tg"@, "Tajik"@)
    } else {
        ("my"@, "Burmese"@)
    }
}

/// Language `i` of the list.
pub fn language_at(i: usize) -> (r: (&'static str, &'static str))
    requires
        i < LANGUAGE_COUNT,
    ensures
        (r.0@, r.1@) == language(i as int),
{
    if i == 0 {
        ("", "Auto-detect")
    } else if i == 1 {
        ("en", "English")
    } else if i == 2 {
        ("zh", "Chinese")
    } else if i == 3 {
        ("de", "German")
    } else if i == 4 {
        ("es", "Spanish")
    } else if i == 5 {
        ("ru", "Russian")
    } else if i == 6 {
        ("ko", "Korean")
    } else if i == 7 {
        ("fr", "French")
    } else if i == 8 {
        ("ja", "Japanese")
    } else if i == 9 {
        ("pt", "Portuguese")
    } else if i == 10 {
        ("tr", "Turkish")
    } else if i == 11 {
        ("pl", "Polish")
    } else if i == 12 {
        ("ca", "Catalan")
    } else if i == 13 {
        ("nl", "Dutch")
    } else if i == 14 {
        ("ar", "Arabic")
    } else if i == 15 {
        ("sv", "Swedish")
    } else if i == 16 {
        ("it", "Italian")
    } else if i == 17 {
        ("id", "Indonesian")
    } else if i == 18 {
        ("hi", "Hindi")
    } else if i == 19 {
        ("fi", "Finnish")
    } else if i == 20 {
        ("vi", "Vietnamese")
    } else if i == 21 {
        ("he", "Hebrew")
    } else if i == 22 {
        ("uk", "Ukrainian")
    } else if i == 23 {
        ("el", "Greek")
    } else if i == 24 {
        ("ms", "Malay")
    } else if i == 25 {
        ("cs", "Czech")
    } else if i == 26 {
        ("ro", "Romanian")
    } else if i == 27 {
        ("da", "Danish")
    } else if i == 28 {
        ("hu", "Hungarian")
    } else if i == 29 {
        ("ta", "Tamil")
    } else if i == 30 {
        ("no", "Norwegian")
    } else if i == 31 {
        ("th", "Thai")
    } else if i == 32 {
        ("ur", "Urdu")
    } else if i == 33 {
        ("hr", "Croatian")
    } else if i == 34 {
        ("bg", "Bulgarian")
    } else if i == 35 {
        ("lt", "Lithuanian")
    } else if i == 36 {
        ("la", "Latin")
    } else if i == 37 {
        ("ml", "Malayalam")
    } else if i == 38 {
        ("cy", "Welsh")
    } else if i == 39 {
        ("sk", "Slovak")
    } else if i == 40 {
        ("te", "Telugu")
    } else if i == 41 {
        ("fa", "Persian")
    } else if i == 42 {
        ("lv", "Latvian")
    } else if i == 43 {
        ("bn", "Bengali")
    } else if i == 44 {
        ("sr", "Serbian")
    } else if i == 45 {
        ("az", "Azerbaijani")
    } else if i == 46 {
        ("sl", "Slovenian")
    } else if i == 47 {
        ("kn", "Kannada")
    } else if i == 48 {
        ("et", "Estonian")
    } else if i == 49 {
        ("mk", "Macedonian")
    } else if i == 50 {
        ("eu", "Basque")
    } else if i == 51 {
        ("is", "Icelandic")
    } else if i == 52 {
        ("hy", "Armenian")
    } else if i == 53 {
        ("ne", "Nepali")
    } else if i == 54 {
        ("mn", "Mongolian")
    } else if i == 55 {
        ("bs", "Bosnian")
    } else if i == 56 {
        ("kk", "Kazakh")
    } else if i == 57 {
        ("sq", "Albanian")
    } else if i == 58 {
        ("sw", "Swahili")
    } else if i == 59 {
        ("gl", "Galician")
    } else if i == 60 {
        ("mr", "Marathi")
    } else if i == 61 {
        ("pa", "Punjabi")
    } else if i == 62 {
        ("si", "Sinhala")
    } else if i == 63 {
        ("km", "Khmer")
    } else if i == 64 {
        ("af", "Afrikaans")
    } else if i == 65 {
        ("be", "Belarusian")
    } else if i == 66 {
        ("gu", "Gujarati")
    } else if i == 67 {
        ("am", "Amharic")
    } else if i == 68 {
        ("yi", "Yiddish")
    } else if i == 69 {
        ("lo", "Lao")
    } else if i == 70 {
        ("uz", "Uzbek")
    } else if i == 71 {
        ("fo", "Faroese")
    } else if i == 72 {
        ("ps", "Pashto")
    } else if i == 73 {
        ("tg", "Tajik")
    } else {
        ("my", "Burmese")
    }
}

/// The lowercase form of a string, as `str::to_lowercase` computes it (Unicode lowercase
/// mapping).
pub uninterp spec fn lowercase_of(s: Seq<char>) -> Seq<char>;

/// `str::to_lowercase`. Trusted: the result is the string's lowercase form, which is named and
/// not spelled out here (it follows the Unicode case tables).
#[verifier::external_body]
fn lowercase(s: &str) -> (r: String)
    ensures
        r@ == lowercase_of(s@),
{
    s.to_lowercase()
}

/// ASCII lowercase of one character.
pub open spec fn ascii_lower(c: char) -> char {
    if 'A' <= c && c <= 'Z' {
        ((c as u32) + 32) as char
    } else {
        c
    }
}

/// Equality up to ASCII case (`eq_ignore_ascii_case`).
pub open spec fn eq_ignore_ascii_case(a: Seq<char>, b: Seq<char>) -> bool {
    a.len() == b.len() && forall|i: int| 0 <= i < a.len() ==> ascii_lower(a[i]) == ascii_lower(b[i])
}

/// `char::to_ascii_lowercase`.
fn to_ascii_lower(c: char) -> (r: char)
    ensures
        r == ascii_lower(c),
{
    if 'A' <= c && c <= 'Z' {
        ((c as u32 + 32) as u8) as char
    } else {
        c
    }
}

/// Equality up to ASCII case.
fn eq_ascii_case(a: &[char], b: &[char]) -> (r: bool)
    ensures
        r == eq_ignore_ascii_case(a@, b@),
{
    if a.len() != b.len() {
        return false;
    }
    let n = a.len();
    let mut i: usize = 0;
    while i < n
        invariant
            n == a@.len(),
            n == b@.len(),
            i <= n,
            forall|k: int| 0 <= k < i ==> ascii_lower(a@[k]) == ascii_lower(b@[k]),
        decreases n - i,
    {
        if to_ascii_lower(a[i]) != to_ascii_lower(b[i]) {
            return false;
        }
        i = i + 1;
    }
    true
}

/// Whether language `i` matches filter `f` by code or name prefix (or the code up to case).
pub open spec fn prefix_hit(f: Seq<char>, i: int) -> bool {
    let (c, n) = language(i);
    eq_ignore_ascii_case(c, f) || f.is_prefix_of(c) || f.is_prefix_of(lowercase_of(n))
}

/// Whether language `i` contains filter `f` in its name or code.
pub open spec fn contains_hit(f: Seq<char>, i: int) -> bool {
    let (c, n) = language(i);
    contains_seq(lowercase_of(n), f) || contains_seq(c, f)
}

/// The first language from `i` on that `prefix_hit`s.
pub open spec fn first_prefix_hit(f: Seq<char>, i: int) -> Option<int>
    decreases LANGUAGE_COUNT - i,
{
    if i >= LANGUAGE_COUNT || i < 0 {
        None
    } else if prefix_hit(f, i) {
        Some(i)
    } else {
        first_prefix_hit(f, i + 1)
    }
}

/// The first language from `i` on that `contains_hit`s.
pub open spec fn first_contains_hit(f: Seq<char>, i: int) -> Option<int>
    decreases LANGUAGE_COUNT - i,
{
    if i >= LANGUAGE_COUNT || i < 0 {
        None
    } else if contains_hit(f, i) {
        Some(i)
    } else {
        first_contains_hit(f, i + 1)
    }
}

/// The language Enter picks for an already trimmed and lowercased filter `f`: the first whose
/// code or name starts with it, else the first containing it; none for an empty filter.
pub open spec fn match_for(f: Seq<char>) -> Option<Seq<char>> {
    if f.len() == 0 {
        None
    } else {
        match first_prefix_hit(f, 0) {
            Some(i) => Some(language(i).0),
            None => match first_contains_hit(f, 0) {
                Some(i) => Some(language(i).0),
                None => None,
            },
        }
    }
}

/// The language Enter picks for typed text: `match_for` of the trimmed, lowercased text.
pub open spec fn top_match(filter: Seq<char>) -> Option<Seq<char>> {
    match_for(lowercase_of(trim(filter)))
}

/// Whether language `i` matches filter `f` by prefix (executable).
fn prefix_hit_at(f: &[char], i: usize) -> (r: bool)
    requires
        i < LANGUAGE_COUNT,
    ensures
        r == prefix_hit(f@, i as int),
{
    let (c, n) = language_at(i);
    let cc = chars_of(c);
    let nl = lowercase(n);
    let nc = chars_of(nl.as_str());
    eq_ascii_case(cc.as_slice(), f) || has_prefix(cc.as_slice(), f) || has_prefix(
        nc.as_slice(),
        f,
    )
}

/// Whether language `i` contains filter `f` (executable).
fn contains_hit_at(f: &[char], i: usize) -> (r: bool)
    requires
        i < LANGUAGE_COUNT,
    ensures
        r == contains_hit(f@, i as int),
{
    let (c, n) = language_at(i);
    let cc = chars_of(c);
    let nl = lowercase(n);
    let nc = chars_of(nl.as_str());
    has_substring(nc.as_slice(), f) || has_substring(cc.as_slice(), f)
}

/// The code of the language Enter picks for a trimmed, lowercased filter.
pub fn match_for_filter(f: &[char]) -> (r: Option<&'static str>)
    ensures
        match r {
            Some(c) => match_for(f@) == Some(c@),
            None => match_for(f@) is None,
        },
{
    if f.len() == 0 {
        return None;
    }
    let mut i: usize = 0;
    while i < LANGUAGE_COUNT
        invariant
            i <= LANGUAGE_COUNT,
            f@.len() > 0,
            first_prefix_hit(f@, 0) == first_prefix_hit(f@, i as int),
        decreases LANGUAGE_COUNT - i,
    {
        if prefix_hit_at(f, i) {
            return Some(language_at(i).0);
        }
        i = i + 1;
    }
    let mut j: usize = 0;
    while j < LANGUAGE_COUNT
        invariant
            j <= LANGUAGE_COUNT,
            f@.len() > 0,
            first_prefix_hit(f@, 0) is None,
            first_contains_hit(f@, 0) == first_contains_hit(f@, j as int),
        decreases LANGUAGE_COUNT - j,
    {
        if contains_hit_at(f, j) {
            return Some(language_at(j).0);
        }
        j = j + 1;
    }
    None
}

/// `top_lang_match`: the code of the language Enter picks for the typed text.
pub fn top_lang_match(filter: &str) -> (r: Option<&'static str>)
    ensures
        match r {
            Some(c) => top_match(filter@) == Some(c@),
            None => top_match(filter@) is None,
        },
{
    let t = trim_str(filter);
    let fl = lowercase(t.as_str());
    let f = chars_of(fl.as_str());
    match_for_filter(f.as_slice())
}

/// Whether language `i` is listed for filter `f` (all are for an empty filter).
pub open spec fn listed(f: Seq<char>, i: int) -> bool {
    let (c, n) = language(i);
    f.len() == 0 || contains_seq(c, f) || contains_seq(lowercase_of(n), f)
}

/// The languages listed for filter `f` among the first `k`, in order.
pub open spec fn listed_upto(f: Seq<char>, k: int) -> Seq<usize>
    decreases k,
{
    if k <= 0 {
        Seq::empty()
    } else if listed(f, k - 1) {
        listed_upto(f, k - 1).push((k - 1) as usize)
    } else {
        listed_upto(f, k - 1)
    }
}

/// The positions of the languages listed for a trimmed, lowercased filter, in list order.
pub fn listed_for_filter(f: &[char]) -> (r: Vec<usize>)
    ensures
        r@ == listed_upto(f@, LANGUAGE_COUNT as int),
{
    let mut r: Vec<usize> = Vec::new();
    let mut i: usize = 0;
    while i < LANGUAGE_COUNT
        invariant
            i <= LANGUAGE_COUNT,
            r@ == listed_upto(f@, i as int),
        decreases LANGUAGE_COUNT - i,
    {
        let (c, n) = language_at(i);
        let cc = chars_of(c);
        let nl = lowercase(n);
        let nc = chars_of(nl.as_str());
        if f.len() == 0 || has_substring(cc.as_slice(), f) || has_substring(nc.as_slice(), f) {
            r.push(i);
        }
        i = i + 1;
    }
    r
}

/// The positions of the languages the dropdown lists for the typed text (trimmed and
/// lowercased), in list order.
pub fn language_filter(input: &str) -> (r: Vec<usize>)
    ensures
        r@ == listed_upto(lowercase_of(trim(input@)), LANGUAGE_COUNT as int),
{
    let t = trim_str(input);
    let fl = lowercase(t.as_str());
    let f = chars_of(fl.as_str());
    listed_for_filter(f.as_slice())
}

/// The first language with code `code`.
pub open spec fn code_index(code: Seq<char>, i: int) -> Option<int>
    decreases LANGUAGE_COUNT - i,
{
    if i >= LANGUAGE_COUNT || i < 0 {
        None
    } else if language(i).0 == code {
        Some(i)
    } else {
        code_index(code, i + 1)
    }
}

/// The name shown for the active language: its list name, else `Auto-detect` for an empty
/// code, else the code itself.
pub open spec fn active_name(code: Seq<char>) -> Seq<char> {
    match code_index(code, 0) {
        Some(i) => language(i).1,
        None => if code.len() == 0 {
            "Auto-detect"@
        } else {
            code
        },
    }
}

/// The display name of the active transcription language.
pub fn active_language_name(code: &str) -> (r: String)
    ensures
        r@ == active_name(code@),
{
    let mut i: usize = 0;
    while i < LANGUAGE_COUNT
        invariant
            i <= LANGUAGE_COUNT,
            code_index(code@, 0) == code_index(code@, i as int),
        decreases LANGUAGE_COUNT - i,
    {
        let (c, n) = language_at(i);
        if str_eq(c, code) {
            return owned(n);
        }
        i = i + 1;
    }
    if chars_of(code).len() == 0 {
        owned("Auto-detect")
    } else {
        owned(code)
    }
}

} // verus!
