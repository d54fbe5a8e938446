//! The bundled icon set and how an asset path names one of its icons: `icons/<name>.svg`
//! (or the bare name) selects the icon `<name>`.

use vstd::prelude::*;
use crate::text::{chars_of, join3, has_prefix, has_suffix, str_eq, string_of, sub_chars};

verus! {

/// The number of bundled icons.
pub const ICON_COUNT: usize = 19;

/// Icon `i`'s name.
pub open spec fn icon_name(i: int) -> Seq<char> {
    if i == 0 {
        "folder"@
    } else if i == 1 {
        "clipboard"@
    } else if i == 2 {
        "stop"@
    } else if i == 3 {
        "trash"@
    } else if i == 4 {
        "settings"@
    } else if i == 5 {
        "chevron-left"@
    } else if i == 6 {
        "mic"@
    } else if i == 7 {
        "play"@
    } else if i == 8 {
        "pause"@
    } else if i == 9 {
        "skip-back"@
    } else if i == 10 {
        "skip-forward"@
    } else if i == 11 {
        "rewind"@
    } else if i == 12 {
        "fast-forward"@
    } else if i == 13 {
        "image"@
    } else if i == 14 {
        "volume"@
    } else if i == 15 {
        "volume-x"@
    } else if i == 16 {
        "refresh"@
    } else if i == 17 {
        "scissors"@
    } else {
        "list-tree"@
    }
}

/// Icon `i`'s name.
pub fn icon_name_at(i: usize) -> (r: &'static str)
    requires
        i < ICON_COUNT,
    ensures
        r@ == icon_name(i as int),
{
    if i == 0 {
        "folder"
    } else if i == 1 {
        "clipboard"
    } else if i == 2 {
        "stop"
    } else if i == 3 {
        "trash"
    } else if i == 4 {
        "settings"
    } else if i == 5 {
        "chevron-left"
    } else if i == 6 {
        "mic"
    } else if i == 7 {
        "play"
    } else if i == 8 {
        "pause"
    } else if i == 9 {
        "skip-back"
    } else if i == 10 {
        "skip-forward"
    } else if i == 11 {
        "rewind"
    } else if i == 12 {
        "fast-forward"
    } else if i == 13 {
        "image"
    } else if i == 14 {
        "volume"
    } else if i == 15 {
        "volume-x"
    } else if i == 16 {
        "refresh"
    } else if i == 17 {
        "scissors"
    } else {
        "list-tree"
    }
}

/// The icon name an asset path asks for: the path without a leading `icons/` and then without
/// a trailing `.svg`; when there is no `.svg` to remove, the whole path as given.
pub open spec fn asset_stem(path: Seq<char>) -> Seq<char> {
    let p = if "icons/"@.is_prefix_of(path) {
        path.skip(6)
    } else {
        path
    };
    if ".svg"@.is_suffix_of(p) {
        p.take(p.len() - 4)
    } else {
        path
    }
}

/// The first icon from `i` on named `stem`.
pub open spec fn icon_index(stem: Seq<char>, i: int) -> Option<int>
    decreases ICON_COUNT - i,
{
    if i < 0 || i >= ICON_COUNT {
        None
    } else if icon_name(i) == stem {
        Some(i)
    } else {
        icon_index(stem, i + 1)
    }
}

/// Distinct icons have distinct names.
proof fn lemma_icon_names_distinct(i: int, j: int)
    requires
        0 <= j < i < ICON_COUNT,
    ensures
        icon_name(j) != icon_name(i),
{
    reveal_strlit("folder");
    reveal_strlit("clipboard");
    reveal_strlit("stop");
    reveal_strlit("trash");
    reveal_strlit("settings");
    reveal_strlit("chevron-left");
    reveal_strlit("mic");
    reveal_strlit("play");
    reveal_strlit("pause");
    reveal_strlit("skip-back");
    reveal_strlit("skip-forward");
    reveal_strlit("rewind");
    reveal_strlit("fast-forward");
    reveal_strlit("image");
    reveal_strlit("volume");
    reveal_strlit("volume-x");
    reveal_strlit("refresh");
    reveal_strlit("scissors");
    reveal_strlit("list-tree");
    if icon_name(j) == icon_name(i) {
        assert(icon_name(j).len() == icon_name(i).len());
        assert(icon_name(j)[0] == icon_name(i)[0]);
        assert(icon_name(j)[1] == icon_name(i)[1]);
        assert(icon_name(j)[2] == icon_name(i)[2]);
    }
}

/// Searching from icon `j` on finds icon `i` by its name, for every `j` up to `i`.
proof fn lemma_icon_found(i: int, j: int)
    requires
        0 <= j <= i < ICON_COUNT,
    ensures
        icon_index(icon_name(i), j) == Some(i),
    decreases i - j,
{
    if j < i {
        lemma_icon_names_distinct(i, j);
        lemma_icon_found(i, j + 1);
    }
}

/// Every path `list` yields loads, as the icon it names: the stem of `icons/<name>.svg` is the
/// name, and the first icon with that name is that icon.
pub proof fn lemma_listed_paths_load(i: int)
    requires
        0 <= i < ICON_COUNT,
    ensures
        icon_index(asset_stem("icons/"@ + icon_name(i) + ".svg"@), 0) == Some(i),
{
    reveal_strlit("icons/");
    reveal_strlit(".svg");
    let n = icon_name(i);
    let path = "icons/"@ + n + ".svg"@;
    assert(path.take(6) =~= "icons/"@);
    assert("icons/"@.is_prefix_of(path));
    let p = path.skip(6);
    assert(p =~= n + ".svg"@);
    assert(p.skip(p.len() - 4) =~= ".svg"@);
    assert(".svg"@.is_suffix_of(p));
    assert(p.take(p.len() - 4) =~= n);
    lemma_icon_found(i, 0);
}

/// The application's bundled icons.
pub struct Assets;

impl Assets {
    /// `load`: which bundled icon an asset path names, if any.
    pub fn load(&self, path: &str) -> (r: Option<usize>)
        ensures
            match r {
                Some(i) => icon_index(asset_stem(path@), 0) == Some(i as int),
                None => icon_index(asset_stem(path@), 0) is None,
            },
    {
        let p = chars_of(path);
        let prefix = chars_of("icons/");
        let suffix = chars_of(".svg");
        proof {
            reveal_strlit("icons/");
            reveal_strlit(".svg");
        }
        let rest = if has_prefix(p.as_slice(), prefix.as_slice()) {
            sub_chars(p.as_slice(), 6, p.len())
        } else {
            sub_chars(p.as_slice(), 0, p.len())
        };
        let stem = if has_suffix(rest.as_slice(), suffix.as_slice()) {
            sub_chars(rest.as_slice(), 0, rest.len() - 4)
        } else {
            sub_chars(p.as_slice(), 0, p.len())
        };
        assert(p@.subrange(0, p@.len() as int) =~= p@);
        assert(stem@ == asset_stem(path@));
        let s = string_of(stem.as_slice());
        let mut i: usize = 0;
        while i < ICON_COUNT
            invariant
                i <= ICON_COUNT,
                s@ == asset_stem(path@),
                icon_index(s@, 0) == icon_index(s@, i as int),
            decreases ICON_COUNT - i,
        {
            if str_eq(icon_name_at(i), s.as_str()) {
                return Some(i);
            }
            i = i + 1;
        }
        None
    }

    /// `list`: the asset path of every bundled icon, `icons/<name>.svg`, in order.
    pub fn list(&self) -> (r: Vec<String>)
        ensures
            r@.len() == ICON_COUNT,
            forall|i: int|
                0 <= i < ICON_COUNT ==> #[trigger] r@[i]@ == "icons/"@ + icon_name(i) + ".svg"@,
    {
        let mut r: Vec<String> = Vec::new();
        let mut i: usize = 0;
        while i < ICON_COUNT
            invariant
                i <= ICON_COUNT,
                r@.len() == i,
                forall|k: int| 0 <= k < i ==> #[trigger] r@[k]@ == "icons/"@ + icon_name(k) + ".svg"@,
            decreases ICON_COUNT - i,
        {
            r.push(join3("icons/", icon_name_at(i), ".svg"));
            i = i + 1;
        }
        r
    }
}

} // verus!
