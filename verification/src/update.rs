//! In-app update check: the decision whether the latest release on the release page is newer
//! than the running build, and which `.dmg` asset to offer. Fetching the release and
//! installing it are done by the application around this module.

use vstd::prelude::*;
use crate::text::{
    chars_of, has_suffix, parse_u32, parse_u32_spec, string_of, trim, trim_chars,
};

verus! {

/// A newer release than the running build.
pub struct UpdateInfo {
    /// The release's version, e.g. `0.3.0` (its tag without leading `v`s).
    pub version: String,
    /// The download URL of its `.dmg` asset.
    pub dmg_url: String,
}

/// One asset of a release: its `name` and `browser_download_url` where they are strings.
pub struct ReleaseAsset {
    pub name: Option<String>,
    pub url: Option<String>,
}

/// The latest release as the release API describes it: its `tag_name` where it is a string,
/// and its `assets` where they form an array.
pub struct Release {
    pub tag_name: Option<String>,
    pub assets: Option<Vec<ReleaseAsset>>,
}

/// `s` without its leading `v`s (`trim_start_matches('v')`).
pub open spec fn strip_vs(s: Seq<char>) -> Seq<char>
    decreases s.len(),
{
    if s.len() > 0 && s[0] == 'v' {
        strip_vs(s.drop_first())
    } else {
        s
    }
}

/// The separators of a version string.
pub open spec fn is_version_sep(c: char) -> bool {
    c == '.' || c == '-' || c == '+'
}

/// The pieces between separators (`str::split`): one more piece than there are separators.
pub open spec fn split_fields(s: Seq<char>) -> Seq<Seq<char>>
    decreases s.len(),
{
    if s.len() == 0 {
        seq![Seq::<char>::empty()]
    } else {
        let r = split_fields(s.drop_last());
        if is_version_sep(s.last()) {
            r.push(Seq::<char>::empty())
        } else {
            r.update(r.len() - 1, r.last().push(s.last()))
        }
    }
}

/// `split_fields` always yields at least one piece.
pub proof fn lemma_split_fields_nonempty(s: Seq<char>)
    ensures
        split_fields(s).len() >= 1,
    decreases s.len(),
{
    if s.len() > 0 {
        lemma_split_fields_nonempty(s.drop_last());
    }
}

/// The `i`-th piece of a version, or `0` when there are fewer pieces.
pub open spec fn version_part(f: Seq<Seq<char>>, i: int) -> Seq<char> {
    if i < f.len() {
        f[i]
    } else {
        seq!['0']
    }
}

/// `major.minor.patch` of a version string: surrounding whitespace and leading `v`s are
/// dropped, pieces are split at `.`, `-` and `+`, and missing minor/patch pieces count as 0.
pub open spec fn semver(s: Seq<char>) -> Option<(u32, u32, u32)> {
    let f = split_fields(strip_vs(trim(s)));
    match (
        parse_u32_spec(f[0]),
        parse_u32_spec(version_part(f, 1)),
        parse_u32_spec(version_part(f, 2)),
    ) {
        (Some(a), Some(b), Some(c)) => Some((a, b, c)),
        _ => None,
    }
}

/// Whether version `a` is strictly newer than `b` (lexicographic on the three parts).
pub open spec fn newer(a: (u32, u32, u32), b: (u32, u32, u32)) -> bool {
    a.0 > b.0 || (a.0 == b.0 && (a.1 > b.1 || (a.1 == b.1 && a.2 > b.2)))
}

/// The pieces of a character slice split at version separators.
fn split_version(s: &[char]) -> (r: Vec<Vec<char>>)
    ensures
        r@.len() == split_fields(s@).len(),
        forall|i: int| 0 <= i < r@.len() ==> #[trigger] r@[i]@ == split_fields(s@)[i],
{
    let mut r: Vec<Vec<char>> = Vec::new();
    r.push(Vec::new());
    let n = s.len();
    let mut i: usize = 0;
    assert(s@.take(0) =~= Seq::<char>::empty());
    while i < n
        invariant
            n == s@.len(),
            i <= n,
            r@.len() == split_fields(s@.take(i as int)).len(),
            r@.len() >= 1,
            forall|k: int| 0 <= k < r@.len() ==> #[trigger] r@[k]@ == split_fields(s@.take(i as int))[k],
        decreases n - i,
    {
        let c = s[i];
        let ghost t = s@.take(i + 1);
        assert(t.drop_last() =~= s@.take(i as int));
        assert(t.last() == c);
        if c == '.' || c == '-' || c == '+' {
            r.push(Vec::new());
            assert(r@.last()@ =~= Seq::<char>::empty());
        } else {
            let last = r.len() - 1;
            let mut piece = r.remove(last);
            piece.push(c);
            r.push(piece);
        }
        i = i + 1;
    }
    assert(s@.take(n as int) =~= s@);
    r
}

/// `parse_semver`: `major.minor.patch` of a version string, or `None` when a part is not a
/// `u32`.
pub fn parse_semver(s: &str) -> (r: Option<(u32, u32, u32)>)
    ensures
        r == semver(s@),
{
    let cs = chars_of(s);
    let t = trim_chars(cs.as_slice());
    let n = t.len();
    let mut k: usize = 0;
    assert(t@.subrange(0, n as int) =~= t@);
    while k < n && t[k] == 'v'
        invariant
            n == t@.len(),
            k <= n,
            strip_vs(t@) == strip_vs(t@.subrange(k as int, n as int)),
        decreases n - k,
    {
        assert(t@.subrange(k as int, n as int).drop_first() =~= t@.subrange(k + 1, n as int));
        k = k + 1;
    }
    let mut body: Vec<char> = Vec::new();
    let mut j: usize = k;
    while j < n
        invariant
            n == t@.len(),
            k <= j <= n,
            body@ == t@.subrange(k as int, j as int),
        decreases n - j,
    {
        body.push(t[j]);
        assert(t@.subrange(k as int, j as int).push(t@[j as int]) =~= t@.subrange(
            k as int,
            j + 1,
        ));
        j = j + 1;
    }
    assert(strip_vs(body@) == body@);
    let f = split_version(body.as_slice());
    proof {
        lemma_split_fields_nonempty(body@);
    }
    let major = match parse_u32(f[0].as_slice()) {
        Some(v) => v,
        None => return None,
    };
    let ghost fs = split_fields(body@);
    assert(body@ == strip_vs(trim(s@)));
    let zero = vec!['0'];
    assert(zero@ =~= seq!['0']);
    let minor_src: &[char] = if f.len() > 1 {
        f[1].as_slice()
    } else {
        zero.as_slice()
    };
    assert(minor_src@ == version_part(fs, 1));
    let minor = match parse_u32(minor_src) {
        Some(v) => v,
        None => return None,
    };
    let patch_src: &[char] = if f.len() > 2 {
        f[2].as_slice()
    } else {
        zero.as_slice()
    };
    assert(patch_src@ == version_part(fs, 2));
    let patch = match parse_u32(patch_src) {
        Some(v) => v,
        None => return None,
    };
    Some((major, minor, patch))
}

/// Whether version `a` is strictly newer than `b`.
pub fn is_newer(a: (u32, u32, u32), b: (u32, u32, u32)) -> (r: bool)
    ensures
        r == newer(a, b),
{
    a.0 > b.0 || (a.0 == b.0 && (a.1 > b.1 || (a.1 == b.1 && a.2 > b.2)))
}

/// The mathematical content of an asset.
pub open spec fn asset_view(a: ReleaseAsset) -> (Option<Seq<char>>, Option<Seq<char>>) {
    (a.name.deep_view(), a.url.deep_view())
}

/// The download URL of the first asset whose name ends in `.dmg` and that has a URL.
pub open spec fn first_dmg(assets: Seq<(Option<Seq<char>>, Option<Seq<char>>)>) -> Option<
    Seq<char>,
>
    decreases assets.len(),
{
    if assets.len() == 0 {
        None
    } else {
        let a = assets[0];
        if a.0 is Some && ".dmg"@.is_suffix_of(a.0->0) && a.1 is Some {
            a.1
        } else {
            first_dmg(assets.drop_first())
        }
    }
}

/// What the update check offers for a release: `Some((version, dmg_url))` when the release's
/// tag is a newer version than `current` and it has a `.dmg` asset.
pub open spec fn offered_update(
    current: Seq<char>,
    tag: Option<Seq<char>>,
    assets: Option<Seq<(Option<Seq<char>>, Option<Seq<char>>)>>,
) -> Option<(Seq<char>, Seq<char>)> {
    match tag {
        None => None,
        Some(t) => match (semver(current), semver(t)) {
            (Some(cur), Some(latest)) => if !newer(latest, cur) {
                None
            } else {
                match assets {
                    None => None,
                    Some(a) => match first_dmg(a) {
                        Some(url) => Some((strip_vs(t), url)),
                        None => None,
                    },
                }
            },
            _ => None,
        },
    }
}

/// The view of an update offer.
pub open spec fn info_view(r: Option<UpdateInfo>) -> Option<(Seq<char>, Seq<char>)> {
    match r {
        Some(i) => Some((i.version@, i.dmg_url@)),
        None => None,
    }
}

/// The first `.dmg` asset's URL.
fn find_dmg(assets: &Vec<ReleaseAsset>) -> (r: Option<String>)
    ensures
        r.deep_view() == first_dmg(assets@.map_values(|a: ReleaseAsset| asset_view(a))),
{
    let ghost all = assets@.map_values(|a: ReleaseAsset| asset_view(a));
    let suffix = chars_of(".dmg");
    let n = assets.len();
    let mut i: usize = 0;
    assert(all.subrange(0, n as int) =~= all);
    while i < n
        invariant
            n == assets@.len(),
            i <= n,
            all == assets@.map_values(|a: ReleaseAsset| asset_view(a)),
            suffix@ == ".dmg"@,
            first_dmg(all) == first_dmg(all.subrange(i as int, n as int)),
        decreases n - i,
    {
        let a = &assets[i];
        let ghost rest = all.subrange(i as int, n as int);
        assert(rest[0] == asset_view(*a));
        assert(rest.drop_first() =~= all.subrange(i + 1, n as int));
        if let (Some(name), Some(url)) = (&a.name, &a.url) {
            let nm = chars_of(name.as_str());
            if has_suffix(nm.as_slice(), suffix.as_slice()) {
                return Some(url.clone());
            }
        }
        i = i + 1;
    }
    assert(all.subrange(n as int, n as int).len() == 0);
    None
}

/// `check` (the decision part): given the running build's version and the latest release,
/// the update to offer, if any.
pub fn check_release(current: &str, release: &Release) -> (r: Option<UpdateInfo>)
    ensures
        info_view(r) == offered_update(
            current@,
            release.tag_name.deep_view(),
            match release.assets {
                Some(a) => Some(a@.map_values(|x: ReleaseAsset| asset_view(x))),
                None => None,
            },
        ),
{
    let tag = match &release.tag_name {
        Some(t) => t,
        None => return None,
    };
    let cur = match parse_semver(current) {
        Some(v) => v,
        None => return None,
    };
    let latest = match parse_semver(tag.as_str()) {
        Some(v) => v,
        None => return None,
    };
    if !is_newer(latest, cur) {
        return None;
    }
    let assets = match &release.assets {
        Some(a) => a,
        None => return None,
    };
    let url = match find_dmg(assets) {
        Some(u) => u,
        None => return None,
    };
    let version = strip_leading_vs(tag.as_str());
    Some(UpdateInfo { version, dmg_url: url })
}

/// `trim_start_matches('v')`.
fn strip_leading_vs(s: &str) -> (r: String)
    ensures
        r@ == strip_vs(s@),
{
    let cs = chars_of(s);
    let n = cs.len();
    let mut k: usize = 0;
    assert(cs@.subrange(0, n as int) =~= cs@);
    while k < n && cs[k] == 'v'
        invariant
            n == cs@.len(),
            k <= n,
            strip_vs(cs@) == strip_vs(cs@.subrange(k as int, n as int)),
        decreases n - k,
    {
        assert(cs@.subrange(k as int, n as int).drop_first() =~= cs@.subrange(k + 1, n as int));
        k = k + 1;
    }
    let mut out: Vec<char> = Vec::new();
    let mut j: usize = k;
    while j < n
        invariant
            n == cs@.len(),
            k <= j <= n,
            out@ == cs@.subrange(k as int, j as int),
        decreases n - j,
    {
        out.push(cs[j]);
        assert(cs@.subrange(k as int, j as int).push(cs@[j as int]) =~= cs@.subrange(
            k as int,
            j + 1,
        ));
        j = j + 1;
    }
    string_of(out.as_slice())
}

/// An update is only ever offered for a release whose version is strictly newer than the
/// running build's, and its version carries no leading `v`.
pub proof fn lemma_offer_is_newer(
    current: Seq<char>,
    tag: Option<Seq<char>>,
    assets: Option<Seq<(Option<Seq<char>>, Option<Seq<char>>)>>,
)
    ensures
        offered_update(current, tag, assets) matches Some(o) ==> {
            &&& tag is Some
            &&& semver(current) is Some
            &&& semver(tag->0) is Some
            &&& newer(semver(tag->0)->0, semver(current)->0)
            &&& o.0 == strip_vs(tag->0)
            &&& (o.0.len() > 0 ==> o.0[0] != 'v')
        },
{
    if let Some(t) = tag {
        lemma_strip_vs_no_leading_v(t);
    }
}

/// `strip_vs` leaves no leading `v`.
pub proof fn lemma_strip_vs_no_leading_v(s: Seq<char>)
    ensures
        strip_vs(s).len() > 0 ==> strip_vs(s)[0] != 'v',
    decreases s.len(),
{
    if s.len() > 0 && s[0] == 'v' {
        lemma_strip_vs_no_leading_v(s.drop_first());
    }
}

/// Newer-than is a strict order: never reflexive, never both ways, and transitive.
pub proof fn lemma_newer_is_strict_order(a: (u32, u32, u32), b: (u32, u32, u32), c: (u32, u32, u32))
    ensures
        !newer(a, a),
        newer(a, b) ==> !newer(b, a),
        newer(a, b) && newer(b, c) ==> newer(a, c),
        a != b ==> newer(a, b) || newer(b, a),
{
}

} // verus!
