//! Rules of the companion tools: the command line of the Windows per-process audio helper and
//! the size of its PCM packets, and the byte-level steps of the capture and transcription
//! probes (flag lookup, BGRA to RGBA pixel order, 16-bit little-endian PCM decoding of a clip).

use vstd::prelude::*;
use crate::text::{chars_of, parse_u32, parse_u32_spec, str_eq};

verus! {

// ---------------------------------------------------------------------------------------------
// The audio helper's command line
// ---------------------------------------------------------------------------------------------

/// The audio helper's settings: target process, sample rate, whether the process tree is
/// included.
#[derive(Clone, Copy, PartialEq, Eq, Structural, Debug)]
pub struct HelperArgs {
    pub pid: u32,
    pub rate: u32,
    pub tree: bool,
}

/// The settings after reading arguments `i..` with `acc` so far: `--pid N` and `--rate N` take
/// the next argument (0 and 16000 when it is missing or not a number), `--no-tree` and `--tree`
/// switch the process tree, anything else is skipped.
pub open spec fn helper_args_from(args: Seq<Seq<char>>, i: int, acc: HelperArgs) -> HelperArgs
    decreases args.len() + 1 - i,
{
    if i < 0 || i >= args.len() {
        acc
    } else {
        let a = args[i];
        let next = if i + 1 < args.len() {
            parse_u32_spec(args[i + 1])
        } else {
            None
        };
        if a == "--pid"@ {
            helper_args_from(
                args,
                i + 2,
                HelperArgs {
                    pid: match next {
                        Some(v) => v,
                        None => 0,
                    },
                    ..acc
                },
            )
        } else if a == "--rate"@ {
            helper_args_from(
                args,
                i + 2,
                HelperArgs {
                    rate: match next {
                        Some(v) => v,
                        None => 16000,
                    },
                    ..acc
                },
            )
        } else if a == "--no-tree"@ {
            helper_args_from(args, i + 1, HelperArgs { tree: false, ..acc })
        } else if a == "--tree"@ {
            helper_args_from(args, i + 1, HelperArgs { tree: true, ..acc })
        } else {
            helper_args_from(args, i + 1, acc)
        }
    }
}

/// The defaults: no process, 16 kHz, process tree included.
pub open spec fn helper_defaults() -> HelperArgs {
    HelperArgs { pid: 0, rate: 16000, tree: true }
}

/// The helper's settings from its arguments (program name excluded).
pub fn parse_helper_args(args: &[String]) -> (r: HelperArgs)
    ensures
        r == helper_args_from(args@.map_values(|a: String| a@), 0, helper_defaults()),
{
    let ghost av = args@.map_values(|a: String| a@);
    let mut acc = HelperArgs { pid: 0, rate: 16000, tree: true };
    let n = args.len();
    let mut i: usize = 0;
    while i < n
        invariant
            n == args@.len(),
            av == args@.map_values(|a: String| a@),
            i <= n,
            helper_args_from(av, 0, helper_defaults()) == helper_args_from(av, i as int, acc),
        decreases n - i,
    {
        let a = args[i].as_str();
        let ghost i0 = i as int;
        let ghost acc0 = acc;
        assert(av[i0] == args@[i0]@);
        if i + 1 < n {
            assert(av[i0 + 1] == args@[i0 + 1]@);
        }
        let next: Option<u32> = if i + 1 < n {
            let c = chars_of(args[i + 1].as_str());
            parse_u32(c.as_slice())
        } else {
            None
        };
        assert(next == (if i0 + 1 < av.len() {
            parse_u32_spec(av[i0 + 1])
        } else {
            None
        }));
        if str_eq(a, "--pid") {
            acc = HelperArgs {
                pid: match next {
                    Some(v) => v,
                    None => 0,
                },
                ..acc
            };
            assert(helper_args_from(av, i0, acc0) == helper_args_from(av, i0 + 2, acc));
            i = i + 1;
            if i < n {
                i = i + 1;
            }
        } else if str_eq(a, "--rate") {
            acc = HelperArgs {
                rate: match next {
                    Some(v) => v,
                    None => 16000,
                },
                ..acc
            };
            assert(helper_args_from(av, i0, acc0) == helper_args_from(av, i0 + 2, acc));
            i = i + 1;
            if i < n {
                i = i + 1;
            }
        } else if str_eq(a, "--no-tree") {
            acc = HelperArgs { tree: false, ..acc };
            i = i + 1;
        } else if str_eq(a, "--tree") {
            acc = HelperArgs { tree: true, ..acc };
            i = i + 1;
        } else {
            i = i + 1;
        }
    }
    acc
}

/// The usage line the helper reports when no process is given.
pub fn helper_usage(args: &HelperArgs) -> (r: Option<&'static str>)
    ensures
        r is Some <==> args.pid == 0,
        r matches Some(u) ==> u@ == "usage: audiocap_win --pid <PID> [--rate 16000] [--no-tree]"@,
{
    if args.pid == 0 {
        Some("usage: audiocap_win --pid <PID> [--rate 16000] [--no-tree]")
    } else {
        None
    }
}

/// Bytes in a packet of `frames` mono 16-bit frames (block alignment 2).
pub fn packet_bytes(frames: u32) -> (r: u64)
    ensures
        r == frames as int * 2,
{
    frames as u64 * 2
}

// ---------------------------------------------------------------------------------------------
// Probe tools
// ---------------------------------------------------------------------------------------------

/// The position of the first argument equal to `name`.
pub open spec fn flag_pos(args: Seq<Seq<char>>, name: Seq<char>, i: int) -> Option<int>
    decreases args.len() - i,
{
    if i < 0 || i >= args.len() {
        None
    } else if args[i] == name {
        Some(i)
    } else {
        flag_pos(args, name, i + 1)
    }
}

/// The value of flag `name`: the argument after its first occurrence.
pub open spec fn flag_value(args: Seq<Seq<char>>, name: Seq<char>) -> Option<Seq<char>> {
    match flag_pos(args, name, 0) {
        Some(i) => if i + 1 < args.len() {
            Some(args[i + 1])
        } else {
            None
        },
        None => None,
    }
}

/// `flag`: the argument after the first occurrence of `name`.
pub fn flag<'a>(args: &'a [String], name: &str) -> (r: Option<&'a str>)
    ensures
        match r {
            Some(v) => flag_value(args@.map_values(|a: String| a@), name@) == Some(v@),
            None => flag_value(args@.map_values(|a: String| a@), name@) is None,
        },
{
    let ghost av = args@.map_values(|a: String| a@);
    let n = args.len();
    let mut i: usize = 0;
    while i < n
        invariant
            n == args@.len(),
            av == args@.map_values(|a: String| a@),
            i <= n,
            flag_pos(av, name@, 0) == flag_pos(av, name@, i as int),
        decreases n - i,
    {
        if str_eq(args[i].as_str(), name) {
            if i + 1 < n {
                return Some(args[i + 1].as_str());
            } else {
                return None;
            }
        }
        i = i + 1;
    }
    None
}

/// Which running application a capture probe targets.
#[derive(Clone, PartialEq, Eq, Debug)]
pub enum AppTarget {
    /// The application with this process id.
    Pid(i32),
    /// The application with this bundle identifier.
    Bundle(String),
    /// None was named.
    Unnamed,
}

/// The view of a target: `(pid, bundle)`, at most one of them given.
pub open spec fn target_view(t: AppTarget) -> (Option<i32>, Option<Seq<char>>) {
    match t {
        AppTarget::Pid(p) => (Some(p), None),
        AppTarget::Bundle(b) => (None, Some(b@)),
        AppTarget::Unnamed => (None, None),
    }
}

/// The target the arguments name: `--pid` when its value is an `i32`, else
/// `--bundle`, else none.
pub open spec fn target_named(args: Seq<Seq<char>>) -> (Option<i32>, Option<Seq<char>>) {
    let pid = match flag_value(args, "--pid"@) {
        Some(v) => crate::text::parse_i32_spec(v),
        None => None,
    };
    if pid is Some {
        (pid, None)
    } else {
        match flag_value(args, "--bundle"@) {
            Some(b) => (None, Some(b)),
            None => (None, None),
        }
    }
}

/// The application a probe's arguments target.
pub fn app_target(args: &[String]) -> (r: AppTarget)
    ensures
        target_view(r) == target_named(args@.map_values(|a: String| a@)),
{
    if let Some(v) = flag(args, "--pid") {
        let c = chars_of(v);
        if let Some(p) = crate::text::parse_i32(c.as_slice()) {
            return AppTarget::Pid(p);
        }
    }
    match flag(args, "--bundle") {
        Some(b) => AppTarget::Bundle(crate::text::owned(b)),
        None => AppTarget::Unnamed,
    }
}

/// BGRA pixels turned into RGBA: in every complete 4-byte pixel the first and third bytes
/// change places; a trailing partial pixel is left as it is.
pub open spec fn rgba_of(b: Seq<u8>) -> Seq<u8> {
    Seq::new(
        b.len(),
        |i: int|
            if i < b.len() - b.len() % 4 && i % 4 == 0 {
                b[i + 2]
            } else if i < b.len() - b.len() % 4 && i % 4 == 2 {
                b[i - 2]
            } else {
                b[i]
            },
    )
}

/// Reorders BGRA pixel bytes into RGBA in place.
pub fn bgra_to_rgba(px: &mut Vec<u8>)
    ensures
        final(px)@ == rgba_of(old(px)@),
{
    let ghost orig = px@;
    let n = px.len();
    let full = n - n % 4;
    let mut i: usize = 0;
    while i < full
        invariant
            n == px@.len(),
            n == orig.len(),
            full == n - n % 4,
            i <= full,
            i % 4 == 0,
            forall|k: int| 0 <= k < i ==> #[trigger] px@[k] == rgba_of(orig)[k],
            forall|k: int| i <= k < n ==> #[trigger] px@[k] == orig[k],
        decreases full - i,
    {
        let a = px[i];
        let c = px[i + 2];
        px.set(i, c);
        px.set(i + 2, a);
        assert forall|k: int| 0 <= k < i + 4 implies #[trigger] px@[k] == rgba_of(orig)[k] by {
            if k >= i {
                assert(k - i < 4);
            }
        }
        i = i + 4;
    }
    assert(px@ =~= rgba_of(orig));
}

/// Reordering twice gives the pixels back: the swap of the first and third bytes undoes itself.
pub proof fn lemma_rgba_twice(b: Seq<u8>)
    ensures
        rgba_of(rgba_of(b)) == b,
{
    let once = rgba_of(b);
    assert forall|i: int| 0 <= i < b.len() implies #[trigger] rgba_of(once)[i] == b[i] by {
        let full = b.len() - b.len() % 4;
        if i < full && i % 4 == 0 {
            assert(once[i + 2] == b[i]);
        } else if i < full && i % 4 == 2 {
            assert(once[i - 2] == b[i]);
        }
    }
    assert(rgba_of(once) =~= b);
}

/// The signed 16-bit little-endian sample at byte `2 * i`.
pub open spec fn s16le_at(b: Seq<u8>, i: int) -> i16 {
    let u = b[2 * i] as int + 256 * (b[2 * i + 1] as int);
    (if u >= 32768 {
        u - 65536
    } else {
        u
    }) as i16
}

/// The complete samples of 16-bit little-endian PCM bytes (a trailing odd byte is dropped).
pub open spec fn s16le_samples(b: Seq<u8>) -> Seq<i16> {
    Seq::new(b.len() / 2, |i: int| s16le_at(b, i))
}

/// Decodes 16-bit little-endian PCM.
pub fn decode_s16le(b: &[u8]) -> (r: Vec<i16>)
    ensures
        r@ == s16le_samples(b@),
{
    let n = b.len() / 2;
    let mut r: Vec<i16> = Vec::new();
    let mut i: usize = 0;
    while i < n
        invariant
            n == b@.len() / 2,
            i <= n,
            r@ =~= s16le_samples(b@).take(i as int),
        decreases n - i,
    {
        assert(i + i + 1 < b.len()) by (nonlinear_arith)
            requires
                i < n,
                n == b@.len() / 2,
                b.len() == b@.len(),
        ;
        let lo = b[i + i] as u32;
        let hi = b[i + i + 1] as u32;
        let u = lo + 256 * hi;
        let v: i16 = if u >= 32768 {
            (u as i32 - 65536) as i16
        } else {
            u as i16
        };
        r.push(v);
        i = i + 1;
    }
    r
}

/// The byte range the transcription probe reads: after skipping `skip` bytes, up to `need`
/// bytes (fewer at the end of the file).
pub open spec fn clip_range(len: int, skip: int, need: int) -> (int, int) {
    (skip, if skip + need < len {
        skip + need
    } else {
        len
    })
}

/// The samples of the probe's clip: 60 s of 16 kHz mono after the first 2 s (fewer when the
/// recording is shorter). The recording must be at least 2 s long.
pub fn speech_clip(b: &[u8]) -> (r: Vec<i16>)
    requires
        b@.len() >= 64_000,
    ensures
        r@ == s16le_samples(
            b@.subrange(
                clip_range(b@.len() as int, 64_000, 1_920_000).0,
                clip_range(b@.len() as int, 64_000, 1_920_000).1,
            ),
        ),
{
    let skip: usize = 2 * 16_000 * 2;
    let need: usize = 16_000 * 60 * 2;
    let end = if b.len() - skip > need {
        skip + need
    } else {
        b.len()
    };
    let mut clip: Vec<u8> = Vec::new();
    let mut i: usize = skip;
    while i < end
        invariant
            skip <= i <= end <= b@.len(),
            clip@ =~= b@.subrange(skip as int, i as int),
        decreases end - i,
    {
        clip.push(b[i]);
        i = i + 1;
    }
    decode_s16le(clip.as_slice())
}

} // verus!
