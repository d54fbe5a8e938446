//! ISO-8601 timestamps as the capture artifacts write them: transcript stamps
//! (`2026-06-16T11:00:34.937Z`) and screenshot file stems (`2026-06-16T11-00-34.937Z`).
//! Fields are read at fixed byte positions, whatever the separators are, and the civil date
//! is turned into a day count since 1970-01-01 (proleptic Gregorian calendar).

use vstd::prelude::*;
use crate::text::{parse_signed, parse_small_signed};
use vstd::string::StringSliceAdditionalSpecFns;
use vstd::arithmetic::div_mod::{
    lemma_fundamental_div_mod, lemma_fundamental_div_mod_converse, lemma_mod_bound,
};

verus! {

/// A parsed stamp: whole days since 1970-01-01 plus the time of day as read.
#[derive(Clone, Copy, PartialEq, Eq, Structural, Debug)]
pub struct EpochStamp {
    pub days: i64,
    pub hour: i64,
    pub minute: i64,
    pub second: i64,
    pub millis: i64,
}

/// Bytes read as characters (each byte its own code point; bytes above 0x7F are then never
/// digits or signs).
pub open spec fn bytes_chars(b: Seq<u8>) -> Seq<char> {
    b.map_values(|x: u8| x as char)
}

/// The integer written in bytes `a..z` of `b`, as `str::parse::<i64>` reads it.
pub open spec fn field(b: Seq<u8>, a: int, z: int) -> Option<int> {
    parse_signed(bytes_chars(b.subrange(a, z)))
}

/// Days since 1970-01-01 of the civil date `y-m-d` (H. Hinnant's `days_from_civil`, with
/// floor division for the era).
pub open spec fn days_from_civil(y: int, m: int, d: int) -> int {
    let y2 = if m <= 2 {
        y - 1
    } else {
        y
    };
    let era = y2 / 400;
    let yoe = y2 - era * 400;
    let mp = if m > 2 {
        m - 3
    } else {
        m + 9
    };
    let doy = (153 * mp + 2) / 5 + d - 1;
    let doe = yoe * 365 + yoe / 4 - yoe / 100 + doy;
    era * 146097 + doe - 719468
}

/// The milliseconds of a stamp: three digits after a `.` at byte 19, else 0.
pub open spec fn millis_part(b: Seq<u8>) -> int {
    if b.len() >= 23 && b[19] == 46u8 {
        match field(b, 20, 23) {
            Some(v) => v,
            None => 0,
        }
    } else {
        0
    }
}

/// What a stamp's bytes parse to: `(days, hour, minute, second, millis)`, or `None` when it is
/// shorter than 19 bytes or a date/time field is not an integer.
pub open spec fn parse_iso(b: Seq<u8>) -> Option<(int, int, int, int, int)> {
    if b.len() < 19 {
        None
    } else {
        match (
            field(b, 0, 4),
            field(b, 5, 7),
            field(b, 8, 10),
            field(b, 11, 13),
            field(b, 14, 16),
            field(b, 17, 19),
        ) {
            (Some(y), Some(mo), Some(d), Some(h), Some(mi), Some(se)) => Some(
                (days_from_civil(y, mo, d), h, mi, se, millis_part(b)),
            ),
            _ => None,
        }
    }
}

/// Milliseconds since the epoch of the ISO-8601 stamp written by `s`, if it parses.
pub open spec fn stamp_ms(s: Seq<char>) -> Option<int> {
    match parse_iso(vstd::utf8::encode_utf8(s)) {
        Some(t) => Some(stamp_millis(t)),
        None => None,
    }
}

/// Milliseconds since the epoch of a parsed stamp.
pub open spec fn stamp_millis(t: (int, int, int, int, int)) -> int {
    t.0 * 86_400_000 + t.1 * 3_600_000 + t.2 * 60_000 + t.3 * 1000 + t.4
}

/// Reads the integer in bytes `a..z` of `b` (at most four bytes).
fn read_field(b: &[u8], a: usize, z: usize) -> (r: Option<i64>)
    requires
        a <= z <= b@.len(),
        z - a <= 4,
    ensures
        match field(b@, a as int, z as int) {
            Some(v) => r == Some(v as i64),
            None => r is None,
        },
{
    let mut cs: Vec<char> = Vec::new();
    let mut i: usize = a;
    while i < z
        invariant
            a <= i <= z <= b@.len(),
            cs@ == bytes_chars(b@.subrange(a as int, i as int)),
        decreases z - i,
    {
        cs.push(b[i] as char);
        assert(bytes_chars(b@.subrange(a as int, i + 1)) =~= bytes_chars(
            b@.subrange(a as int, i as int),
        ).push(b@[i as int] as char));
        i = i + 1;
    }
    parse_small_signed(cs.as_slice())
}

/// A field of up to four characters lies between -999 and 9999.
proof fn lemma_field_range(b: Seq<u8>, a: int, z: int)
    requires
        0 <= a <= z <= b.len(),
        z - a <= 4,
    ensures
        field(b, a, z) matches Some(v) ==> -999 <= v <= 9999,
        z - a <= 2 ==> (field(b, a, z) matches Some(v) ==> -9 <= v <= 99),
{
    let s = bytes_chars(b.subrange(a, z));
    if s.len() > 0 && (s[0] == '+' || s[0] == '-') {
        let d = s.drop_first();
        if d.len() > 0 && crate::text::all_digits(d) {
            crate::text::lemma_digits_value_bound(d);
        }
    } else if s.len() > 0 && crate::text::all_digits(s) {
        crate::text::lemma_digits_value_bound(s);
    }
}

/// Days since 1970-01-01 of `y-m-d`, computed as `days_from_civil` does (with Rust's
/// truncating division and the `-399` adjustment that turns it into floor division).
fn civil_days(y: i64, m: i64, d: i64) -> (r: i64)
    requires
        -999 <= y <= 9999,
        -9 <= m <= 99,
        -9 <= d <= 99,
    ensures
        r == days_from_civil(y as int, m as int, d as int),
        -2_000_000 <= r <= 4_000_000,
{
    let y2: i64 = if m <= 2 {
        y - 1
    } else {
        y
    };
    let era: i64 = (if y2 >= 0 {
        y2
    } else {
        y2 - 399
    }) / 400;
    assert(era == y2 / 400) by {
        if y2 < 0 {
            assert(-1000 <= y2 < 0);
        }
    }
    let yoe: i64 = y2 - era * 400;
    let mp: i64 = if m > 2 {
        m - 3
    } else {
        m + 9
    };
    let doy: i64 = (153 * mp + 2) / 5 + d - 1;
    let doe: i64 = yoe * 365 + yoe / 4 - yoe / 100 + doy;
    era * 146097 + doe - 719468
}

/// `parse_iso_epoch`: the fields of an ISO-8601 stamp, read at fixed byte positions.
pub fn parse_iso_epoch(s: &str) -> (r: Option<EpochStamp>)
    ensures
        match parse_iso(s.spec_bytes()) {
            Some(t) => r matches Some(st) && st.in_range() && st.fields() == t,
            None => r is None,
        },
{
    let b = s.as_bytes();
    let ghost bs = b@;
    if b.len() < 19 {
        return None;
    }
    proof {
        lemma_field_range(bs, 0, 4);
        lemma_field_range(bs, 5, 7);
        lemma_field_range(bs, 8, 10);
        lemma_field_range(bs, 11, 13);
        lemma_field_range(bs, 14, 16);
        lemma_field_range(bs, 17, 19);
    }
    let y = match read_field(b, 0, 4) {
        Some(v) => v,
        None => return None,
    };
    let mo = match read_field(b, 5, 7) {
        Some(v) => v,
        None => return None,
    };
    let d = match read_field(b, 8, 10) {
        Some(v) => v,
        None => return None,
    };
    let h = match read_field(b, 11, 13) {
        Some(v) => v,
        None => return None,
    };
    let mi = match read_field(b, 14, 16) {
        Some(v) => v,
        None => return None,
    };
    let se = match read_field(b, 17, 19) {
        Some(v) => v,
        None => return None,
    };
    let ms: i64 = if b.len() >= 23 && b[19] == 46u8 {
        match read_field(b, 20, 23) {
            Some(v) => v,
            None => 0,
        }
    } else {
        0
    };
    proof {
        if bs.len() >= 23 && bs[19] == 46u8 {
            lemma_field_range(bs, 20, 23);
        }
    }
    let days = civil_days(y, mo, d);
    Some(EpochStamp { days, hour: h, minute: mi, second: se, millis: ms })
}

impl EpochStamp {
    /// The stamp's fields as integers: `(days, hour, minute, second, millis)`.
    pub open spec fn fields(&self) -> (int, int, int, int, int) {
        (self.days as int, self.hour as int, self.minute as int, self.second as int, self.millis as int)
    }

    /// The field ranges of every stamp `parse_iso_epoch` returns.
    pub open spec fn in_range(&self) -> bool {
        &&& -2_000_000 <= self.days <= 4_000_000
        &&& -9 <= self.hour <= 99
        &&& -9 <= self.minute <= 99
        &&& -9 <= self.second <= 99
        &&& -999 <= self.millis <= 9999
    }

    /// Milliseconds since 1970-01-01T00:00:00.000.
    pub fn epoch_millis(&self) -> (r: i64)
        requires
            self.in_range(),
        ensures
            r == stamp_millis(self.fields()),
            r == self.days * 86_400_000 + self.hour * 3_600_000 + self.minute * 60_000 + self.second
                * 1000 + self.millis,
    {
        self.days * 86_400_000 + self.hour * 3_600_000 + self.minute * 60_000 + self.second
            * 1000 + self.millis
    }
}

// ---------------------------------------------------------------------------------------------
// The calendar the day count follows
// ---------------------------------------------------------------------------------------------

/// Gregorian leap years.
pub open spec fn is_leap(y: int) -> bool {
    y % 4 == 0 && (y % 100 != 0 || y % 400 == 0)
}

/// The length of month `m` (1..12) of year `y`.
pub open spec fn month_len(y: int, m: int) -> int {
    if m == 2 {
        if is_leap(y) {
            29
        } else {
            28
        }
    } else if m == 4 || m == 6 || m == 9 || m == 11 {
        30
    } else {
        31
    }
}

/// The days of year `y` before the first of month `m`.
pub open spec fn days_before_month(y: int, m: int) -> int
    decreases m,
{
    if m <= 1 {
        0
    } else {
        days_before_month(y, m - 1) + month_len(y, m - 1)
    }
}

/// The number of leap years before year `y`, counted from year 0 (negative before it), so
/// that each year adds one exactly when it is a leap year.
pub open spec fn leaps_before(y: int) -> int {
    (y + 3) / 4 - (y + 99) / 100 + (y + 399) / 400
}

/// Days from 1970-01-01 to `y-m-d`, counted year by year and month by month.
pub open spec fn calendar_days(y: int, m: int, d: int) -> int {
    365 * (y - 1970) + leaps_before(y) - leaps_before(1970) + days_before_month(y, m) + d - 1
}

/// Floor division by a positive constant steps by one exactly at its multiples.
proof fn lemma_floor_step(x: int, k: int)
    requires
        k > 0,
    ensures
        (x + 1) / k == x / k + if (x + 1) % k == 0 {
            1int
        } else {
            0int
        },
{
    lemma_fundamental_div_mod(x, k);
    lemma_mod_bound(x, k);
    let q = x / k;
    let r = x % k;
    assert(x + 1 == q * k + r + 1) by (nonlinear_arith)
        requires
            x == k * q + r,
    ;
    assert((q + 1) * k == q * k + k) by (nonlinear_arith);
    if r + 1 == k {
        lemma_fundamental_div_mod_converse(x + 1, k, q + 1, 0);
    } else {
        lemma_fundamental_div_mod_converse(x + 1, k, q, r + 1);
    }
}

/// `y` is a multiple of `k` exactly when `y + k` is.
proof fn lemma_mod_shift(y: int, k: int)
    requires
        k > 0,
    ensures
        ((y + k) % k == 0) == (y % k == 0),
{
    lemma_fundamental_div_mod(y, k);
    lemma_mod_bound(y, k);
    assert(y + k == (y / k + 1) * k + y % k) by (nonlinear_arith)
        requires
            y == k * (y / k) + y % k,
    ;
    lemma_fundamental_div_mod_converse(y + k, k, y / k + 1, y % k);
}

/// Multiples of 400 are multiples of 100, and multiples of 100 are multiples of 4.
proof fn lemma_multiples(y: int)
    ensures
        y % 400 == 0 ==> y % 100 == 0,
        y % 100 == 0 ==> y % 4 == 0,
{
    lemma_fundamental_div_mod(y, 400);
    lemma_fundamental_div_mod(y, 100);
    if y % 400 == 0 {
        lemma_fundamental_div_mod_converse(y, 100, (y / 400) * 4, 0);
    }
    if y % 100 == 0 {
        lemma_fundamental_div_mod_converse(y, 4, (y / 100) * 25, 0);
    }
}

/// Each year adds one to the leap count exactly when it is a leap year.
pub proof fn lemma_leaps_step(y: int)
    ensures
        leaps_before(y + 1) == leaps_before(y) + if is_leap(y) {
            1int
        } else {
            0int
        },
{
    lemma_floor_step(y + 3, 4);
    lemma_floor_step(y + 99, 100);
    lemma_floor_step(y + 399, 400);
    lemma_mod_shift(y, 4);
    lemma_mod_shift(y, 100);
    lemma_mod_shift(y, 400);
    lemma_multiples(y);
}

/// `(q * k + r) / k == q + r / k` for `0 <= r`.
proof fn lemma_div_shift(q: int, k: int, r: int)
    requires
        k > 0,
        r >= 0,
    ensures
        (q * k + r) / k == q + r / k,
{
    lemma_fundamental_div_mod(r, k);
    lemma_mod_bound(r, k);
    assert(q * k + r == (q + r / k) * k + r % k) by (nonlinear_arith)
        requires
            r == k * (r / k) + r % k,
    ;
    lemma_fundamental_div_mod_converse(q * k + r, k, q + r / k, r % k);
}

/// Splitting a year into 400-year eras keeps the day count of the years before it.
proof fn lemma_era_split(y2: int)
    ensures
        ({
            let era = y2 / 400;
            let yoe = y2 - era * 400;
            &&& 0 <= yoe < 400
            &&& era * 146097 + yoe * 365 + yoe / 4 - yoe / 100 == 365 * y2 + leaps_before(y2 + 1)
                - 1
        }),
{
    let era = y2 / 400;
    let yoe = y2 - era * 400;
    lemma_fundamental_div_mod(y2, 400);
    lemma_mod_bound(y2, 400);
    assert(0 <= yoe < 400);
    lemma_div_shift(era * 100 + 1, 4, yoe);
    lemma_div_shift(era * 4 + 1, 100, yoe);
    lemma_div_shift(era + 1, 400, yoe);
    assert((era * 100 + 1) * 4 + yoe == y2 + 4);
    assert((era * 4 + 1) * 100 + yoe == y2 + 100);
    assert((era + 1) * 400 + yoe == y2 + 400);
    assert(yoe / 400 == 0);
}

/// The days before each month of a year, from March on, as `(153 * (m - 3) + 2) / 5` counts
/// them after the end of February.
proof fn lemma_month_offsets(y: int, m: int)
    requires
        1 <= m <= 12,
    ensures
        m > 2 ==> days_before_month(y, m) == days_before_month(y, 3) + (153 * (m - 3) + 2) / 5,
        days_before_month(y, 3) == 59 + if is_leap(y) {
            1int
        } else {
            0int
        },
        m == 1 ==> days_before_month(y, m) == 0,
        m == 2 ==> days_before_month(y, m) == 31,
{
    reveal_with_fuel(days_before_month, 13);
}

/// The day count follows the calendar: for every year and every month 1..12 it counts the
/// days from 1970-01-01 year by year and month by month (and 1970-01-01 is day 0).
pub proof fn lemma_days_from_civil_is_calendar(y: int, m: int, d: int)
    requires
        1 <= m <= 12,
    ensures
        days_from_civil(y, m, d) == calendar_days(y, m, d),
        days_from_civil(1970, 1, 1) == 0,
{
    lemma_month_offsets(y, m);
    if m > 2 {
        lemma_era_split(y);
        lemma_leaps_step(y);
    } else {
        lemma_era_split(y - 1);
        lemma_leaps_step(y - 1);
    }
    assert(leaps_before(1970) == 478);
    lemma_era_split(1969);
}

/// The calendar day after `y-m-d`.
pub open spec fn next_day(y: int, m: int, d: int) -> (int, int, int) {
    if d < month_len(y, m) {
        (y, m, d + 1)
    } else if m < 12 {
        (y, m + 1, 1)
    } else {
        (y + 1, 1, 1)
    }
}

/// The next calendar day is one day later: across a month's end (February's in leap and other
/// years alike) and a year's end too. So two stamps of the same time of day, one day apart,
/// are 86 400 000 ms apart.
pub proof fn lemma_next_day(y: int, m: int, d: int, h: int, mi: int, se: int, ms: int)
    requires
        1 <= m <= 12,
        1 <= d <= month_len(y, m),
    ensures
        days_from_civil(next_day(y, m, d).0, next_day(y, m, d).1, next_day(y, m, d).2)
            == days_from_civil(y, m, d) + 1,
        stamp_millis(
            (
                days_from_civil(next_day(y, m, d).0, next_day(y, m, d).1, next_day(y, m, d).2),
                h,
                mi,
                se,
                ms,
            ),
        ) == stamp_millis((days_from_civil(y, m, d), h, mi, se, ms)) + 86_400_000,
{
    let n = next_day(y, m, d);
    lemma_days_from_civil_is_calendar(y, m, d);
    lemma_days_from_civil_is_calendar(n.0, n.1, n.2);
    if d < month_len(y, m) {
    } else if m < 12 {
        assert(days_before_month(y, m + 1) == days_before_month(y, m) + month_len(y, m));
    } else {
        lemma_leaps_step(y);
        lemma_month_offsets(y, 12);
        lemma_month_offsets(y + 1, 1);
        assert(days_before_month(y, 12) == days_before_month(y, 3) + 275);
    }
}

/// The separators do not matter: two stamps that agree everywhere except at the separator
/// positions 4, 7, 10, 13 and 16 parse to the same result.
pub proof fn lemma_separators_ignored(a: Seq<u8>, b: Seq<u8>)
    requires
        a.len() == b.len(),
        forall|i: int|
            0 <= i < a.len() && i != 4 && i != 7 && i != 10 && i != 13 && i != 16 ==> a[i] == b[i],
    ensures
        parse_iso(a) == parse_iso(b),
{
    if a.len() >= 19 {
        assert(a.subrange(0, 4) =~= b.subrange(0, 4));
        assert(a.subrange(5, 7) =~= b.subrange(5, 7));
        assert(a.subrange(8, 10) =~= b.subrange(8, 10));
        assert(a.subrange(11, 13) =~= b.subrange(11, 13));
        assert(a.subrange(14, 16) =~= b.subrange(14, 16));
        assert(a.subrange(17, 19) =~= b.subrange(17, 19));
        if a.len() >= 23 {
            assert(a.subrange(20, 23) =~= b.subrange(20, 23));
        }
    }
}


// ---------------------------------------------------------------------------------------------
// Stamps as they are written
// ---------------------------------------------------------------------------------------------

/// The ASCII byte of a digit value below ten.
pub open spec fn digit_byte(v: int) -> u8 {
    (48 + v) as u8
}

/// Ten to the power `k`.
pub open spec fn ten_pow(k: nat) -> nat
    decreases k,
{
    if k == 0 {
        1
    } else {
        10 * ten_pow((k - 1) as nat)
    }
}

/// `n` written with exactly `k` decimal digits, zero-padded on the left (`{:0k}` for
/// `n < 10^k`).
pub open spec fn padded(n: nat, k: nat) -> Seq<u8>
    decreases k,
{
    if k == 0 {
        Seq::empty()
    } else {
        padded(n / 10, (k - 1) as nat).push(digit_byte((n % 10) as int))
    }
}

/// The bytes of `format!("{:04}-{:02}-{:02}T{:02}:{:02}:{:02}Z", y, m, d, h, mi, se)`.
pub open spec fn day_stamp(y: nat, m: nat, d: nat, h: nat, mi: nat, se: nat) -> Seq<u8> {
    padded(y, 4) + seq![45u8] + padded(m, 2) + seq![45u8] + padded(d, 2) + seq![84u8] + padded(
        h,
        2,
    ) + seq![58u8] + padded(mi, 2) + seq![58u8] + padded(se, 2) + seq![90u8]
}

/// A zero-padded number reads back as itself.
proof fn lemma_padded_reads_back(n: nat, k: nat)
    requires
        1 <= k,
        n < ten_pow(k),
    ensures
        padded(n, k).len() == k,
        parse_signed(bytes_chars(padded(n, k))) == Some(n as int),
        crate::text::all_digits(bytes_chars(padded(n, k))),
        crate::text::digits_value(bytes_chars(padded(n, k))) == n,
    decreases k,
{
    let p = padded(n, k);
    let c = bytes_chars(p);
    let v = (n % 10) as int;
    let last = digit_byte(v);
    assert(0 <= v < 10);
    assert((last as char) as u32 == 48 + v);
    assert('0' as u32 == 48);
    assert(crate::text::digit_value(last as char) == v);
    if k == 1 {
        reveal_with_fuel(ten_pow, 2);
        reveal_with_fuel(padded, 2);
        assert(n < 10);
        assert(p =~= seq![last]);
        assert(n / 10 == 0);
        assert(c =~= seq![last as char]);
        assert(c.drop_last() =~= Seq::<char>::empty());
        assert(crate::text::digits_value(c.drop_last()) == 0);
        assert(c.last() == last as char);
        assert(crate::text::digits_value(c) == n);
    } else {
        let q = n / 10;
        assert(q < ten_pow((k - 1) as nat)) by (nonlinear_arith)
            requires
                n < 10 * ten_pow((k - 1) as nat),
                q == n / 10,
        ;
        lemma_padded_reads_back(q, (k - 1) as nat);
        let cq = bytes_chars(padded(q, (k - 1) as nat));
        assert(c =~= cq.push(last as char));
        assert(c.drop_last() =~= cq);
        crate::text::lemma_digits_value_push(cq, last as char);
        assert(q * 10 + v == n);
        assert(crate::text::digits_value(c) == n);
    }
    assert(c.len() == k);
    assert(crate::text::all_digits(c)) by {
        if k > 1 {
            let cq = bytes_chars(padded(n / 10, (k - 1) as nat));
            assert forall|i: int| 0 <= i < c.len() implies crate::text::is_digit(#[trigger] c[i]) by {
                if i < c.len() - 1 {
                    assert(c[i] == cq[i]);
                }
            }
        }
    }
    assert(crate::text::is_digit(c[0]));
}

/// The field written at bytes `a..a+k` of a stamp reads back as the number written there.
proof fn lemma_field_of_padded(b: Seq<u8>, a: int, n: nat, k: nat)
    requires
        1 <= k,
        n < ten_pow(k),
        0 <= a,
        a + k <= b.len(),
        b.subrange(a, a + k) == padded(n, k),
    ensures
        field(b, a, a + k) == Some(n as int),
{
    lemma_padded_reads_back(n, k);
}

/// What a written stamp parses to: its day count and its time of day, no milliseconds.
pub proof fn lemma_day_stamp_parses(y: nat, m: nat, d: nat, h: nat, mi: nat, se: nat)
    requires
        y < 10000,
        m < 100,
        d < 100,
        h < 100,
        mi < 100,
        se < 100,
    ensures
        parse_iso(day_stamp(y, m, d, h, mi, se)) == Some(
            (days_from_civil(y as int, m as int, d as int), h as int, mi as int, se as int, 0int),
        ),
{
    reveal_with_fuel(ten_pow, 5);
    let b = day_stamp(y, m, d, h, mi, se);
    lemma_padded_reads_back(y, 4);
    lemma_padded_reads_back(m, 2);
    lemma_padded_reads_back(d, 2);
    lemma_padded_reads_back(h, 2);
    lemma_padded_reads_back(mi, 2);
    lemma_padded_reads_back(se, 2);
    assert(b.len() == 20);
    assert(b.subrange(0, 4) =~= padded(y, 4));
    assert(b.subrange(5, 7) =~= padded(m, 2));
    assert(b.subrange(8, 10) =~= padded(d, 2));
    assert(b.subrange(11, 13) =~= padded(h, 2));
    assert(b.subrange(14, 16) =~= padded(mi, 2));
    assert(b.subrange(17, 19) =~= padded(se, 2));
    lemma_field_of_padded(b, 0, y, 4);
    lemma_field_of_padded(b, 5, m, 2);
    lemma_field_of_padded(b, 8, d, 2);
    lemma_field_of_padded(b, 11, h, 2);
    lemma_field_of_padded(b, 14, mi, 2);
    lemma_field_of_padded(b, 17, se, 2);
}

/// Two written stamps of the same time of day on consecutive calendar days (years 1 to 9998,
/// across month and year ends and February 29) parse 86 400 000 ms apart.
pub proof fn lemma_next_day_stamp(y: nat, m: nat, d: nat, h: nat, mi: nat, se: nat)
    requires
        1 <= y <= 9998,
        1 <= m <= 12,
        1 <= d <= month_len(y as int, m as int),
        h < 100,
        mi < 100,
        se < 100,
    ensures
        ({
            let n = next_day(y as int, m as int, d as int);
            let a = parse_iso(day_stamp(y, m, d, h, mi, se));
            let b = parse_iso(day_stamp(n.0 as nat, n.1 as nat, n.2 as nat, h, mi, se));
            &&& a is Some
            &&& b is Some
            &&& stamp_millis(b->Some_0) == stamp_millis(a->Some_0) + 86_400_000
        }),
{
    let n = next_day(y as int, m as int, d as int);
    assert(1 <= n.0 <= 9999 && 1 <= n.1 <= 12 && 1 <= n.2 <= 31);
    lemma_day_stamp_parses(y, m, d, h, mi, se);
    lemma_day_stamp_parses(n.0 as nat, n.1 as nat, n.2 as nat, h, mi, se);
    lemma_next_day(y as int, m as int, d as int, h as int, mi as int, se as int, 0);
}


/// A parsed stamp counts each of its fields at its own weight: a day is 86 400 000 ms, an
/// hour 3 600 000 ms, a minute 60 000 ms, a second 1000 ms, and milliseconds count as
/// themselves.
pub proof fn lemma_stamp_millis_weights(t: (int, int, int, int, int))
    ensures
        stamp_millis(t) == t.0 * 86_400_000 + t.1 * 3_600_000 + t.2 * 60_000 + t.3 * 1000 + t.4,
        stamp_millis((t.0 + 1, t.1, t.2, t.3, t.4)) == stamp_millis(t) + 86_400_000,
        stamp_millis((t.0, t.1 + 1, t.2, t.3, t.4)) == stamp_millis(t) + 3_600_000,
        stamp_millis((t.0, t.1, t.2 + 1, t.3, t.4)) == stamp_millis(t) + 60_000,
        stamp_millis((t.0, t.1, t.2, t.3 + 1, t.4)) == stamp_millis(t) + 1000,
        stamp_millis((t.0, t.1, t.2, t.3, t.4 + 1)) == stamp_millis(t) + 1,
{
}

/// Two written stamps of the same date and time but for the minute, one minute apart, parse
/// 60 000 ms apart.
pub proof fn lemma_next_minute_stamp(y: nat, m: nat, d: nat, h: nat, mi: nat, se: nat)
    requires
        y < 10000,
        m < 100,
        d < 100,
        h < 100,
        mi + 1 < 100,
        se < 100,
    ensures
        ({
            let a = parse_iso(day_stamp(y, m, d, h, mi, se));
            let b = parse_iso(day_stamp(y, m, d, h, mi + 1, se));
            &&& a is Some
            &&& b is Some
            &&& stamp_millis(b->Some_0) == stamp_millis(a->Some_0) + 60_000
        }),
{
    lemma_day_stamp_parses(y, m, d, h, mi, se);
    lemma_day_stamp_parses(y, m, d, h, mi + 1, se);
}

} // verus!
