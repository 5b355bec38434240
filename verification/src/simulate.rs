//! The bankroll-replay vocabulary: bet outcomes, sizing kinds, skip
//! reasons, comparison operators, timestamp keys on the civil calendar,
//! and the pinned splitmix64 generator.
use crate::text::{
    all_digits, chars_less, chars_of, digits_value, is_digit, lemma_split_nonempty, lit,
    parse_i64, parse_i64_spec, seq_less, slice_chars, split_chars, split_on, string_of, trim,
    trim_chars,
};
use vstd::prelude::*;

pub mod filter;
pub mod sizing;
pub mod odds;

verus! {

/// The 4-state outcome of a settled bet.
#[derive(Debug, Clone, Copy, PartialEq, Eq, Structural)]
pub enum Outcome {
    Win,
    Loss,
    Push,
    Void,
}

/// The stake-sizing rule families.
#[derive(Debug, Clone, Copy, PartialEq, Eq, Structural)]
pub enum SizingKind {
    /// `flat:pct=X` — X × start_bankroll (constant).
    Flat,
    /// `flat_current:pct=X` — X × current(batch-start) bankroll.
    FlatCurrent,
    /// `kelly:fraction=F` — F × kelly_fraction × current bankroll.
    Kelly,
    /// `from_column:<col>` — pre-computed stake read verbatim from a column.
    FromColumn,
}

/// Why a candidate bet was not placed.
#[derive(Debug, Clone, Copy, PartialEq, Eq, Structural)]
pub enum SkipReason {
    BelowMinOdds,
    NegativeKelly,
    BelowFloor,
    RuinSkipped,
}

impl SkipReason {
    /// The key under which skips of this kind are counted.
    pub fn key(self) -> (r: &'static str)
        ensures
            r@ == match self {
                SkipReason::BelowMinOdds => "below_min_odds"@,
                SkipReason::NegativeKelly => "negative_kelly"@,
                SkipReason::BelowFloor => "below_floor"@,
                SkipReason::RuinSkipped => "ruin_skipped"@,
            },
    {
        match self {
            SkipReason::BelowMinOdds => "below_min_odds",
            SkipReason::NegativeKelly => "negative_kelly",
            SkipReason::BelowFloor => "below_floor",
            SkipReason::RuinSkipped => "ruin_skipped",
        }
    }
}

/// A comparison operator of the record filter grammar.
#[derive(Debug, Clone, Copy, PartialEq, Eq, Structural)]
pub enum CmpOp {
    Eq,
    Neq,
    Gt,
    Lt,
    Gte,
    Lte,
}

/// Same-timestamp replay discipline.
#[derive(Debug, Clone, Copy, PartialEq, Eq, Structural)]
pub enum ReplayMode {
    /// Simultaneous batch — the realistic default.
    Batch,
    /// Sequential per-bet compounding.
    Sequential,
}

// ---------------------------------------------------------------------------
// Text comparison
// ---------------------------------------------------------------------------

/// Whether a text comparison holds.
pub open spec fn cmp_text_spec(a: Seq<char>, op: CmpOp, b: Seq<char>) -> bool {
    match op {
        CmpOp::Eq => a == b,
        CmpOp::Neq => a != b,
        CmpOp::Gt => seq_less(b, a),
        CmpOp::Lt => seq_less(a, b),
        CmpOp::Gte => !seq_less(a, b),
        CmpOp::Lte => !seq_less(b, a),
    }
}

/// Compare two text values under `op`, in string order.
pub fn cmp_text(a: &str, op: CmpOp, b: &str) -> (r: bool)
    ensures
        r == cmp_text_spec(a@, op, b@),
{
    let av = chars_of(a);
    let bv = chars_of(b);
    match op {
        CmpOp::Eq => crate::text::chars_eq(&av, &bv),
        CmpOp::Neq => !crate::text::chars_eq(&av, &bv),
        CmpOp::Gt => chars_less(&bv, &av),
        CmpOp::Lt => chars_less(&av, &bv),
        CmpOp::Gte => !chars_less(&av, &bv),
        CmpOp::Lte => !chars_less(&bv, &av),
    }
}

// ---------------------------------------------------------------------------
// splitmix64
// ---------------------------------------------------------------------------

/// The splitmix64 state increment.
pub open spec fn golden_gamma() -> u64 {
    0x9E37_79B9_7F4A_7C15
}

/// The splitmix64 output function applied to an advanced state.
pub open spec fn splitmix_mix(s: u64) -> u64 {
    let z1 = vstd::wrapping::u64_specs::wrapping_mul(s ^ (s >> 30u64), 0xBF58_476D_1CE4_E5B9);
    let z2 = vstd::wrapping::u64_specs::wrapping_mul(z1 ^ (z1 >> 27u64), 0x94D0_49BB_1331_11EB);
    z2 ^ (z2 >> 31u64)
}

/// The state after `k` steps from `seed`.
pub open spec fn splitmix_state(seed: u64, k: nat) -> u64 {
    ((seed as nat + k * (golden_gamma() as nat)) % 0x1_0000_0000_0000_0000) as u64
}

/// The `k`-th output (counting from 0) of a generator seeded with `seed`.
pub open spec fn splitmix_output(seed: u64, k: nat) -> u64 {
    splitmix_mix(splitmix_state(seed, k + 1))
}

/// splitmix64 — a tiny, platform-independent PRNG: the same seed gives
/// the same sequence on every platform.
pub struct SplitMix64 {
    state: u64,
}

impl SplitMix64 {
    /// The generator's current state.
    pub closed spec fn state(&self) -> u64 {
        self.state
    }

    /// A generator seeded with `seed`.
    pub fn new(seed: u64) -> (r: Self)
        ensures
            r.state() == seed,
    {
        SplitMix64 { state: seed }
    }

    /// Advance the state by the golden gamma and return the mixed value.
    pub fn next_u64(&mut self) -> (r: u64)
        ensures
            final(self).state() == vstd::wrapping::u64_specs::wrapping_add(
                old(self).state(),
                golden_gamma(),
            ),
            r == splitmix_mix(final(self).state()),
    {
        self.state = self.state.wrapping_add(0x9E37_79B9_7F4A_7C15);
        let mut z = self.state;
        z = (z ^ (z >> 30)).wrapping_mul(0xBF58_476D_1CE4_E5B9);
        z = (z ^ (z >> 27)).wrapping_mul(0x94D0_49BB_1331_11EB);
        z ^ (z >> 31)
    }

    /// A uniform-ish index in `[0, n)`: the next output modulo `n`.
    pub fn index(&mut self, n: usize) -> (r: usize)
        requires
            n > 0,
        ensures
            final(self).state() == vstd::wrapping::u64_specs::wrapping_add(
                old(self).state(),
                golden_gamma(),
            ),
            r as nat == (splitmix_mix(final(self).state()) as nat) % (n as nat),
            r < n,
    {
        let v = self.next_u64();
        let m = v % (n as u64);
        m as usize
    }
}

/// One step of the generator moves the state from step `k` to step
/// `k + 1`: the generator seeded with `seed`, after `k` calls, is in
/// state `splitmix_state(seed, k)`, and its next output is
/// `splitmix_output(seed, k)`. So two generators with the same seed
/// produce the same sequence.
pub proof fn lemma_splitmix_step(seed: u64, k: nat)
    ensures
        vstd::wrapping::u64_specs::wrapping_add(splitmix_state(seed, k), golden_gamma())
            == splitmix_state(seed, k + 1),
        splitmix_state(seed, 0) == seed,
{
    let m: int = 0x1_0000_0000_0000_0000;
    let g = golden_gamma() as int;
    let a = seed as int + k * g;
    let s = a % m;
    assert(a + g == seed as int + (k + 1) * g) by (nonlinear_arith)
        requires
            a == seed as int + k * g,
    ;
    assert((s + g) % m == (a + g) % m) by {
        vstd::arithmetic::div_mod::lemma_add_mod_noop(a, g, m);
        vstd::arithmetic::div_mod::lemma_mod_twice(a, m);
        vstd::arithmetic::div_mod::lemma_add_mod_noop(s, g, m);
        vstd::arithmetic::div_mod::lemma_small_mod(g as nat, m as nat);
    }
    assert(0 <= s < m) by {
        vstd::arithmetic::div_mod::lemma_mod_bound(a, m);
    }
    if s + g > u64::MAX {
        assert((s + g) % m == s + g - m) by {
            vstd::arithmetic::div_mod::lemma_fundamental_div_mod(s + g, m);
            assert(0 <= s + g - m < m);
            vstd::arithmetic::div_mod::lemma_small_mod((s + g - m) as nat, m as nat);
            vstd::arithmetic::div_mod::lemma_mod_sub_multiples_vanish(s + g, m);
        }
    } else {
        vstd::arithmetic::div_mod::lemma_small_mod((s + g) as nat, m as nat);
    }
    vstd::arithmetic::div_mod::lemma_small_mod(seed as nat, m as nat);
}

// ---------------------------------------------------------------------------
// Civil calendar
// ---------------------------------------------------------------------------

/// Days from 1970-01-01 to the civil date `y-m-d` (proleptic Gregorian),
/// by Hinnant's era decomposition.
pub open spec fn civil_days(y: int, m: int, d: int) -> int {
    let yy = if m <= 2 { y - 1 } else { y };
    let era = yy / 400;
    let yoe = yy - era * 400;
    let mp = if m > 2 { m - 3 } else { m + 9 };
    let doy = (153 * mp + 2) / 5 + d - 1;
    let doe = yoe * 365 + yoe / 4 - yoe / 100 + doy;
    era * 146_097 + doe - 719_468
}

/// Every step of computing [`civil_days`] in `i64` stays within `i64`:
/// the shifted year, the era's dividend, the day of the year, the day of
/// the era, and the sums that make the result.
pub open spec fn civil_in_range(y: int, m: int, d: int) -> bool {
    let yy = if m <= 2 { y - 1 } else { y };
    let dividend = if yy >= 0 { yy } else { yy - 399 };
    let era = yy / 400;
    let yoe = yy - era * 400;
    let mp = if m > 2 { m - 3 } else { m + 9 };
    let q = (153 * mp + 2) / 5;
    let doy = q + d - 1;
    let doe = yoe * 365 + yoe / 4 - yoe / 100 + doy;
    &&& fits_i64(yy)
    &&& fits_i64(dividend)
    &&& fits_i64(q + d)
    &&& fits_i64(doy)
    &&& fits_i64(doe)
    &&& fits_i64(era * 146_097)
    &&& fits_i64(era * 146_097 + doe)
    &&& fits_i64(era * 146_097 + doe - 719_468)
}

/// Days from the civil 1970-01-01 epoch (Howard Hinnant's algorithm).
pub fn days_from_civil(y: i64, m: i64, d: i64) -> (r: i64)
    requires
        1 <= m <= 12,
        civil_in_range(y as int, m as int, d as int),
    ensures
        r == civil_days(y as int, m as int, d as int),
{
    let y = if m <= 2 { y - 1 } else { y };
    let dividend = if y >= 0 { y } else { y - 399 };
    let era = dividend / 400;
    proof {
        lemma_era(y as int, era as int);
    }
    assert(y - 399 <= era * 400 <= y);
    let yoe = y - era * 400;
    let mp = if m > 2 { m - 3 } else { m + 9 };
    assert(0 <= mp <= 11);
    assert(0 <= 153 * mp + 2 <= 1685);
    let doy = (153 * mp + 2) / 5 + d - 1;
    assert(0 <= yoe * 365 <= 399 * 365) by (nonlinear_arith)
        requires
            0 <= yoe < 400,
    ;
    let doe = yoe * 365 + yoe / 4 - yoe / 100 + doy;
    era * 146_097 + doe - 719_468
}

/// The era computed with truncating division of `y` (or of `y - 399`
/// when `y` is negative) is floor division of `y` by 400.
proof fn lemma_era(y: int, era: int)
    requires
        y >= 0 ==> era == y / 400,
        y < 0 ==> era == -((399 - y) / 400),
    ensures
        era == y / 400,
        0 <= y - era * 400 < 400,
{
    if y < 0 {
        let n = 399 - y;
        let q = n / 400;
        let r = n % 400;
        vstd::arithmetic::div_mod::lemma_fundamental_div_mod(n, 400);
        vstd::arithmetic::div_mod::lemma_mod_bound(n, 400);
        assert(y == (-q) * 400 + (399 - r));
        vstd::arithmetic::div_mod::lemma_fundamental_div_mod_converse_div(y, 400, -q, 399 - r);
    }
    vstd::arithmetic::div_mod::lemma_fundamental_div_mod(y, 400);
    vstd::arithmetic::div_mod::lemma_mod_bound(y, 400);
}

// ---------------------------------------------------------------------------
// Timestamp keys
// ---------------------------------------------------------------------------

/// Whether `x` is a value of `i64`.
pub open spec fn fits_i64(x: int) -> bool {
    i64::MIN <= x <= i64::MAX
}

/// A time string split from its zone suffix: the time part, the offset
/// in seconds, and whether computing the offset stayed within `i64`.
pub struct ZoneSplit {
    pub time: Seq<char>,
    pub offset: int,
    pub fits: bool,
}

/// The offset `sign * (hh * 3600 + mm * 60)` of a zone `[+-]hh[:mm]`
/// whose sign stands at `i`, when its hours parse.
pub open spec fn zone_at(rest: Seq<char>, i: int) -> Option<ZoneSplit> {
    let z = rest.subrange(i + 1, rest.len() as int);
    let parts = split_on(z, ':');
    match parse_i64_spec(parts[0]) {
        None => None,
        Some(hh) => {
            let mm: int = if parts.len() > 1 {
                match parse_i64_spec(parts[1]) {
                    Some(m) => m as int,
                    None => 0,
                }
            } else {
                0
            };
            let sign: int = if rest[i] == '+' { 1 } else { -1 };
            let a = hh * 3600;
            let b = mm * 60;
            let c = a + b;
            Some(
                ZoneSplit {
                    time: rest.subrange(0, i),
                    offset: sign * c,
                    fits: fits_i64(a) && fits_i64(b) && fits_i64(c) && fits_i64(sign * c),
                },
            )
        },
    }
}

/// The scan for a `+hh:mm` / `-hh:mm` zone from position `i` down to 1:
/// the last sign whose hours parse.
pub open spec fn zone_scan(rest: Seq<char>, i: int) -> ZoneSplit
    decreases i,
{
    if i < 1 || i >= rest.len() {
        ZoneSplit { time: rest, offset: 0, fits: true }
    } else if (rest[i] == '+' || rest[i] == '-') && zone_at(rest, i) is Some {
        zone_at(rest, i)->0
    } else {
        zone_scan(rest, i - 1)
    }
}

/// A time string split from its zone: `Z`/`z` is offset 0, else the last
/// parseable `+hh[:mm]` / `-hh[:mm]` after the first character, else no
/// zone.
pub open spec fn split_zone_spec(rest: Seq<char>) -> ZoneSplit {
    if rest.len() > 0 && (rest.last() == 'Z' || rest.last() == 'z') {
        ZoneSplit { time: rest.drop_last(), offset: 0, fits: true }
    } else {
        zone_scan(rest, rest.len() - 1)
    }
}

/// Split a time string's zone suffix, reporting whether the offset
/// stayed within `i64`.
fn scan_zone(rest: &str) -> (r: (String, i64, bool))
    ensures
        r.0@ == split_zone_spec(rest@).time,
        r.2 == split_zone_spec(rest@).fits,
        r.2 ==> r.1 as int == split_zone_spec(rest@).offset,
{
    let cs = chars_of(rest);
    let n = cs.len();
    if n > 0 && (cs[n - 1] == 'Z' || cs[n - 1] == 'z') {
        let t = slice_chars(&cs, 0, n - 1);
        assert(t@ =~= rest@.drop_last());
        return (string_of(&t), 0, true);
    }
    if n == 0 {
        return (lit(rest), 0, true);
    }
    let mut i: usize = n - 1;
    while i >= 1
        invariant
            i < n,
            n == cs@.len(),
            cs@ == rest@,
            split_zone_spec(rest@) == zone_scan(rest@, i as int),
        decreases i,
    {
        if cs[i] == '+' || cs[i] == '-' {
            let z = slice_chars(&cs, i + 1, n);
            let parts = split_chars(&z, ':');
            proof {
                lemma_split_nonempty(z@, ':');
            }
            let h = string_of(&parts[0]);
            match parse_i64(h.as_str()) {
                Some(hh) => {
                    let mm: i64 = if parts.len() > 1 {
                        let m = string_of(&parts[1]);
                        match parse_i64(m.as_str()) {
                            Some(x) => x,
                            None => 0,
                        }
                    } else {
                        0
                    };
                    let time = string_of(&slice_chars(&cs, 0, i));
                    let sign: i64 = if cs[i] == '+' { 1 } else { -1 };
                    let a = hh.checked_mul(3600);
                    let b = mm.checked_mul(60);
                    match (a, b) {
                        (Some(a), Some(b)) => match a.checked_add(b) {
                            Some(c) => match sign.checked_mul(c) {
                                Some(v) => {
                                    return (time, v, true);
                                },
                                None => {
                                    return (time, 0, false);
                                },
                            },
                            None => {
                                return (time, 0, false);
                            },
                        },
                        _ => {
                            return (time, 0, false);
                        },
                    }
                },
                None => {},
            }
        }
        i -= 1;
    }
    (lit(rest), 0, true)
}

/// Split a time string's trailing zone designator: the time without the
/// zone and the zone's offset in seconds (`Z`, `z` or no zone: 0).
pub fn split_zone(rest: &str) -> (r: (String, i64))
    requires
        split_zone_spec(rest@).fits,
    ensures
        r.0@ == split_zone_spec(rest@).time,
        r.1 as int == split_zone_spec(rest@).offset,
{
    let (t, off, _fits) = scan_zone(rest);
    (t, off)
}

/// What a timestamp string reads as: seconds since the UNIX epoch, not a
/// timestamp, or a value whose computation leaves `i64`.
#[derive(Debug, Clone, Copy, PartialEq, Eq, Structural)]
pub enum TimeKey {
    Seconds(i64),
    Unparsed,
    Overflow,
}

/// The seconds of a time part `hh[:mm[:ss[.fff]]]` and the sums of the
/// key; the pieces are parsed in order and the sums checked in order.
pub open spec fn time_key(base: int, time: Seq<char>, zone: int) -> TimeKey {
    let parts = split_on(time, ':');
    match parse_i64_spec(parts[0]) {
        None => TimeKey::Unparsed,
        Some(hh) => {
            let mm_o = if parts.len() > 1 {
                parse_i64_spec(parts[1])
            } else {
                Some(0i64)
            };
            match mm_o {
                None => TimeKey::Unparsed,
                Some(mm) => {
                    let ss_o = if parts.len() > 2 {
                        parse_i64_spec(split_on(parts[2], '.')[0])
                    } else {
                        Some(0i64)
                    };
                    match ss_o {
                        None => TimeKey::Unparsed,
                        Some(ss) => {
                            let a = hh * 3600;
                            let b = mm * 60;
                            let c = a + b;
                            let d = c + ss;
                            let e = base + d;
                            let f = e - zone;
                            if fits_i64(a) && fits_i64(b) && fits_i64(c) && fits_i64(d) && fits_i64(e)
                                && fits_i64(f) {
                                TimeKey::Seconds(f as i64)
                            } else {
                                TimeKey::Overflow
                            }
                        },
                    }
                },
            }
        },
    }
}

/// The epoch-seconds key of an RFC 3339 / ISO 8601 timestamp
/// `YYYY-MM-DD[(T|t| )hh[:mm[:ss[.fff]]][Z|z|+hh[:mm]|-hh[:mm]]]`, or of a
/// bare integer taken as epoch seconds; the string is trimmed first. A
/// date alone is midnight UTC; a zone offset is subtracted.
#[verifier::opaque]
pub open spec fn timestamp_key(s0: Seq<char>) -> TimeKey {
    let s = trim(s0);
    match parse_i64_spec(s) {
        Some(n) => TimeKey::Seconds(n),
        None => if s.len() < 10 {
            TimeKey::Unparsed
        } else {
            match (
                parse_i64_spec(s.subrange(0, 4)),
                parse_i64_spec(s.subrange(5, 7)),
                parse_i64_spec(s.subrange(8, 10)),
            ) {
                (Some(y), Some(m), Some(d)) => if !(s[4] == '-' && s[7] == '-' && 1 <= m <= 12 && 1
                    <= d <= 31) {
                    TimeKey::Unparsed
                } else {
                    let base = civil_days(y as int, m as int, d as int) * 86400;
                    if !fits_i64(base) {
                        TimeKey::Overflow
                    } else if s.len() == 10 {
                        TimeKey::Seconds(base as i64)
                    } else if !(s[10] == 'T' || s[10] == 't' || s[10] == ' ') {
                        TimeKey::Unparsed
                    } else {
                        let z = split_zone_spec(s.subrange(11, s.len() as int));
                        if !z.fits {
                            TimeKey::Overflow
                        } else {
                            time_key(base, z.time, z.offset)
                        }
                    }
                },
                _ => TimeKey::Unparsed,
            }
        },
    }
}

fn parse_piece(v: &Vec<char>) -> (r: Option<i64>)
    ensures
        r == parse_i64_spec(v@),
{
    let s = string_of(v);
    parse_i64(s.as_str())
}

/// The key of the time part, given the date's seconds and the zone.
fn time_key_exec(base: i64, time: &str, zone: i64) -> (r: TimeKey)
    ensures
        r == time_key(base as int, time@, zone as int),
{
    let cs = chars_of(time);
    let parts = split_chars(&cs, ':');
    proof {
        lemma_split_nonempty(cs@, ':');
    }
    let hh = match parse_piece(&parts[0]) {
        None => {
            return TimeKey::Unparsed;
        },
        Some(h) => h,
    };
    let mm: i64 = if parts.len() > 1 {
        match parse_piece(&parts[1]) {
            None => {
                return TimeKey::Unparsed;
            },
            Some(m) => m,
        }
    } else {
        0
    };
    let ss: i64 = if parts.len() > 2 {
        let sub = split_chars(&parts[2], '.');
        proof {
            lemma_split_nonempty(parts@[2]@, '.');
        }
        match parse_piece(&sub[0]) {
            None => {
                return TimeKey::Unparsed;
            },
            Some(x) => x,
        }
    } else {
        0
    };
    let a = match hh.checked_mul(3600) {
        Some(v) => v,
        None => {
            return TimeKey::Overflow;
        },
    };
    let b = match mm.checked_mul(60) {
        Some(v) => v,
        None => {
            return TimeKey::Overflow;
        },
    };
    let c = match a.checked_add(b) {
        Some(v) => v,
        None => {
            return TimeKey::Overflow;
        },
    };
    let d = match c.checked_add(ss) {
        Some(v) => v,
        None => {
            return TimeKey::Overflow;
        },
    };
    let e = match base.checked_add(d) {
        Some(v) => v,
        None => {
            return TimeKey::Overflow;
        },
    };
    match e.checked_sub(zone) {
        Some(v) => TimeKey::Seconds(v),
        None => TimeKey::Overflow,
    }
}

/// The key of a timestamp string, telling an unparseable string from one
/// whose value leaves `i64`.
pub fn timestamp_key_of(s: &str) -> (r: TimeKey)
    ensures
        r == timestamp_key(s@),
{
    reveal(timestamp_key);
    let all = chars_of(s);
    let t = trim_chars(&all);
    let ts = string_of(&t);
    if let Some(n) = parse_i64(ts.as_str()) {
        return TimeKey::Seconds(n);
    }
    if t.len() < 10 {
        return TimeKey::Unparsed;
    }
    let y = parse_piece(&slice_chars(&t, 0, 4));
    let m = parse_piece(&slice_chars(&t, 5, 7));
    let d = parse_piece(&slice_chars(&t, 8, 10));
    let (y, m, d) = match (y, m, d) {
        (Some(y), Some(m), Some(d)) => (y, m, d),
        _ => {
            return TimeKey::Unparsed;
        },
    };
    if !(t[4] == '-' && t[7] == '-' && 1 <= m && m <= 12 && 1 <= d && d <= 31) {
        return TimeKey::Unparsed;
    }
    proof {
        lemma_small_digits(t@.subrange(0, 4));
        lemma_small_digits(t@.subrange(8, 10));
    }
    let days = days_from_civil(y, m, d);
    let base = match days.checked_mul(86400) {
        Some(b) => b,
        None => {
            return TimeKey::Overflow;
        },
    };
    if t.len() == 10 {
        return TimeKey::Seconds(base);
    }
    if !(t[10] == 'T' || t[10] == 't' || t[10] == ' ') {
        return TimeKey::Unparsed;
    }
    let rest = string_of(&slice_chars(&t, 11, t.len()));
    let (time, zone, fits) = scan_zone(rest.as_str());
    if !fits {
        return TimeKey::Overflow;
    }
    time_key_exec(base, time.as_str(), zone)
}

/// A short run of digits with an optional sign parses to a small number.
proof fn lemma_small_digits(s: Seq<char>)
    requires
        s.len() <= 4,
    ensures
        parse_i64_spec(s) matches Some(v) ==> -10000 < v < 10000,
{
    let body = if s.len() > 0 && (s[0] == '+' || s[0] == '-') { s.drop_first() } else { s };
    lemma_digits_value_bound(body);
}

/// The value of `k` digits is below `10^k`.
proof fn lemma_digits_value_bound(s: Seq<char>)
    requires
        s.len() <= 4,
    ensures
        all_digits(s) ==> digits_value(s) < (if s.len() == 0 {
            1int
        } else if s.len() == 1 {
            10int
        } else if s.len() == 2 {
            100int
        } else if s.len() == 3 {
            1000int
        } else {
            10000int
        }),
    decreases s.len(),
{
    if s.len() > 0 {
        lemma_digits_value_bound(s.drop_last());
        if all_digits(s) {
            assert(all_digits(s.drop_last())) by {
                assert forall|i: int| 0 <= i < s.drop_last().len() implies is_digit(
                    #[trigger] s.drop_last()[i],
                ) by {
                    assert(s.drop_last()[i] == s[i]);
                }
            }
            assert(is_digit(s[s.len() - 1]));
        }
    }
}

/// Parse an RFC 3339-ish timestamp (or a bare epoch integer) to epoch
/// seconds; `None` when it is neither.
pub fn parse_rfc3339_seconds(s: &str) -> (r: Option<i64>)
    requires
        timestamp_key(s@) != TimeKey::Overflow,
    ensures
        r == (match timestamp_key(s@) {
            TimeKey::Seconds(v) => Some(v),
            _ => None::<i64>,
        }),
{
    match timestamp_key_of(s) {
        TimeKey::Seconds(v) => Some(v),
        _ => None,
    }
}

// ---------------------------------------------------------------------------
// Replay batches
// ---------------------------------------------------------------------------

/// The end of the run of records from `j` on whose key is `keys[i]`.
pub open spec fn run_end(keys: Seq<i64>, i: int, j: int) -> int
    decreases keys.len() - j,
{
    if 0 <= j < keys.len() && keys[j] == keys[i] {
        run_end(keys, i, j + 1)
    } else {
        j
    }
}

proof fn lemma_run_end(keys: Seq<i64>, i: int, j: int)
    requires
        0 <= i < j <= keys.len(),
    ensures
        j <= run_end(keys, i, j) <= keys.len(),
        forall|k: int| j <= k < run_end(keys, i, j) ==> keys[k] == keys[i],
        run_end(keys, i, j) < keys.len() ==> keys[run_end(keys, i, j)] != keys[i],
    decreases keys.len() - j,
{
    if j < keys.len() && keys[j] == keys[i] {
        lemma_run_end(keys, i, j + 1);
    }
}

/// Where the batch that starts at record `i` ends: in batch mode after
/// the consecutive records that share its key, in sequential mode right
/// after it.
pub open spec fn batch_end(keys: Seq<i64>, i: int, mode: ReplayMode) -> int {
    if mode == ReplayMode::Batch {
        run_end(keys, i, i + 1)
    } else {
        i + 1
    }
}

/// The batches of the records from `i` on, as (start, end) ranges.
pub open spec fn batches_from(keys: Seq<i64>, i: int, mode: ReplayMode) -> Seq<(int, int)>
    decreases keys.len() - i,
{
    if i < 0 || i >= keys.len() {
        Seq::empty()
    } else {
        let e = batch_end(keys, i, mode);
        if e <= i || e > keys.len() {
            Seq::empty()
        } else {
            seq![(i, e)] + batches_from(keys, e, mode)
        }
    }
}

/// Split records (by their ordering keys, in replay order) into the
/// batches the replay stakes together: in batch mode each run of
/// consecutive records with equal keys, in sequential mode each record
/// alone.
pub fn replay_batches(keys: &[i64], mode: ReplayMode) -> (r: Vec<(usize, usize)>)
    ensures
        r@.map_values(|p: (usize, usize)| (p.0 as int, p.1 as int)) == batches_from(keys@, 0, mode),
{
    let mut out: Vec<(usize, usize)> = Vec::new();
    let mut i: usize = 0;
    assert(out@.map_values(|p: (usize, usize)| (p.0 as int, p.1 as int)) + batches_from(keys@, 0, mode)
        =~= batches_from(keys@, 0, mode));
    while i < keys.len()
        invariant
            i <= keys@.len(),
            out@.map_values(|p: (usize, usize)| (p.0 as int, p.1 as int)) + batches_from(keys@, i as int, mode)
                == batches_from(keys@, 0, mode),
        decreases keys@.len() - i,
    {
        let mut j = i + 1;
        if mode == ReplayMode::Batch {
            while j < keys.len() && keys[j] == keys[i]
                invariant
                    i < j <= keys@.len(),
                    run_end(keys@, i as int, j as int) == run_end(keys@, i as int, i + 1),
                decreases keys@.len() - j,
            {
                j += 1;
            }
        }
        proof {
            lemma_run_end(keys@, i as int, i + 1);
        }
        assert(j as int == batch_end(keys@, i as int, mode));
        let ghost before = out@.map_values(|p: (usize, usize)| (p.0 as int, p.1 as int));
        out.push((i, j));
        assert(out@.map_values(|p: (usize, usize)| (p.0 as int, p.1 as int)) =~= before.push((i as int, j as int)));
        assert(batches_from(keys@, i as int, mode) == seq![(i as int, j as int)] + batches_from(keys@, j as int, mode));
        assert(before.push((i as int, j as int)) + batches_from(keys@, j as int, mode) =~= before + batches_from(
            keys@,
            i as int,
            mode,
        ));
        i = j;
    }
    assert(batches_from(keys@, i as int, mode) =~= Seq::<(int, int)>::empty());
    assert(out@.map_values(|p: (usize, usize)| (p.0 as int, p.1 as int)) + Seq::<(int, int)>::empty()
        =~= out@.map_values(|p: (usize, usize)| (p.0 as int, p.1 as int)));
    out
}

/// The batches from `i` on cover the records from `i` in order.
pub open spec fn batches_cover(keys: Seq<i64>, i: int, mode: ReplayMode, b: Seq<(int, int)>) -> bool {
    &&& (b.len() == 0 <==> i == keys.len())
    &&& (b.len() > 0 ==> b[0].0 == i && b.last().1 == keys.len())
    &&& forall|k: int| 0 <= k < b.len() - 1 ==> #[trigger] b[k].1 == b[k + 1].0
    &&& forall|k: int| 0 <= k < b.len() ==> (#[trigger] b[k]).0 < b[k].1
    &&& forall|k: int|
        0 <= k < b.len() && mode == ReplayMode::Sequential ==> (#[trigger] b[k]).1 == b[k].0 + 1
    &&& forall|k: int, t: int|
        0 <= k < b.len() && (#[trigger] b[k]).0 <= t < b[k].1 && mode == ReplayMode::Batch ==> #[trigger] keys[t]
            == keys[b[k].0]
    &&& forall|k: int|
        0 <= k < b.len() && (#[trigger] b[k]).1 < keys.len() && mode == ReplayMode::Batch ==> keys[b[k].1]
            != keys[b[k].0]
}

proof fn lemma_batches_cover(keys: Seq<i64>, i: int, mode: ReplayMode)
    requires
        0 <= i <= keys.len(),
    ensures
        batches_cover(keys, i, mode, batches_from(keys, i, mode)),
    decreases keys.len() - i,
{
    if i < keys.len() {
        lemma_run_end(keys, i, i + 1);
        let e = batch_end(keys, i, mode);
        lemma_batches_cover(keys, e, mode);
        let rest = batches_from(keys, e, mode);
        let b = batches_from(keys, i, mode);
        assert(b == seq![(i, e)] + rest);
        assert forall|k: int| 0 < k < b.len() implies b[k] == rest[k - 1] by {}
        assert forall|k: int| 0 <= k < b.len() - 1 implies #[trigger] b[k].1 == b[k + 1].0 by {
            if k > 0 {
                assert(b[k] == rest[k - 1]);
                assert(b[k + 1] == rest[k]);
            }
        }
        assert forall|k: int, t: int|
            0 <= k < b.len() && (#[trigger] b[k]).0 <= t < b[k].1 && mode == ReplayMode::Batch implies #[trigger] keys[t]
                == keys[b[k].0] by {
            if k > 0 {
                assert(b[k] == rest[k - 1]);
            } else if t > i {
                assert(keys[t] == keys[i]);
            }
        }
        if rest.len() > 0 {
            assert(b.last() == rest.last());
        }
    }
}

/// The replay's batches cover the records in order, without gaps or
/// overlap; in batch mode each batch holds the consecutive records that
/// share one key (the record after it has another key), and in sequential
/// mode each batch holds one record.
pub proof fn law_batches_partition(keys: Seq<i64>, mode: ReplayMode)
    ensures
        batches_cover(keys, 0, mode, batches_from(keys, 0, mode)),
{
    lemma_batches_cover(keys, 0, mode);
}

} // verus!
