//! `mc model narrate`: argument parsing, the empty-report rendering, the
//! JSON string quoting of the narrative emitter, and the UTC calendar
//! conversion used to timestamp ledger entries.
use crate::escape::{push_quoted, quoted, EscapeSet};
use crate::simulate::civil_days;
use crate::text::{
    debug_str, has_prefix, lit, nat_decimal, push_str, starts_with_dashes, str_debug,
    push_zero_padded, str_eq, zero_pad,
};
use vstd::prelude::*;

pub mod render;

verus! {

/// Output format of `narrate`.
#[derive(Clone, Copy, Debug, PartialEq, Eq, Structural)]
pub enum NarrateFormat {
    Json,
    Text,
    Markdown,
}

/// A fully-parsed `mc model narrate` invocation.
#[derive(Debug)]
pub struct NarrateCommand {
    pub path: String,
    pub format: NarrateFormat,
    pub templates_dir: Option<String>,
    /// When true, write ledger entries to `.mosaic/analysis-ledger.jsonl`.
    pub save_ledger: bool,
}

/// The values a parse accumulates; `path` is still optional.
pub struct NarrateState {
    pub path: Option<Seq<char>>,
    pub format: NarrateFormat,
    pub templates_dir: Option<Seq<char>>,
    pub save_ledger: bool,
}

impl NarrateCommand {
    pub open spec fn model(&self) -> NarrateState {
        NarrateState {
            path: Some(self.path@),
            format: self.format,
            templates_dir: self.templates_dir.deep_view(),
            save_ledger: self.save_ledger,
        }
    }
}

/// The argument loop from position `i` on, in state `st`.
pub open spec fn narrate_loop(args: Seq<Seq<char>>, i: nat, st: NarrateState) -> Result<
    NarrateState,
    Seq<char>,
>
    decreases args.len() - i,
{
    if i >= args.len() {
        Ok(st)
    } else {
        let a = args[i as int];
        if a == "--format"@ {
            if i + 1 < args.len() {
                let v = args[i + 1 as int];
                if v == "text"@ {
                    narrate_loop(args, i + 2, NarrateState { format: NarrateFormat::Text, ..st })
                } else if v == "json"@ {
                    narrate_loop(args, i + 2, NarrateState { format: NarrateFormat::Json, ..st })
                } else if v == "markdown"@ || v == "md"@ {
                    narrate_loop(
                        args,
                        i + 2,
                        NarrateState { format: NarrateFormat::Markdown, ..st },
                    )
                } else {
                    Err("--format must be text, json, or markdown; got "@ + str_debug(v))
                }
            } else {
                Err("--format requires an argument"@)
            }
        } else if a == "--templates"@ {
            if i + 1 < args.len() {
                narrate_loop(
                    args,
                    i + 2,
                    NarrateState { templates_dir: Some(args[i + 1 as int]), ..st },
                )
            } else {
                Err("--templates requires a directory path"@)
            }
        } else if a == "--save-ledger"@ {
            narrate_loop(args, i + 1, NarrateState { save_ledger: true, ..st })
        } else if !has_prefix(a, seq!['-', '-']) && st.path is None {
            narrate_loop(args, i + 1, NarrateState { path: Some(a), ..st })
        } else {
            Err("unknown argument: "@ + str_debug(a))
        }
    }
}

/// The outcome of parsing `narrate` arguments.
pub open spec fn narrate_spec(args: Seq<Seq<char>>) -> Result<NarrateState, Seq<char>> {
    if args.len() == 0 {
        Err("`mc model narrate` requires a YAML model path"@)
    } else {
        let init = NarrateState {
            path: None,
            format: NarrateFormat::Text,
            templates_dir: None,
            save_ledger: false,
        };
        match narrate_loop(args, 0, init) {
            Err(e) => Err(e),
            Ok(st) => if st.path is None {
                Err("`mc model narrate` requires a YAML model path"@)
            } else {
                Ok(st)
            },
        }
    }
}

/// Parse `mc model narrate` arguments.
pub fn parse(args: &[String]) -> (r: Result<NarrateCommand, String>)
    ensures
        match r {
            Ok(c) => narrate_spec(args.deep_view()) == Ok::<NarrateState, Seq<char>>(c.model()),
            Err(e) => narrate_spec(args.deep_view()) == Err::<NarrateState, Seq<char>>(e@),
        },
{
    let ghost av = args.deep_view();
    if args.len() == 0 {
        return Err(lit("`mc model narrate` requires a YAML model path"));
    }
    let mut path: Option<String> = None;
    let mut format = NarrateFormat::Text;
    let mut templates_dir: Option<String> = None;
    let mut save_ledger = false;
    let mut i: usize = 0;
    while i < args.len()
        invariant
            i <= args@.len(),
            av == args.deep_view(),
            narrate_spec(av) == (match narrate_loop(
                av,
                i as nat,
                NarrateState {
                    path: path.deep_view(),
                    format: format,
                    templates_dir: templates_dir.deep_view(),
                    save_ledger: save_ledger,
                },
            ) {
                Err(e) => Err(e),
                Ok(st) => if st.path is None {
                    Err("`mc model narrate` requires a YAML model path"@)
                } else {
                    Ok(st)
                },
            }),
        decreases args@.len() - i,
    {
        let arg = &args[i];
        assert(av[i as int] == arg@);
        if str_eq(arg.as_str(), "--format") {
            if i + 1 < args.len() {
                let v = &args[i + 1];
                assert(av[i + 1] == v@);
                if str_eq(v.as_str(), "text") {
                    format = NarrateFormat::Text;
                } else if str_eq(v.as_str(), "json") {
                    format = NarrateFormat::Json;
                } else if str_eq(v.as_str(), "markdown") || str_eq(v.as_str(), "md") {
                    format = NarrateFormat::Markdown;
                } else {
                    let mut m = lit("--format must be text, json, or markdown; got ");
                    let d = debug_str(v.as_str());
                    push_str(&mut m, d.as_str());
                    return Err(m);
                }
                i += 2;
            } else {
                return Err(lit("--format requires an argument"));
            }
        } else if str_eq(arg.as_str(), "--templates") {
            if i + 1 < args.len() {
                assert(av[i + 1] == args@[i + 1]@);
                templates_dir = Some(args[i + 1].clone());
                i += 2;
            } else {
                return Err(lit("--templates requires a directory path"));
            }
        } else if str_eq(arg.as_str(), "--save-ledger") {
            save_ledger = true;
            i += 1;
        } else if !starts_with_dashes(arg.as_str()) && path.is_none() {
            path = Some(arg.clone());
            i += 1;
        } else {
            let mut m = lit("unknown argument: ");
            let d = debug_str(arg.as_str());
            push_str(&mut m, d.as_str());
            return Err(m);
        }
    }
    match path {
        None => Err(lit("`mc model narrate` requires a YAML model path")),
        Some(p) => Ok(NarrateCommand { path: p, format, templates_dir, save_ledger }),
    }
}

/// The report written when there are no narratives.
pub open spec fn render_empty_spec(format: NarrateFormat) -> Seq<char> {
    match format {
        NarrateFormat::Json => "{\"schema_version\": \"1.0\", \"narratives\": []}\n"@,
        _ => Seq::<char>::empty(),
    }
}

/// Render the empty narrative report in the given format.
pub fn render_empty(format: NarrateFormat) -> (r: String)
    ensures
        r@ == render_empty_spec(format),
{
    match format {
        NarrateFormat::Json => lit("{\"schema_version\": \"1.0\", \"narratives\": []}\n"),
        NarrateFormat::Text | NarrateFormat::Markdown => String::new(),
    }
}

/// The JSON string literal for `s`: quoted, with `"`, `\`, newline,
/// carriage return and tab escaped, and other control characters as
/// `\u00XX`.
pub fn json_str(s: &str) -> (r: String)
    ensures
        r@ == quoted(EscapeSet::Common, s@),
{
    let mut out = String::new();
    push_quoted(&mut out, EscapeSet::Common, s);
    out
}

// ---------------------------------------------------------------------------
// UTC timestamps
// ---------------------------------------------------------------------------

/// Whether `y` is a leap year of the proleptic Gregorian calendar.
pub open spec fn is_leap(y: int) -> bool {
    y % 4 == 0 && (y % 100 != 0 || y % 400 == 0)
}

/// The number of days in month `m` of year `y`.
pub open spec fn month_len(y: int, m: int) -> int {
    if m == 2 {
        if is_leap(y) {
            29
        } else {
            28
        }
    } else if m == 4 || m == 6 || m == 9 || m == 11 {
        30
    } else {
        31
    }
}

/// The year of an era (a 400-year cycle starting on March 1) holding
/// day `doe` of the era, and the day's place in that year.
proof fn lemma_year_of_era(doe: u32)
    by (bit_vector)
    requires
        doe <= 146096,
    ensures
        ({
            let yoe = (doe - doe / 1460 + doe / 36524 - doe / 146096) / 365;
            let start = 365 * yoe + yoe / 4 - yoe / 100;
            &&& yoe <= 399
            &&& start <= doe
            &&& doe - start <= 365
            &&& (doe - start == 365 ==> ((yoe + 1) % 4 == 0 && ((yoe + 1) % 100 != 0 || yoe == 399)))
        }),
{
}

/// The month (counted from March) and day of day `doy` of a March-based
/// year.
proof fn lemma_month_of_year(doy: u32)
    by (bit_vector)
    requires
        doy <= 365,
    ensures
        ({
            let mp = (5 * doy + 2) / 153;
            let d = doy - (153 * mp + 2) / 5 + 1;
            &&& mp <= 11
            &&& (153 * mp + 2) / 5 <= doy
            &&& 1 <= d <= 31
            &&& (mp == 1 || mp == 3 || mp == 6 || mp == 8) ==> d <= 30
            &&& mp == 11 ==> d == doy - 336
        }),
{
}

/// The civil date (proleptic Gregorian) `days` days after 1970-01-01, as
/// year, month and day.
pub fn days_to_ymd(days: u64) -> (r: (u64, u64, u64))
    requires
        days <= u64::MAX - 719468,
    ensures
        1 <= r.1 <= 12,
        1 <= r.2 <= month_len(r.0 as int, r.1 as int),
        civil_days(r.0 as int, r.1 as int, r.2 as int) == days as int,
        (r.0 as int, r.1 as int, r.2 as int) == civil_date(days as int),
{
    let z = days + 719468;
    let era = z / 146097;
    let doe = z - era * 146097;
    proof {
        lemma_year_of_era(doe as u32);
    }
    let yoe = (doe - doe / 1460 + doe / 36524 - doe / 146096) / 365;
    let y = yoe + era * 400;
    let doy = doe - (365 * yoe + yoe / 4 - yoe / 100);
    proof {
        lemma_month_of_year(doy as u32);
    }
    let mp = (5 * doy + 2) / 153;
    let d = doy - (153 * mp + 2) / 5 + 1;
    let m = if mp < 10 { mp + 3 } else { mp - 9 };
    let y = if m <= 2 { y + 1 } else { y };
    proof {
        let yy = if m <= 2 { y - 1 } else { y as int };
        assert(yy == yoe + era * 400);
        vstd::arithmetic::div_mod::lemma_fundamental_div_mod_converse_div(
            yy,
            400,
            era as int,
            yoe as int,
        );
        assert(yy / 400 == era);
        if m == 2 {
            assert(mp == 11);
            if d == 29 {
                assert(doy == 365);
                vstd::arithmetic::div_mod::lemma_mod_multiples_vanish(era * 100, yoe + 1, 4);
                vstd::arithmetic::div_mod::lemma_mod_multiples_vanish(era * 4, yoe + 1, 100);
                vstd::arithmetic::div_mod::lemma_mod_multiples_vanish(era as int, yoe + 1, 400);
                assert(y == 4 * (era * 100) + (yoe + 1));
                assert(y == 100 * (era * 4) + (yoe + 1));
                assert(y == 400 * era + (yoe + 1));
                if yoe == 399 {
                    vstd::arithmetic::div_mod::lemma_mod_self_0(400);
                }
            }
        }
        law_date_round_trip(y as int, m as int, d as int);
    }
    (y, m, d)
}

/// Day `doy` of year `yoe` of an era lies in that era, and the year is
/// found again from the day of the era.
proof fn lemma_year_of_era_inverse(yoe: u32, doy: u32)
    by (bit_vector)
    requires
        yoe <= 399,
        doy <= 365,
        doy == 365 ==> (yoe % 4 == 3 && (yoe % 100 != 99 || yoe == 399)),
    ensures
        ({
            let doe = 365 * yoe + yoe / 4 - yoe / 100 + doy;
            &&& doe <= 146096
            &&& (doe - doe / 1460 + doe / 36524 - doe / 146096) / 365 <= yoe
            &&& yoe <= (doe - doe / 1460 + doe / 36524 - doe / 146096) / 365
        }),
{
}

/// Day `d` of month `mp` (counted from March) is found again from its day
/// of the year.
proof fn lemma_month_of_year_inverse(mp: u32, d: u32)
    by (bit_vector)
    requires
        mp <= 11,
        1 <= d <= 31,
        (mp == 1 || mp == 3 || mp == 6 || mp == 8) ==> d <= 30,
        mp == 11 ==> d <= 29,
    ensures
        ({
            let doy = (153 * mp + 2) / 5 + d - 1;
            &&& doy <= 365
            &&& (5 * doy + 2) / 153 <= mp
            &&& mp <= (5 * doy + 2) / 153
            &&& doy == 365 ==> mp == 11 && d == 29
        }),
{
}

/// A valid date's place in its era: the era, the year of the era, the
/// month counted from March, and the day of the era, which lies in the
/// era and from which the year and month are found again.
proof fn lemma_date_parts(y: int, m: int, d: int) -> (r: (int, int, int, int))
    requires
        1 <= m <= 12,
        1 <= d <= month_len(y, m),
    ensures
        ({
            let (era, yoe, mp, doe) = r;
            let doy = (153 * mp + 2) / 5 + d - 1;
            &&& 0 <= yoe <= 399
            &&& 0 <= mp <= 11
            &&& 0 <= doe <= 146096
            &&& civil_days(y, m, d) == era * 146097 + doe - 719468
            &&& (doe - doe / 1460 + doe / 36524 - doe / 146096) / 365 == yoe
            &&& doy == doe - (365 * yoe + yoe / 4 - yoe / 100)
            &&& (5 * doy + 2) / 153 == mp
            &&& m == (if mp < 10 { mp + 3 } else { mp - 9 })
            &&& y == era * 400 + yoe + (if m <= 2 { 1int } else { 0 })
        }),
{
    let yy = if m <= 2 { y - 1 } else { y };
    let era = yy / 400;
    let yoe = yy - era * 400;
    vstd::arithmetic::div_mod::lemma_fundamental_div_mod(yy, 400);
    vstd::arithmetic::div_mod::lemma_mod_bound(yy, 400);
    let mp = if m > 2 { m - 3 } else { m + 9 };
    lemma_month_of_year_inverse(mp as u32, d as u32);
    let doy = (153 * mp + 2) / 5 + d - 1;
    if doy == 365 {
        assert(m == 2 && d == 29);
        assert(is_leap(y));
        assert(y == 400 * era + (yoe + 1));
        vstd::arithmetic::div_mod::lemma_mod_multiples_vanish(era * 100, yoe + 1, 4);
        vstd::arithmetic::div_mod::lemma_mod_multiples_vanish(era * 4, yoe + 1, 100);
        vstd::arithmetic::div_mod::lemma_mod_multiples_vanish(era, yoe + 1, 400);
        if (yoe + 1) % 100 == 0 {
            assert((yoe + 1) % 400 == 0);
            vstd::arithmetic::div_mod::lemma_fundamental_div_mod(yoe + 1, 400);
        }
        assert(yoe % 4 == 3 && (yoe % 100 != 99 || yoe == 399));
    }
    lemma_year_of_era_inverse(yoe as u32, doy as u32);
    let doe = 365 * yoe + yoe / 4 - yoe / 100 + doy;
    (era, yoe, mp, doe)
}

/// Distinct valid dates have distinct day counts: a day count names one
/// date, so turning a valid date into days and back gives that date.
pub proof fn law_civil_days_one_to_one(y1: int, m1: int, d1: int, y2: int, m2: int, d2: int)
    requires
        1 <= m1 <= 12,
        1 <= d1 <= month_len(y1, m1),
        1 <= m2 <= 12,
        1 <= d2 <= month_len(y2, m2),
        civil_days(y1, m1, d1) == civil_days(y2, m2, d2),
    ensures
        y1 == y2 && m1 == m2 && d1 == d2,
{
    let (e1, yo1, mp1, doe1) = lemma_date_parts(y1, m1, d1);
    let (e2, yo2, mp2, doe2) = lemma_date_parts(y2, m2, d2);
    let n = civil_days(y1, m1, d1) + 719468;
    assert(n == e1 * 146097 + doe1);
    assert(n == e2 * 146097 + doe2);
    vstd::arithmetic::div_mod::lemma_fundamental_div_mod_converse(n, 146097, e1, doe1);
    vstd::arithmetic::div_mod::lemma_fundamental_div_mod_converse(n, 146097, e2, doe2);
}

/// The valid civil date that lies `days` days after 1970-01-01.
pub open spec fn civil_date(days: int) -> (int, int, int) {
    choose|ymd: (int, int, int)|
        1 <= ymd.1 <= 12 && 1 <= ymd.2 <= month_len(ymd.0, ymd.1) && #[trigger] civil_days(
            ymd.0,
            ymd.1,
            ymd.2,
        ) == days
}

/// A valid date is the civil date of its day count: for a date on or
/// after 1970-01-01, `days_to_ymd` of the day count that
/// `days_from_civil` gives is the date itself.
pub proof fn law_date_round_trip(y: int, m: int, d: int)
    requires
        1 <= m <= 12,
        1 <= d <= month_len(y, m),
    ensures
        civil_date(civil_days(y, m, d)) == (y, m, d),
{
    let n = civil_days(y, m, d);
    assert(civil_days((y, m, d).0, (y, m, d).1, (y, m, d).2) == n);
    let c = civil_date(n);
    law_civil_days_one_to_one(c.0, c.1, c.2, y, m, d);
}

/// Two decimal digits, zero-padded.
pub open spec fn two_digits(n: int) -> Seq<char> {
    zero_pad(nat_decimal(n as nat), 2)
}

/// `YYYY-MM-DDTHH:MM:SSZ` for `secs` seconds after the UNIX epoch (UTC).
pub open spec fn utc_timestamp(secs: nat) -> Seq<char> {
    let (y, m, d) = civil_date((secs / 86400) as int);
    let t = secs % 86400;
    zero_pad(nat_decimal(y as nat), 4) + "-"@ + two_digits(m) + "-"@ + two_digits(d) + "T"@
        + two_digits((t / 3600) as int) + ":"@ + two_digits(((t % 3600) / 60) as int) + ":"@
        + two_digits((t % 60) as int) + "Z"@
}

/// The UTC timestamp `YYYY-MM-DDTHH:MM:SSZ` of `secs` seconds after the
/// UNIX epoch.
pub fn utc_iso8601(secs: u64) -> (r: String)
    ensures
        r@ == utc_timestamp(secs as nat),
{
    let days = secs / 86400;
    let time_of_day = secs % 86400;
    let hours = time_of_day / 3600;
    let minutes = (time_of_day % 3600) / 60;
    let seconds = time_of_day % 60;
    let (year, month, day) = days_to_ymd(days);
    let mut out = String::new();
    push_zero_padded(&mut out, year, 4);
    push_str(&mut out, "-");
    push_zero_padded(&mut out, month, 2);
    push_str(&mut out, "-");
    push_zero_padded(&mut out, day, 2);
    push_str(&mut out, "T");
    push_zero_padded(&mut out, hours, 2);
    push_str(&mut out, ":");
    push_zero_padded(&mut out, minutes, 2);
    push_str(&mut out, ":");
    push_zero_padded(&mut out, seconds, 2);
    push_str(&mut out, "Z");
    proof {
        reveal_strlit("-");
        reveal_strlit("T");
        reveal_strlit(":");
        reveal_strlit("Z");
    }
    out
}

/// Seconds since the UNIX epoch by the system clock
/// (`SystemTime::now().duration_since(UNIX_EPOCH)`, zero if the clock is
/// before the epoch). It depends on the clock, so nothing is stated of it.
#[verifier::external_body]
fn unix_now_secs() -> (r: u64) {
    std::time::SystemTime::now().duration_since(std::time::UNIX_EPOCH).unwrap_or_default().as_secs()
}

/// The current UTC time as `YYYY-MM-DDTHH:MM:SSZ`.
pub fn utc_now_iso8601() -> (r: String)
    ensures
        exists|secs: u64| r@ == utc_timestamp(secs as nat),
{
    let secs = unix_now_secs();
    utc_iso8601(secs)
}

} // verus!
