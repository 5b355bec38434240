//! Bet-record reading decisions: input and outcome modes, column alias
//! resolution, outcome words, and the `--window` grammar.
use crate::coord_map::CoordMap;
use crate::simulate::{fits_i64, timestamp_key, timestamp_key_of, Outcome, TimeKey};
use crate::text::{
    ascii_lower, ascii_lower_chars, chars_of, join, push_joined, debug_str, err_debug, find_char, find_char_exec, has_prefix, lemma_find_char_found,
    lit, parse_usize, parse_usize_spec, push_str, slice_chars, starts_with_chars,
    str_debug, str_eq, string_of, trim, trim_chars,
};
use vstd::prelude::*;
use vstd::utf8::encode_utf8;

pub mod records;

verus! {

/// The serialization the records came from.
#[derive(Debug, Clone, Copy, PartialEq, Eq, Structural)]
pub enum InputFormat {
    Parquet,
    Jsonl,
}

impl InputFormat {
    /// The format's name in reports.
    pub fn as_str(self) -> (r: &'static str)
        ensures
            r@ == match self {
                InputFormat::Parquet => "parquet"@,
                InputFormat::Jsonl => "jsonl"@,
            },
    {
        match self {
            InputFormat::Parquet => "parquet",
            InputFormat::Jsonl => "jsonl",
        }
    }
}

/// How the outcome column was read.
#[derive(Debug, Clone, Copy, PartialEq, Eq, Structural)]
pub enum OutcomeMode {
    /// A 4-state outcome word was present and used as it is.
    Canonical,
    /// Binary 0/1 scored 1 as a win and 0 as a loss.
    LegacyBinary,
    /// Pushes reconstructed from `actual == line`.
    DerivedPushes,
}

impl OutcomeMode {
    /// The mode's name in reports.
    pub fn as_str(self) -> (r: &'static str)
        ensures
            r@ == match self {
                OutcomeMode::Canonical => "canonical"@,
                OutcomeMode::LegacyBinary => "legacy-binary"@,
                OutcomeMode::DerivedPushes => "derived-pushes"@,
            },
    {
        match self {
            OutcomeMode::Canonical => "canonical",
            OutcomeMode::LegacyBinary => "legacy-binary",
            OutcomeMode::DerivedPushes => "derived-pushes",
        }
    }
}

/// The outcome mode asked for on the command line.
#[derive(Debug, Clone, Copy, PartialEq, Eq, Structural)]
pub enum OutcomeModeRequest {
    /// A 4-state outcome is required; bare 0/1 is refused.
    Canonical,
    /// Binary 0/1 is allowed.
    LegacyBinary,
}

/// A `--derive-pushes <actual>=<line>` request.
#[derive(Debug)]
pub struct DerivePushes {
    pub actual_col: String,
    pub line_col: String,
}

// ---------------------------------------------------------------------------
// Columns
// ---------------------------------------------------------------------------

/// The source names tried for a canonical field, in order.
pub open spec fn aliases_spec(canonical: Seq<char>) -> Seq<Seq<char>> {
    if canonical == "bet_id"@ {
        seq!["bet_id"@, "game_pk"@, "id"@]
    } else if canonical == "timestamp"@ {
        seq!["timestamp"@, "commence_time"@, "ts"@, "date"@]
    } else if canonical == "p_bet_side"@ {
        seq!["p_bet_side"@, "p"@, "prob"@]
    } else if canonical == "decimal_odds"@ {
        seq!["decimal_odds"@, "odds"@]
    } else if canonical == "outcome"@ {
        seq!["outcome"@, "won"@, "result"@]
    } else {
        Seq::empty()
    }
}

pub open spec fn strs_view(v: Seq<&str>) -> Seq<Seq<char>> {
    v.map_values(|s: &str| s@)
}

/// The source names tried for a canonical field, in order.
pub fn aliases(canonical: &str) -> (r: Vec<&'static str>)
    ensures
        strs_view(r@) == aliases_spec(canonical@),
{
    let r: Vec<&'static str> = if str_eq(canonical, "bet_id") {
        vec!["bet_id", "game_pk", "id"]
    } else if str_eq(canonical, "timestamp") {
        vec!["timestamp", "commence_time", "ts", "date"]
    } else if str_eq(canonical, "p_bet_side") {
        vec!["p_bet_side", "p", "prob"]
    } else if str_eq(canonical, "decimal_odds") {
        vec!["decimal_odds", "odds"]
    } else if str_eq(canonical, "outcome") {
        vec!["outcome", "won", "result"]
    } else {
        Vec::new()
    };
    assert(strs_view(r@) =~= aliases_spec(canonical@));
    r
}

/// Whether `c` is one of the columns.
fn has_column(columns: &[String], c: &str) -> (r: bool)
    ensures
        r == columns.deep_view().contains(c@),
{
    let mut i: usize = 0;
    while i < columns.len()
        invariant
            i <= columns@.len(),
            forall|j: int| 0 <= j < i ==> columns.deep_view()[j] != c@,
        decreases columns@.len() - i,
    {
        assert(columns.deep_view()[i as int] == columns@[i as int]@);
        if str_eq(columns[i].as_str(), c) {
            assert(columns.deep_view()[i as int] == c@);
            return true;
        }
        i += 1;
    }
    false
}

/// The first candidate present among the columns.
pub open spec fn first_present(cands: Seq<Seq<char>>, cols: Seq<Seq<char>>) -> Option<Seq<char>>
    decreases cands.len(),
{
    if cands.len() == 0 {
        None
    } else if cols.contains(cands[0]) {
        Some(cands[0])
    } else {
        first_present(cands.drop_first(), cols)
    }
}

/// The source column of a canonical field: an explicit override first,
/// else the first alias present among the columns.
pub open spec fn resolve_spec(
    canonical: Seq<char>,
    cols: Seq<Seq<char>>,
    overrides: Map<Seq<char>, Seq<char>>,
) -> Option<Seq<char>> {
    if overrides.contains_key(canonical) {
        Some(overrides[canonical])
    } else {
        first_present(aliases_spec(canonical), cols)
    }
}

/// Resolve a canonical field to a source column.
pub fn resolve_column(canonical: &str, columns: &[String], overrides: &CoordMap) -> (r: Option<
    String,
>)
    ensures
        r.deep_view() == resolve_spec(canonical@, columns.deep_view(), overrides.map()),
{
    if let Some(src) = overrides.get(canonical) {
        return Some(src.clone());
    }
    let cands = aliases(canonical);
    let ghost cv = strs_view(cands@);
    let mut i: usize = 0;
    assert(cv.skip(0) =~= cv);
    while i < cands.len()
        invariant
            i <= cands@.len(),
            cv == strs_view(cands@),
            cv == aliases_spec(canonical@),
            !overrides.map().contains_key(canonical@),
            resolve_spec(canonical@, columns.deep_view(), overrides.map()) == first_present(
                cv.skip(i as int),
                columns.deep_view(),
            ),
        decreases cands@.len() - i,
    {
        let c = cands[i];
        assert(cv.skip(i as int)[0] == c@);
        assert(cv.skip(i as int).drop_first() =~= cv.skip(i as int + 1));
        if has_column(columns, c) {
            return Some(lit(c));
        }
        i += 1;
    }
    None
}

/// Both `actual_total` and `line` present: pushes can be derived from them.
pub open spec fn derive_columns(cols: Seq<Seq<char>>) -> bool {
    cols.contains("actual_total"@) && cols.contains("line"@)
}

/// The score/line column pair pushes are derived from by default, when
/// both columns are present.
pub fn can_derive_pushes(columns: &[String]) -> (r: Option<DerivePushes>)
    ensures
        r is Some <==> derive_columns(columns.deep_view()),
        r matches Some(d) ==> d.actual_col@ == "actual_total"@ && d.line_col@ == "line"@,
{
    if has_column(columns, "actual_total") && has_column(columns, "line") {
        Some(DerivePushes { actual_col: lit("actual_total"), line_col: lit("line") })
    } else {
        None
    }
}


/// The error for a required column that is not present.
pub open spec fn missing_col_spec(canonical: Seq<char>, cols: Seq<Seq<char>>) -> Seq<char> {
    "required column for "@ + str_debug(canonical) + " not found (looked for "@ + join(
        aliases_spec(canonical),
        "/"@,
    ) + "). Present columns: "@ + join(cols, ", "@) + ". Use --columns "@ + canonical
        + "=<source> or a {records}.schema.json sidecar."@
}

/// The error for a required column that is not present.
pub fn missing_col(canonical: &str, columns: &[String]) -> (r: String)
    ensures
        r@ == missing_col_spec(canonical@, columns.deep_view()),
{
    let cands = aliases(canonical);
    let mut names: Vec<String> = Vec::new();
    let mut i: usize = 0;
    while i < cands.len()
        invariant
            i <= cands@.len(),
            names.deep_view() == strs_view(cands@).take(i as int),
        decreases cands@.len() - i,
    {
        let ghost prev = names.deep_view();
        names.push(lit(cands[i]));
        assert(names.deep_view() =~= prev.push(cands@[i as int]@));
        assert(strs_view(cands@).take(i as int + 1) =~= strs_view(cands@).take(i as int).push(
            cands@[i as int]@,
        ));
        i += 1;
    }
    assert(strs_view(cands@).take(cands@.len() as int) =~= strs_view(cands@));
    let mut cols: Vec<String> = Vec::new();
    let mut j: usize = 0;
    while j < columns.len()
        invariant
            j <= columns@.len(),
            cols.deep_view() == columns.deep_view().take(j as int),
        decreases columns@.len() - j,
    {
        let ghost prev = cols.deep_view();
        cols.push(columns[j].clone());
        assert(cols.deep_view() =~= prev.push(columns@[j as int]@));
        assert(columns.deep_view().take(j as int + 1) =~= columns.deep_view().take(j as int).push(
            columns@[j as int]@,
        ));
        j += 1;
    }
    assert(columns.deep_view().take(columns@.len() as int) =~= columns.deep_view());
    let mut m = lit("required column for ");
    let d = debug_str(canonical);
    push_str(&mut m, d.as_str());
    push_str(&mut m, " not found (looked for ");
    push_joined(&mut m, &names, "/");
    push_str(&mut m, "). Present columns: ");
    push_joined(&mut m, &cols, ", ");
    push_str(&mut m, ". Use --columns ");
    push_str(&mut m, canonical);
    push_str(&mut m, "=<source> or a {records}.schema.json sidecar.");
    m
}

// ---------------------------------------------------------------------------
// Outcome words
// ---------------------------------------------------------------------------

/// The outcome a (trimmed, case-folded) outcome word names.
pub open spec fn outcome_word(s: Seq<char>) -> Result<Outcome, Seq<char>> {
    let l = ascii_lower(trim(s));
    if l == "win"@ || l == "won"@ || l == "w"@ {
        Ok(Outcome::Win)
    } else if l == "loss"@ || l == "lose"@ || l == "lost"@ || l == "l"@ {
        Ok(Outcome::Loss)
    } else if l == "push"@ || l == "tie"@ || l == "p"@ {
        Ok(Outcome::Push)
    } else if l == "void"@ || l == "v"@ || l == "no_action"@ || l == "postponed"@ {
        Ok(Outcome::Void)
    } else if l == "1"@ || l == "0"@ {
        Err("outcome value "@ + str_debug(s) + " is binary; pass --outcome-mode legacy-binary"@)
    } else {
        Err("unknown outcome value "@ + str_debug(l) + "; expected win/loss/push/void"@)
    }
}

/// Read a 4-state outcome word.
pub fn parse_outcome_enum(s: &str) -> (r: Result<Outcome, String>)
    ensures
        match r {
            Ok(o) => outcome_word(s@) == Ok::<Outcome, Seq<char>>(o),
            Err(e) => outcome_word(s@) == Err::<Outcome, Seq<char>>(e@),
        },
{
    let cs = chars_of(s);
    let t = trim_chars(&cs);
    let lc = ascii_lower_chars(&t);
    let l = string_of(&lc);
    let w = l.as_str();
    if str_eq(w, "win") || str_eq(w, "won") || str_eq(w, "w") {
        Ok(Outcome::Win)
    } else if str_eq(w, "loss") || str_eq(w, "lose") || str_eq(w, "lost") || str_eq(w, "l") {
        Ok(Outcome::Loss)
    } else if str_eq(w, "push") || str_eq(w, "tie") || str_eq(w, "p") {
        Ok(Outcome::Push)
    } else if str_eq(w, "void") || str_eq(w, "v") || str_eq(w, "no_action") || str_eq(
        w,
        "postponed",
    ) {
        Ok(Outcome::Void)
    } else if str_eq(w, "1") || str_eq(w, "0") {
        let mut m = lit("outcome value ");
        let d = debug_str(s);
        push_str(&mut m, d.as_str());
        push_str(&mut m, " is binary; pass --outcome-mode legacy-binary");
        Err(m)
    } else {
        let mut m = lit("unknown outcome value ");
        let d = debug_str(w);
        push_str(&mut m, d.as_str());
        push_str(&mut m, "; expected win/loss/push/void");
        Err(m)
    }
}

// ---------------------------------------------------------------------------
// Window
// ---------------------------------------------------------------------------

/// Which records a replay keeps, after filtering.
#[derive(Debug, Clone, Copy, PartialEq, Eq, Structural)]
pub enum Window {
    All,
    First(usize),
    /// Records whose key lies within these epoch seconds, both included.
    Range(i64, i64),
}

/// The key of a `--window range` bound: a date-only end bound (ten bytes)
/// takes the last second of its day.
pub open spec fn date_bound_key(s: Seq<char>, is_end: bool) -> TimeKey {
    match timestamp_key(s) {
        TimeKey::Seconds(v) => if is_end && encode_utf8(s).len() == 10 {
            if fits_i64(v + 86399) {
                TimeKey::Seconds((v + 86399) as i64)
            } else {
                TimeKey::Overflow
            }
        } else {
            TimeKey::Seconds(v)
        },
        k => k,
    }
}

fn date_bound_key_of(s: &str, is_end: bool) -> (r: TimeKey)
    ensures
        r == date_bound_key(s@, is_end),
{
    match timestamp_key_of(s) {
        TimeKey::Seconds(v) => {
            let n = s.as_bytes().len();
            if is_end && n == 10 {
                match v.checked_add(86399) {
                    Some(w) => TimeKey::Seconds(w),
                    None => TimeKey::Overflow,
                }
            } else {
                TimeKey::Seconds(v)
            }
        },
        k => k,
    }
}

/// Parse a `--window range` bound.
pub fn parse_date_bound(s: &str, is_end: bool) -> (r: Option<i64>)
    requires
        date_bound_key(s@, is_end) != TimeKey::Overflow,
    ensures
        r == (match date_bound_key(s@, is_end) {
            TimeKey::Seconds(v) => Some(v),
            _ => None::<i64>,
        }),
{
    match date_bound_key_of(s, is_end) {
        TimeKey::Seconds(v) => Some(v),
        _ => None,
    }
}

/// What a `--window` argument reads as.
#[derive(Debug)]
pub enum WindowRead {
    Parsed(Window),
    Refused(String),
    /// A range bound whose key leaves `i64`.
    Overflow,
}

/// The value a [`WindowRead`] stands for.
pub enum WindowModel {
    Parsed(Window),
    Refused(Seq<char>),
    Overflow,
}

pub open spec fn window_read_model(w: WindowRead) -> WindowModel {
    match w {
        WindowRead::Parsed(x) => WindowModel::Parsed(x),
        WindowRead::Refused(e) => WindowModel::Refused(e@),
        WindowRead::Overflow => WindowModel::Overflow,
    }
}

/// The `--window` grammar: `all`, `first:<n>`, or `range:<start>:<end>`
/// (split at the first `:` after `range:`).
pub open spec fn window_spec(input: Seq<char>) -> WindowModel {
    let t = trim(input);
    if t == "all"@ {
        WindowModel::Parsed(Window::All)
    } else if has_prefix(t, "first:"@) {
        let rest = t.subrange(6, t.len() as int);
        match parse_usize_spec(trim(rest)) {
            Some(n) => WindowModel::Parsed(Window::First(n)),
            None => WindowModel::Refused("--window first: expects an integer, got "@ + str_debug(rest)),
        }
    } else if has_prefix(t, "range:"@) {
        let rest = t.subrange(6, t.len() as int);
        match find_char(rest, ':') {
            None => WindowModel::Refused(
                "--window range: expects range:<start>:<end>, got "@ + str_debug(rest),
            ),
            Some(k) => {
                let a = rest.subrange(0, k);
                let b = rest.subrange(k + 1, rest.len() as int);
                match date_bound_key(trim(a), false) {
                    TimeKey::Overflow => WindowModel::Overflow,
                    TimeKey::Unparsed => WindowModel::Refused(
                        "--window range start unparseable: "@ + str_debug(a),
                    ),
                    TimeKey::Seconds(start) => match date_bound_key(trim(b), true) {
                        TimeKey::Overflow => WindowModel::Overflow,
                        TimeKey::Unparsed => WindowModel::Refused(
                            "--window range end unparseable: "@ + str_debug(b),
                        ),
                        TimeKey::Seconds(end) => WindowModel::Parsed(Window::Range(start, end)),
                    },
                }
            },
        }
    } else {
        WindowModel::Refused(
            "--window must be all|first:<n>|range:<start>:<end>, got "@ + str_debug(t),
        )
    }
}

/// Read a `--window` argument, telling a refused argument from one whose
/// bounds leave `i64`.
pub fn read_window(input: &str) -> (r: WindowRead)
    ensures
        window_read_model(r) == window_spec(input@),
{
    let cs = chars_of(input);
    let tc = trim_chars(&cs);
    let t = string_of(&tc);
    if str_eq(t.as_str(), "all") {
        return WindowRead::Parsed(Window::All);
    }
    let first = chars_of("first:");
    let range = chars_of("range:");
    proof {
        reveal_strlit("first:");
        reveal_strlit("range:");
    }
    if starts_with_chars(&tc, &first) {
        let rest = slice_chars(&tc, 6, tc.len());
        let n = string_of(&trim_chars(&rest));
        match parse_usize(n.as_str()) {
            Some(v) => {
                return WindowRead::Parsed(Window::First(v));
            },
            None => {
                let r = string_of(&rest);
                return WindowRead::Refused(err_debug("--window first: expects an integer, got ", r.as_str()));
            },
        }
    }
    if starts_with_chars(&tc, &range) {
        let rest = slice_chars(&tc, 6, tc.len());
        proof {
            lemma_find_char_found(rest@, ':');
        }
        match find_char_exec(&rest, ':') {
            None => {
                let r = string_of(&rest);
                return WindowRead::Refused(
                    err_debug("--window range: expects range:<start>:<end>, got ", r.as_str()),
                );
            },
            Some(k) => {
                let n = rest.len();
                let a = slice_chars(&rest, 0, k);
                let b = slice_chars(&rest, k + 1, n);
                let at = string_of(&trim_chars(&a));
                let bt = string_of(&trim_chars(&b));
                match date_bound_key_of(at.as_str(), false) {
                    TimeKey::Overflow => {
                        return WindowRead::Overflow;
                    },
                    TimeKey::Unparsed => {
                        let s = string_of(&a);
                        return WindowRead::Refused(
                            err_debug("--window range start unparseable: ", s.as_str()),
                        );
                    },
                    TimeKey::Seconds(start) => match date_bound_key_of(bt.as_str(), true) {
                        TimeKey::Overflow => {
                            return WindowRead::Overflow;
                        },
                        TimeKey::Unparsed => {
                            let s = string_of(&b);
                            return WindowRead::Refused(
                                err_debug("--window range end unparseable: ", s.as_str()),
                            );
                        },
                        TimeKey::Seconds(end) => {
                            return WindowRead::Parsed(Window::Range(start, end));
                        },
                    },
                }
            },
        }
    }
    WindowRead::Refused(err_debug("--window must be all|first:<n>|range:<start>:<end>, got ", t.as_str()))
}

/// Parse a `--window` argument.
pub fn parse_window(input: &str) -> (r: Result<Window, String>)
    requires
        window_spec(input@) != WindowModel::Overflow,
    ensures
        match r {
            Ok(w) => window_spec(input@) == WindowModel::Parsed(w),
            Err(e) => window_spec(input@) == WindowModel::Refused(e@),
        },
{
    match read_window(input) {
        WindowRead::Parsed(w) => Ok(w),
        WindowRead::Refused(e) => Err(e),
        WindowRead::Overflow => Err(String::new()),
    }
}

// ---------------------------------------------------------------------------
// The outcome column
// ---------------------------------------------------------------------------

/// What the outcome column holds over all records.
#[derive(Debug, Clone, Copy, PartialEq, Eq, Structural)]
pub enum OutcomeKind {
    /// Only outcome words (or out-of-range numbers).
    Enum,
    /// Only 0/1.
    Binary,
    /// No usable value.
    Empty,
    /// Both.
    Mixed,
}

/// One record's outcome cell as kind detection reads it; whether a number
/// lies within 1e-9 of 0 or 1 is the caller's floating-point verdict.
#[derive(Debug, Clone)]
pub enum OutcomeCell {
    Text(String),
    NearBinary,
    OtherNumber,
    Missing,
}

pub enum OutcomeCellModel {
    Text(Seq<char>),
    NearBinary,
    OtherNumber,
    Missing,
}

impl OutcomeCell {
    pub open spec fn model(&self) -> OutcomeCellModel {
        match self {
            OutcomeCell::Text(s) => OutcomeCellModel::Text(s@),
            OutcomeCell::NearBinary => OutcomeCellModel::NearBinary,
            OutcomeCell::OtherNumber => OutcomeCellModel::OtherNumber,
            OutcomeCell::Missing => OutcomeCellModel::Missing,
        }
    }
}

/// A cell that reads as binary: the text `0` or `1` (trimmed), or a
/// number near either.
pub open spec fn cell_binary(c: OutcomeCellModel) -> bool {
    match c {
        OutcomeCellModel::Text(t) => trim(t) == "0"@ || trim(t) == "1"@,
        OutcomeCellModel::NearBinary => true,
        _ => false,
    }
}

/// A cell that reads as an outcome word (or an out-of-range number).
pub open spec fn cell_enum(c: OutcomeCellModel) -> bool {
    match c {
        OutcomeCellModel::Text(t) => !(trim(t) == "0"@ || trim(t) == "1"@),
        OutcomeCellModel::OtherNumber => true,
        _ => false,
    }
}

/// The kind of a column from what its cells show.
pub open spec fn kind_of(cells: Seq<OutcomeCellModel>) -> OutcomeKind {
    let saw_enum = exists|i: int| 0 <= i < cells.len() && cell_enum(#[trigger] cells[i]);
    let saw_binary = exists|i: int| 0 <= i < cells.len() && cell_binary(#[trigger] cells[i]);
    if saw_enum && !saw_binary {
        OutcomeKind::Enum
    } else if !saw_enum && saw_binary {
        OutcomeKind::Binary
    } else if !saw_enum && !saw_binary {
        OutcomeKind::Empty
    } else {
        OutcomeKind::Mixed
    }
}

pub open spec fn cell_models(v: Seq<OutcomeCell>) -> Seq<OutcomeCellModel> {
    v.map_values(|c: OutcomeCell| c.model())
}

/// The kind of the outcome column.
pub fn detect_outcome_kind(cells: &Vec<OutcomeCell>) -> (r: OutcomeKind)
    ensures
        r == kind_of(cell_models(cells@)),
{
    let ghost m = cell_models(cells@);
    let mut saw_enum = false;
    let mut saw_binary = false;
    let mut i: usize = 0;
    while i < cells.len()
        invariant
            i <= cells@.len() == m.len(),
            m == cell_models(cells@),
            saw_enum <==> exists|j: int| 0 <= j < i && cell_enum(#[trigger] m[j]),
            saw_binary <==> exists|j: int| 0 <= j < i && cell_binary(#[trigger] m[j]),
        decreases cells@.len() - i,
    {
        assert(m[i as int] == cells@[i as int].model());
        match &cells[i] {
            OutcomeCell::Text(s) => {
                let cs = chars_of(s.as_str());
                let t = string_of(&trim_chars(&cs));
                if str_eq(t.as_str(), "0") || str_eq(t.as_str(), "1") {
                    saw_binary = true;
                } else {
                    saw_enum = true;
                }
            },
            OutcomeCell::NearBinary => {
                saw_binary = true;
            },
            OutcomeCell::OtherNumber => {
                saw_enum = true;
            },
            OutcomeCell::Missing => {},
        }
        i += 1;
    }
    if saw_enum && !saw_binary {
        OutcomeKind::Enum
    } else if !saw_enum && saw_binary {
        OutcomeKind::Binary
    } else if !saw_enum && !saw_binary {
        OutcomeKind::Empty
    } else {
        OutcomeKind::Mixed
    }
}

/// How the outcome column will be scored, and what the report warns of.
#[derive(Debug)]
pub struct OutcomePlan {
    pub derive: Option<DerivePushes>,
    pub mode: OutcomeMode,
    pub warnings: Vec<String>,
}

pub struct PlanModel {
    pub derive: Option<(Seq<char>, Seq<char>)>,
    pub mode: OutcomeMode,
    pub warnings: Seq<Seq<char>>,
}

impl OutcomePlan {
    pub open spec fn model(&self) -> PlanModel {
        PlanModel {
            derive: match self.derive {
                Some(d) => Some((d.actual_col@, d.line_col@)),
                None => None,
            },
            mode: self.mode,
            warnings: self.warnings.deep_view(),
        }
    }
}

/// The legacy-binary warning.
pub open spec fn legacy_warning() -> Seq<char> {
    "outcome scored as legacy-binary (1→win, 0→loss): pushes are counted as wins/losses, so the bankroll is INACCURATE — not merely approximate. Any integer-line game landing exactly on the line is a push being mis-scored; for direction-skewed models (mostly-OVER or mostly-UNDER) the error COMPOUNDS across the season. `win_rate` may also be inflated by these undetected pushes. legacy-binary is intended only for reproducing a known-published number; for an accurate bankroll provide a 4-state outcome column or score/line columns (actual_total + line) so pushes auto-derive."@
}

/// The note that pushes were derived from the named columns.
pub open spec fn derived_warning(actual: Seq<char>, line: Seq<char>) -> Seq<char> {
    "pushes auto-derived where ("@ + actual + " - "@ + line
        + ").abs() < 1e-9 → push (4-state outcome reconstructed from the binary score + line columns); pushes are neutral (stake returned)."@
}

/// The scoring decision. Push derivation is the default whenever it is
/// possible: `--no-derive-pushes` turns it off, an explicit
/// `--derive-pushes` pair must name present columns, and otherwise the
/// default pair is used over a binary(-ish) column when both are present.
/// A binary column that cannot derive pushes needs `legacy-binary`.
pub open spec fn outcome_plan_spec(
    kind: OutcomeKind,
    req: OutcomeModeRequest,
    derive: Option<(Seq<char>, Seq<char>)>,
    no_derive: bool,
    cols: Seq<Seq<char>>,
    outcome_col: Seq<char>,
) -> Result<PlanModel, Seq<char>> {
    let binary_ish = kind == OutcomeKind::Binary || kind == OutcomeKind::Mixed;
    let eff: Result<Option<(Seq<char>, Seq<char>)>, Seq<char>> = if no_derive {
        Ok(None)
    } else {
        match derive {
            Some(d) => if !cols.contains(d.0) || !cols.contains(d.1) {
                Err(
                    "--derive-pushes needs both "@ + str_debug(d.0) + " and "@ + str_debug(d.1)
                        + " columns; present: "@ + join(cols, ", "@),
                )
            } else {
                Ok(Some(d))
            },
            None => if binary_ish && derive_columns(cols) {
                Ok(Some(("actual_total"@, "line"@)))
            } else {
                Ok(None)
            },
        }
    };
    match eff {
        Err(e) => Err(e),
        Ok(ed) => {
            let mode: Result<OutcomeMode, Seq<char>> = if ed is Some {
                Ok(OutcomeMode::DerivedPushes)
            } else {
                match kind {
                    OutcomeKind::Enum => Ok(OutcomeMode::Canonical),
                    OutcomeKind::Binary => if req == OutcomeModeRequest::LegacyBinary {
                        Ok(OutcomeMode::LegacyBinary)
                    } else {
                        Err(
                            "outcome column "@ + str_debug(outcome_col)
                                + " is binary 0/1 and no push-derivable score columns (actual_total + line) were found. The 4-state outcome (win/loss/push/void) is required by default. Provide a 4-state outcome column, pass `--derive-pushes <actual>=<line>` to name your score/line columns, or `--outcome-mode legacy-binary` to score 1→win/0→loss (INACCURATE: any integer-line push is mis-scored)."@,
                        )
                    },
                    OutcomeKind::Empty => Err(
                        "outcome column "@ + str_debug(outcome_col) + " has no usable values"@,
                    ),
                    OutcomeKind::Mixed => if req == OutcomeModeRequest::LegacyBinary {
                        Ok(OutcomeMode::LegacyBinary)
                    } else {
                        Ok(OutcomeMode::Canonical)
                    },
                }
            };
            match mode {
                Err(e) => Err(e),
                Ok(md) => {
                    let w1: Seq<Seq<char>> = if md == OutcomeMode::LegacyBinary {
                        seq![legacy_warning()]
                    } else {
                        seq![]
                    };
                    let w2: Seq<Seq<char>> = match ed {
                        Some(d) => w1.push(derived_warning(d.0, d.1)),
                        None => w1,
                    };
                    Ok(PlanModel { derive: ed, mode: md, warnings: w2 })
                },
            }
        },
    }
}

/// Decide how the outcome column is scored.
pub fn plan_outcome(
    kind: OutcomeKind,
    req: OutcomeModeRequest,
    derive: &Option<DerivePushes>,
    no_derive: bool,
    columns: &[String],
    outcome_col: &str,
) -> (r: Result<OutcomePlan, String>)
    ensures
        match r {
            Ok(p) => outcome_plan_spec(
                kind,
                req,
                match derive {
                    Some(d) => Some((d.actual_col@, d.line_col@)),
                    None => None,
                },
                no_derive,
                columns.deep_view(),
                outcome_col@,
            ) == Ok::<PlanModel, Seq<char>>(p.model()),
            Err(e) => outcome_plan_spec(
                kind,
                req,
                match derive {
                    Some(d) => Some((d.actual_col@, d.line_col@)),
                    None => None,
                },
                no_derive,
                columns.deep_view(),
                outcome_col@,
            ) == Err::<PlanModel, Seq<char>>(e@),
        },
{
    let binary_ish = kind == OutcomeKind::Binary || kind == OutcomeKind::Mixed;
    let eff: Option<DerivePushes> = if no_derive {
        None
    } else {
        match derive {
            Some(d) => {
                if !has_column(columns, d.actual_col.as_str()) || !has_column(columns, d.line_col.as_str()) {
                    let mut m = err_debug("--derive-pushes needs both ", d.actual_col.as_str());
                    let b = debug_str(d.line_col.as_str());
                    push_str(&mut m, " and ");
                    push_str(&mut m, b.as_str());
                    push_str(&mut m, " columns; present: ");
                    let cols = columns_vec(columns);
                    push_joined(&mut m, &cols, ", ");
                    return Err(m);
                }
                Some(DerivePushes { actual_col: d.actual_col.clone(), line_col: d.line_col.clone() })
            },
            None => {
                if binary_ish {
                    can_derive_pushes(columns)
                } else {
                    None
                }
            },
        }
    };
    let mode = if eff.is_some() {
        OutcomeMode::DerivedPushes
    } else {
        match kind {
            OutcomeKind::Enum => OutcomeMode::Canonical,
            OutcomeKind::Binary => {
                if req == OutcomeModeRequest::LegacyBinary {
                    OutcomeMode::LegacyBinary
                } else {
                    let mut m = err_debug("outcome column ", outcome_col);
                    push_str(
                        &mut m,
                        " is binary 0/1 and no push-derivable score columns (actual_total + line) were found. The 4-state outcome (win/loss/push/void) is required by default. Provide a 4-state outcome column, pass `--derive-pushes <actual>=<line>` to name your score/line columns, or `--outcome-mode legacy-binary` to score 1→win/0→loss (INACCURATE: any integer-line push is mis-scored).",
                    );
                    return Err(m);
                }
            },
            OutcomeKind::Empty => {
                let mut m = err_debug("outcome column ", outcome_col);
                push_str(&mut m, " has no usable values");
                return Err(m);
            },
            OutcomeKind::Mixed => {
                if req == OutcomeModeRequest::LegacyBinary {
                    OutcomeMode::LegacyBinary
                } else {
                    OutcomeMode::Canonical
                }
            },
        }
    };
    let mut warnings: Vec<String> = Vec::new();
    assert(warnings.deep_view() =~= Seq::<Seq<char>>::empty());
    if mode == OutcomeMode::LegacyBinary {
        warnings.push(
            lit(
                "outcome scored as legacy-binary (1→win, 0→loss): pushes are counted as wins/losses, so the bankroll is INACCURATE — not merely approximate. Any integer-line game landing exactly on the line is a push being mis-scored; for direction-skewed models (mostly-OVER or mostly-UNDER) the error COMPOUNDS across the season. `win_rate` may also be inflated by these undetected pushes. legacy-binary is intended only for reproducing a known-published number; for an accurate bankroll provide a 4-state outcome column or score/line columns (actual_total + line) so pushes auto-derive.",
            ),
        );
    }
    assert(warnings.deep_view() =~= (if mode == OutcomeMode::LegacyBinary {
        seq![legacy_warning()]
    } else {
        Seq::<Seq<char>>::empty()
    }));
    let ghost w1 = warnings.deep_view();
    if let Some(d) = &eff {
        let mut m = lit("pushes auto-derived where (");
        push_str(&mut m, d.actual_col.as_str());
        push_str(&mut m, " - ");
        push_str(&mut m, d.line_col.as_str());
        push_str(
            &mut m,
            ").abs() < 1e-9 → push (4-state outcome reconstructed from the binary score + line columns); pushes are neutral (stake returned).",
        );
        warnings.push(m);
        assert(warnings.deep_view() =~= w1.push(m@));
    }
    Ok(OutcomePlan { derive: eff, mode, warnings })
}

/// A copy of the column names.
fn columns_vec(columns: &[String]) -> (r: Vec<String>)
    ensures
        r.deep_view() == columns.deep_view(),
{
    let mut cols: Vec<String> = Vec::new();
    let mut j: usize = 0;
    while j < columns.len()
        invariant
            j <= columns@.len(),
            cols.deep_view() == columns.deep_view().take(j as int),
        decreases columns@.len() - j,
    {
        let ghost prev = cols.deep_view();
        cols.push(columns[j].clone());
        assert(cols.deep_view() =~= prev.push(columns@[j as int]@));
        assert(columns.deep_view().take(j as int + 1) =~= columns.deep_view().take(j as int).push(
            columns@[j as int]@,
        ));
        j += 1;
    }
    assert(columns.deep_view().take(columns@.len() as int) =~= columns.deep_view());
    cols
}

// ---------------------------------------------------------------------------
// One record's outcome
// ---------------------------------------------------------------------------

/// A record's outcome cell. For a number, whether it lies within 1e-9 of
/// one or of zero, and how it prints, are the caller's floating-point
/// verdicts.
#[derive(Debug, Clone)]
pub enum OutcomeValue {
    Text(String),
    Number { near_one: bool, near_zero: bool, shown: String },
    Missing,
}

pub enum OutcomeValueModel {
    Text(Seq<char>),
    Number(bool, bool, Seq<char>),
    Missing,
}

impl OutcomeValue {
    pub open spec fn model(&self) -> OutcomeValueModel {
        match self {
            OutcomeValue::Text(s) => OutcomeValueModel::Text(s@),
            OutcomeValue::Number { near_one, near_zero, shown } => OutcomeValueModel::Number(
                *near_one,
                *near_zero,
                shown@,
            ),
            OutcomeValue::Missing => OutcomeValueModel::Missing,
        }
    }
}

pub open spec fn missing_outcome(col: Seq<char>) -> Seq<char> {
    "outcome column "@ + str_debug(col) + " is missing/null in a record"@
}

/// A number scored as binary: near one wins, near zero loses.
pub open spec fn binary_number(near_one: bool, near_zero: bool, shown: Seq<char>, col: Seq<char>) -> Result<
    Outcome,
    Seq<char>,
> {
    if near_one {
        Ok(Outcome::Win)
    } else if near_zero {
        Ok(Outcome::Loss)
    } else {
        Err("outcome column "@ + str_debug(col) + " has non-binary numeric value "@ + shown
            + "; expected 0 or 1"@)
    }
}

/// A cell scored as binary: `1`/`0` (as numbers or trimmed text), else an
/// outcome word.
pub open spec fn binary_value(v: OutcomeValueModel, col: Seq<char>) -> Result<Outcome, Seq<char>> {
    match v {
        OutcomeValueModel::Number(one, zero, shown) => binary_number(one, zero, shown, col),
        OutcomeValueModel::Text(s) => if trim(s) == "1"@ {
            Ok(Outcome::Win)
        } else if trim(s) == "0"@ {
            Ok(Outcome::Loss)
        } else {
            outcome_word(s)
        },
        OutcomeValueModel::Missing => Err(missing_outcome(col)),
    }
}

/// A record's outcome under the scoring mode. Under derived pushes,
/// `derived_push` (the caller's verdict that the record's score equals
/// its line) makes a push, and otherwise the cell is scored as binary.
pub open spec fn normalize_spec(v: OutcomeValueModel, col: Seq<char>, mode: OutcomeMode, derived_push: bool) -> Result<
    Outcome,
    Seq<char>,
> {
    if mode == OutcomeMode::DerivedPushes {
        if derived_push {
            Ok(Outcome::Push)
        } else {
            binary_value(v, col)
        }
    } else {
        match v {
            OutcomeValueModel::Text(s) => outcome_word(s),
            OutcomeValueModel::Number(one, zero, shown) => if mode == OutcomeMode::LegacyBinary {
                binary_number(one, zero, shown, col)
            } else {
                Err(
                    "outcome column "@ + str_debug(col)
                        + " is numeric 0/1 (binary). The 4-state outcome (win/loss/push/void) is required. Re-run with `--outcome-mode legacy-binary` to score 1→win/0→loss (pushes/voids approximated), or `--derive-pushes actual_total=line` to reconstruct pushes."@,
                )
            },
            OutcomeValueModel::Missing => Err(missing_outcome(col)),
        }
    }
}

fn binary_from_num(near_one: bool, near_zero: bool, shown: &str, col: &str) -> (r: Result<Outcome, String>)
    ensures
        match r {
            Ok(o) => binary_number(near_one, near_zero, shown@, col@) == Ok::<Outcome, Seq<char>>(o),
            Err(e) => binary_number(near_one, near_zero, shown@, col@) == Err::<Outcome, Seq<char>>(e@),
        },
{
    if near_one {
        Ok(Outcome::Win)
    } else if near_zero {
        Ok(Outcome::Loss)
    } else {
        let mut m = err_debug("outcome column ", col);
        push_str(&mut m, " has non-binary numeric value ");
        push_str(&mut m, shown);
        push_str(&mut m, "; expected 0 or 1");
        Err(m)
    }
}

fn missing_outcome_err(col: &str) -> (r: String)
    ensures
        r@ == missing_outcome(col@),
{
    let mut m = err_debug("outcome column ", col);
    push_str(&mut m, " is missing/null in a record");
    m
}

/// Score one record's outcome cell.
pub fn normalize_outcome(value: &OutcomeValue, outcome_col: &str, mode: OutcomeMode, derived_push: bool) -> (r: Result<
    Outcome,
    String,
>)
    ensures
        match r {
            Ok(o) => normalize_spec(value.model(), outcome_col@, mode, derived_push) == Ok::<Outcome, Seq<char>>(o),
            Err(e) => normalize_spec(value.model(), outcome_col@, mode, derived_push) == Err::<
                Outcome,
                Seq<char>,
            >(e@),
        },
{
    if mode == OutcomeMode::DerivedPushes {
        if derived_push {
            return Ok(Outcome::Push);
        }
        return match value {
            OutcomeValue::Number { near_one, near_zero, shown } => binary_from_num(
                *near_one,
                *near_zero,
                shown.as_str(),
                outcome_col,
            ),
            OutcomeValue::Text(s) => {
                let cs = chars_of(s.as_str());
                let t = string_of(&trim_chars(&cs));
                if str_eq(t.as_str(), "1") {
                    Ok(Outcome::Win)
                } else if str_eq(t.as_str(), "0") {
                    Ok(Outcome::Loss)
                } else {
                    parse_outcome_enum(s.as_str())
                }
            },
            OutcomeValue::Missing => Err(missing_outcome_err(outcome_col)),
        };
    }
    match value {
        OutcomeValue::Text(s) => parse_outcome_enum(s.as_str()),
        OutcomeValue::Number { near_one, near_zero, shown } => {
            if mode == OutcomeMode::LegacyBinary {
                binary_from_num(*near_one, *near_zero, shown.as_str(), outcome_col)
            } else {
                let mut m = err_debug("outcome column ", outcome_col);
                push_str(
                    &mut m,
                    " is numeric 0/1 (binary). The 4-state outcome (win/loss/push/void) is required. Re-run with `--outcome-mode legacy-binary` to score 1→win/0→loss (pushes/voids approximated), or `--derive-pushes actual_total=line` to reconstruct pushes.",
                );
                Err(m)
            }
        },
        OutcomeValue::Missing => Err(missing_outcome_err(outcome_col)),
    }
}

// ---------------------------------------------------------------------------
// Applying a window
// ---------------------------------------------------------------------------

/// Whether the record at position `i` (of keys `keys`) survives the window.
pub open spec fn in_window(w: Window, keys: Seq<i64>, i: int) -> bool {
    match w {
        Window::All => true,
        Window::First(n) => i < n,
        Window::Range(a, b) => a <= keys[i] <= b,
    }
}

/// The positions among the first `n` that the window keeps, in order.
pub open spec fn window_kept(w: Window, keys: Seq<i64>, n: nat) -> Seq<usize>
    decreases n,
{
    if n == 0 || n > keys.len() {
        Seq::empty()
    } else {
        let prev = window_kept(w, keys, (n - 1) as nat);
        if in_window(w, keys, n - 1) {
            prev.push((n - 1) as usize)
        } else {
            prev
        }
    }
}

/// The positions of the time-ordered (already filtered) records that a
/// window keeps: all of them, the first `n`, or those whose key lies in
/// the range (both ends included).
pub fn apply_window(keys: &Vec<i64>, window: Window) -> (r: Vec<usize>)
    ensures
        r@ == window_kept(window, keys@, keys@.len()),
{
    let mut kept: Vec<usize> = Vec::new();
    let mut i: usize = 0;
    while i < keys.len()
        invariant
            i <= keys@.len(),
            kept@ == window_kept(window, keys@, i as nat),
        decreases keys@.len() - i,
    {
        let keep = match window {
            Window::All => true,
            Window::First(n) => i < n,
            Window::Range(a, b) => a <= keys[i] && keys[i] <= b,
        };
        if keep {
            kept.push(i);
        }
        i += 1;
    }
    kept
}

} // verus!
