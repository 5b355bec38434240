//! `mc model simulate` command pieces: the output format, the metric
//! names a report can select, the `--resample` grammar, option values,
//! and outcome words.
use crate::coord_map::CoordMap;
use crate::simulate::filter::{
    lex_spec, record_filter_model, record_filter_spec, Filter, RecordErrorModel, RecordFilterError,
    RecordFilterModel,
};
use crate::cli::Parsed;
use crate::simulate::filter::{filter_input_panics, parse_filter};
use crate::simulate::odds::{odds_spec, parse_odds, OddsModel, OddsSource};
use crate::simulate::sizing::{parse_sizing, sizing_spec, SizingModel, SizingSpec};
use crate::simulate_reader::{
    parse_window, read_window, window_read_model, window_spec, DerivePushes, Window, WindowModel,
    WindowRead,
};
use crate::simulate::{Outcome, ReplayMode};
use crate::simulate_reader::OutcomeModeRequest;
use crate::simulate_metrics::Resample;
use crate::coord_map::sorted_insert;
use crate::text::join;
use crate::text::{
    chars_of, err_debug, find_char, find_char_exec, has_prefix, lemma_find_char_found, lit,
    float_text_syntax, is_float_text, parse_u64, parse_u64_spec, parse_usize, parse_usize_spec,
    push_str, starts_with_dashes, slice_chars, split_chars, split_on, starts_with_chars,
    str_debug, str_eq, string_of, trim, trim_chars,
};
use vstd::prelude::*;

verus! {

/// Output format of `simulate`.
#[derive(Debug, Clone, Copy, PartialEq, Eq, Structural)]
pub enum SimFormat {
    Text,
    Json,
}

/// The metrics a report can select with `--metric`, in display order.
pub open spec fn known_metrics() -> Seq<Seq<char>> {
    seq![
        "final_bank"@,
        "roi"@,
        "roi_per_bet"@,
        "total_staked"@,
        "n_bets"@,
        "win_rate"@,
        "max_drawdown"@,
        "recovery_bets"@,
        "sharpe"@,
        "p_underwater"@,
        "terminal_p5"@,
        "terminal_p50"@,
        "terminal_p95"@,
    ]
}

fn known_metric_list() -> (r: Vec<String>)
    ensures
        r.deep_view() == known_metrics(),
{
    let r = vec![
        lit("final_bank"),
        lit("roi"),
        lit("roi_per_bet"),
        lit("total_staked"),
        lit("n_bets"),
        lit("win_rate"),
        lit("max_drawdown"),
        lit("recovery_bets"),
        lit("sharpe"),
        lit("p_underwater"),
        lit("terminal_p5"),
        lit("terminal_p50"),
        lit("terminal_p95"),
    ];
    assert(r.deep_view() =~= known_metrics());
    r
}

/// A `--metric` selection: the name when it is a known metric, else the
/// error listing the known ones.
pub open spec fn metric_choice(v: Seq<char>) -> Result<Seq<char>, Seq<char>> {
    if known_metrics().contains(v) {
        Ok(v)
    } else {
        Err("unknown metric "@ + str_debug(v) + "; valid: "@ + join(known_metrics(), ", "@))
    }
}

/// Check a `--metric` selection.
pub fn check_metric(v: &str) -> (r: Result<String, String>)
    ensures
        match r {
            Ok(m) => metric_choice(v@) == Ok::<Seq<char>, Seq<char>>(m@),
            Err(e) => metric_choice(v@) == Err::<Seq<char>, Seq<char>>(e@),
        },
{
    let names = known_metric_list();
    let mut i: usize = 0;
    while i < names.len()
        invariant
            i <= names@.len(),
            names.deep_view() == known_metrics(),
            forall|j: int| 0 <= j < i ==> known_metrics()[j] != v@,
        decreases names@.len() - i,
    {
        assert(names.deep_view()[i as int] == names@[i as int]@);
        if str_eq(names[i].as_str(), v) {
            return Ok(lit(v));
        }
        i += 1;
    }
    let mut m = err_debug("unknown metric ", v);
    push_str(&mut m, "; valid: ");
    let mut k: usize = 0;
    let ghost start = m@;
    assert(known_metrics().take(0) =~= Seq::<Seq<char>>::empty());
    while k < names.len()
        invariant
            k <= names@.len(),
            names.deep_view() == known_metrics(),
            m@ == start + join(known_metrics().take(k as int), ", "@),
        decreases names@.len() - k,
    {
        assert(known_metrics().take(k as int + 1).drop_last() =~= known_metrics().take(k as int));
        assert(names.deep_view()[k as int] == names@[k as int]@);
        if k > 0 {
            push_str(&mut m, ", ");
        }
        push_str(&mut m, names[k].as_str());
        proof {
            if k == 0 {
                assert(known_metrics().take(1) =~= seq![known_metrics()[0]]);
            }
            assert(m@ =~= start + join(known_metrics().take(k as int + 1), ", "@));
        }
        k += 1;
    }
    assert(known_metrics().take(13) =~= known_metrics());
    Err(m)
}

/// The value following an option, or the error naming the option.
pub fn next_val(args: &[String], i: usize, flag: &str) -> (r: Result<String, String>)
    ensures
        match r {
            Ok(v) => i < args@.len() && v@ == args@[i as int]@,
            Err(e) => i >= args@.len() && e@ == flag@ + " requires an argument"@,
        },
{
    if i < args.len() {
        Ok(args[i].clone())
    } else {
        let mut m = lit(flag);
        push_str(&mut m, " requires an argument");
        Err(m)
    }
}

/// The `--resample` grammar: `iid`, `block:<len>` (at least 1), or
/// `block` (length chosen from the pool).
pub open spec fn resample_spec(input: Seq<char>) -> Result<Resample, Seq<char>> {
    let t = trim(input);
    if t == "iid"@ {
        Ok(Resample::Iid)
    } else if has_prefix(t, "block:"@) {
        let rest = t.subrange(6, t.len() as int);
        match parse_usize_spec(trim(rest)) {
            None => Err("--resample block: expects an integer length, got "@ + str_debug(rest)),
            Some(n) => if n == 0 {
                Err("--resample block length must be >= 1"@)
            } else {
                Ok(Resample::Block(n))
            },
        }
    } else if t == "block"@ {
        Ok(Resample::Block(0))
    } else {
        Err("--resample must be iid|block:<len>, got "@ + str_debug(t))
    }
}

/// Parse a `--resample` argument.
pub fn parse_resample(input: &str) -> (r: Result<Resample, String>)
    ensures
        match r {
            Ok(x) => resample_spec(input@) == Ok::<Resample, Seq<char>>(x),
            Err(e) => resample_spec(input@) == Err::<Resample, Seq<char>>(e@),
        },
{
    let cs = chars_of(input);
    let tc = trim_chars(&cs);
    let t = string_of(&tc);
    if str_eq(t.as_str(), "iid") {
        return Ok(Resample::Iid);
    }
    let prefix = chars_of("block:");
    proof {
        reveal_strlit("block:");
    }
    if starts_with_chars(&tc, &prefix) {
        let rest = slice_chars(&tc, 6, tc.len());
        let n = string_of(&trim_chars(&rest));
        return match parse_usize(n.as_str()) {
            None => {
                let r = string_of(&rest);
                Err(err_debug("--resample block: expects an integer length, got ", r.as_str()))
            },
            Some(len) => {
                if len == 0 {
                    Err(lit("--resample block length must be >= 1"))
                } else {
                    Ok(Resample::Block(len))
                }
            },
        };
    }
    if str_eq(t.as_str(), "block") {
        return Ok(Resample::Block(0));
    }
    Err(err_debug("--resample must be iid|block:<len>, got ", t.as_str()))
}

/// The outcome word written into curve rows.
pub fn outcome_str(o: Outcome) -> (r: &'static str)
    ensures
        r@ == match o {
            Outcome::Win => "win"@,
            Outcome::Loss => "loss"@,
            Outcome::Push => "push"@,
            Outcome::Void => "void"@,
        },
{
    match o {
        Outcome::Win => "win",
        Outcome::Loss => "loss",
        Outcome::Push => "push",
        Outcome::Void => "void",
    }
}

// ---------------------------------------------------------------------------
// Filter column references
// ---------------------------------------------------------------------------

/// The columns a record filter compares.
pub open spec fn filter_columns(f: RecordFilterModel) -> Set<Seq<char>>
    decreases f,
{
    match f {
        RecordFilterModel::And(a, b) => filter_columns(*a).union(filter_columns(*b)),
        RecordFilterModel::Or(a, b) => filter_columns(*a).union(filter_columns(*b)),
        RecordFilterModel::Not(a) => filter_columns(*a),
        RecordFilterModel::Cmp(c, _, _) => set![c],
    }
}

/// The columns of a filter as set members (keys with empty values).
pub open spec fn column_marks(f: RecordFilterModel) -> Map<Seq<char>, Seq<char>> {
    Map::new(|k: Seq<char>| filter_columns(f).contains(k), |k: Seq<char>| Seq::<char>::empty())
}

/// Add every column the filter compares to the set `out` (a map whose
/// keys are the members).
pub fn collect_filter_columns(f: &Filter, out: &mut CoordMap)
    ensures
        final(out).map() == old(out).map().union_prefer_right(column_marks(record_filter_model(*f))),
    decreases f,
{
    match f {
        Filter::And(a, b) | Filter::Or(a, b) => {
            collect_filter_columns(a, out);
            collect_filter_columns(b, out);
            assert(out.map() =~= old(out).map().union_prefer_right(
                column_marks(record_filter_model(*f)),
            ));
        },
        Filter::Not(a) => {
            collect_filter_columns(a, out);
            assert(column_marks(record_filter_model(**a)) =~= column_marks(record_filter_model(*f)));
        },
        Filter::Cmp(col, _, _) => {
            out.insert(col.clone(), String::new());
            assert(out.map() =~= old(out).map().union_prefer_right(
                column_marks(record_filter_model(*f)),
            ));
        },
    }
}

// ---------------------------------------------------------------------------
// Arguments
// ---------------------------------------------------------------------------

/// `--columns canonical=source,...`: each trimmed non-empty piece must
/// hold `=`; its trimmed sides are added to `acc` (a later pair for the
/// same name wins). Pieces are read in order and the first bad one is
/// the error.
pub open spec fn columns_add(acc: Seq<(Seq<char>, Seq<char>)>, pieces: Seq<Seq<char>>, n: nat) -> Result<
    Seq<(Seq<char>, Seq<char>)>,
    Seq<char>,
>
    decreases n,
{
    if n == 0 || n > pieces.len() {
        Ok(acc)
    } else {
        match columns_add(acc, pieces, (n - 1) as nat) {
            Err(e) => Err(e),
            Ok(m) => {
                let p = trim(pieces[n - 1]);
                if p.len() == 0 {
                    Ok(m)
                } else {
                    match find_char(p, '=') {
                        None => Err("--columns entry "@ + str_debug(p) + " must be canonical=source"@),
                        Some(e) => Ok(
                            sorted_insert(m, trim(p.subrange(0, e)), trim(p.subrange(e + 1, p.len() as int))),
                        ),
                    }
                }
            },
        }
    }
}

/// The pairs of one `--columns` value added to `acc`.
pub open spec fn columns_spec(acc: Seq<(Seq<char>, Seq<char>)>, v: Seq<char>) -> Result<
    Seq<(Seq<char>, Seq<char>)>,
    Seq<char>,
> {
    columns_add(acc, split_on(v, ','), split_on(v, ',').len())
}

/// Add the pairs of a `--columns` value to `map`.
fn add_columns(map: &mut CoordMap, v: &str) -> (r: Result<(), String>)
    ensures
        match columns_spec(old(map)@, v@) {
            Ok(m) => r is Ok && final(map)@ == m,
            Err(e) => r matches Err(x) && x@ == e,
        },
{
    let cs = chars_of(v);
    let pieces = split_chars(&cs, ',');
    let ghost ps = split_on(v@, ',');
    let ghost start = map@;
    let mut i: usize = 0;
    while i < pieces.len()
        invariant
            i <= pieces@.len(),
            cs@ == v@,
            ps == split_on(v@, ','),
            start == old(map)@,
            pieces@.len() == ps.len(),
            forall|k: int| 0 <= k < pieces@.len() ==> (#[trigger] pieces@[k])@ == ps[k],
            columns_add(start, ps, i as nat) == Ok::<Seq<(Seq<char>, Seq<char>)>, Seq<char>>(map@),
        decreases pieces@.len() - i,
    {
        let part = trim_chars(&pieces[i]);
        if part.len() > 0 {
            match find_char_exec(&part, '=') {
                Some(e) => {
                    proof {
                        lemma_find_char_found(part@, '=');
                    }
                    let kr = slice_chars(&part, 0, e);
                    let vr = slice_chars(&part, e + 1, part.len());
                    let k = trim_chars(&kr);
                    let val = trim_chars(&vr);
                    map.insert(string_of(&k), string_of(&val));
                },
                None => {
                    let shown = string_of(&part);
                    let mut m = err_debug("--columns entry ", shown.as_str());
                    push_str(&mut m, " must be canonical=source");
                    proof {
                        lemma_columns_err_sticks(start, ps, (i + 1) as nat, ps.len(), m@);
                    }
                    return Err(m);
                },
            }
        }
        i += 1;
    }
    Ok(())
}

proof fn lemma_columns_err_sticks(
    acc: Seq<(Seq<char>, Seq<char>)>,
    pieces: Seq<Seq<char>>,
    k: nat,
    n: nat,
    e: Seq<char>,
)
    requires
        k <= n <= pieces.len(),
        columns_add(acc, pieces, k) == Err::<Seq<(Seq<char>, Seq<char>)>, Seq<char>>(e),
    ensures
        columns_add(acc, pieces, n) == Err::<Seq<(Seq<char>, Seq<char>)>, Seq<char>>(e),
    decreases n - k,
{
    if k < n {
        lemma_columns_err_sticks(acc, pieces, k, (n - 1) as nat, e);
    }
}

// ---------------------------------------------------------------------------
// The `simulate` argument list
// ---------------------------------------------------------------------------

/// What the caller's floating-point parse makes of one argument. The
/// library never reads a number as a float; these verdicts decide the two
/// checks that need one.
#[derive(Debug, Clone)]
pub struct ArgReading {
    /// The argument reads as a number `n` with `n <= 0.0`.
    pub at_most_zero: bool,
    /// The argument, trimmed, is `fixed:<d>` whose trimmed `d` reads as a
    /// number of at most one: `d` as that number prints.
    pub low_fixed_odds: Option<String>,
}

pub open spec fn readings_model(v: Seq<ArgReading>) -> Seq<(bool, Option<Seq<char>>)> {
    v.map_values(|a: ArgReading| (a.at_most_zero, a.low_fixed_odds.deep_view()))
}

/// The verdict on argument `i` (an argument past the list reads as
/// nothing).
pub open spec fn at_most_zero_at(rd: Seq<(bool, Option<Seq<char>>)>, i: int) -> bool {
    0 <= i < rd.len() && rd[i].0
}

pub open spec fn low_odds_at(rd: Seq<(bool, Option<Seq<char>>)>, i: int) -> Option<Seq<char>> {
    if 0 <= i < rd.len() {
        rd[i].1
    } else {
        None
    }
}

/// What the argument loop has gathered; `odds` is the position of the
/// last `--odds` value.
pub struct SimState {
    pub cartridge: Option<Seq<char>>,
    pub bets: Option<Seq<char>>,
    pub bankroll: Option<Seq<char>>,
    pub sizing: Option<Seq<char>>,
    pub filter: Option<Seq<char>>,
    pub odds: Option<int>,
    pub monte_carlo: Option<usize>,
    pub resample: Option<Seq<char>>,
    pub window: Option<Seq<char>>,
    pub seed: Option<u64>,
    pub format: SimFormat,
    pub emit_curve: Option<Seq<char>>,
    pub columns: Seq<(Seq<char>, Seq<char>)>,
    pub outcome_mode: OutcomeModeRequest,
    pub derive: Option<(Seq<char>, Seq<char>)>,
    pub replay: ReplayMode,
    pub metrics: Seq<Seq<char>>,
}

/// Every option at its default.
pub open spec fn sim_init() -> SimState {
    SimState {
        cartridge: None,
        bets: None,
        bankroll: None,
        sizing: None,
        filter: None,
        odds: None,
        monte_carlo: None,
        resample: None,
        window: None,
        seed: None,
        format: SimFormat::Text,
        emit_curve: None,
        columns: Seq::empty(),
        outcome_mode: OutcomeModeRequest::Canonical,
        derive: None,
        replay: ReplayMode::Batch,
        metrics: Seq::empty(),
    }
}

/// One step of the argument loop.
pub enum SimStep {
    Next(nat, SimState),
    Help,
    Fail(Seq<char>),
}

pub open spec fn needs_value(flag: Seq<char>) -> Seq<char> {
    flag + " requires an argument"@
}

/// The option at position `i` and what it does to the state.
pub open spec fn sim_step(args: Seq<Seq<char>>, rd: Seq<(bool, Option<Seq<char>>)>, i: nat, st: SimState) -> SimStep {
    let a = args[i as int];
    let has_v = i + 1 < args.len();
    let v = args[i + 1 as int];
    if a == "--help"@ || a == "-h"@ {
        SimStep::Help
    } else if a == "--bets"@ {
        if !has_v { SimStep::Fail(needs_value(a)) } else { SimStep::Next(i + 2, SimState { bets: Some(v), ..st }) }
    } else if a == "--start-bankroll"@ {
        if !has_v {
            SimStep::Fail(needs_value(a))
        } else if !float_text_syntax(v) {
            SimStep::Fail("--start-bankroll expects a number, got "@ + str_debug(v))
        } else if at_most_zero_at(rd, i + 1 as int) {
            SimStep::Fail("--start-bankroll must be > 0"@)
        } else {
            SimStep::Next(i + 2, SimState { bankroll: Some(v), ..st })
        }
    } else if a == "--sizing"@ {
        if !has_v { SimStep::Fail(needs_value(a)) } else { SimStep::Next(i + 2, SimState { sizing: Some(v), ..st }) }
    } else if a == "--filter"@ {
        if !has_v { SimStep::Fail(needs_value(a)) } else { SimStep::Next(i + 2, SimState { filter: Some(v), ..st }) }
    } else if a == "--odds"@ {
        if !has_v { SimStep::Fail(needs_value(a)) } else { SimStep::Next(i + 2, SimState { odds: Some(i + 1 as int), ..st }) }
    } else if a == "--monte-carlo"@ {
        if !has_v {
            SimStep::Fail(needs_value(a))
        } else {
            match parse_usize_spec(v) {
                Some(n) => SimStep::Next(i + 2, SimState { monte_carlo: Some(n), ..st }),
                None => SimStep::Fail("--monte-carlo expects an integer, got "@ + str_debug(v)),
            }
        }
    } else if a == "--resample"@ {
        if !has_v { SimStep::Fail(needs_value(a)) } else { SimStep::Next(i + 2, SimState { resample: Some(v), ..st }) }
    } else if a == "--window"@ {
        if !has_v { SimStep::Fail(needs_value(a)) } else { SimStep::Next(i + 2, SimState { window: Some(v), ..st }) }
    } else if a == "--seed"@ {
        if !has_v {
            SimStep::Fail(needs_value(a))
        } else {
            match parse_u64_spec(v) {
                Some(n) => SimStep::Next(i + 2, SimState { seed: Some(n), ..st }),
                None => SimStep::Fail("--seed expects an unsigned integer, got "@ + str_debug(v)),
            }
        }
    } else if a == "--format"@ {
        if !has_v {
            SimStep::Fail(needs_value(a))
        } else if v == "text"@ {
            SimStep::Next(i + 2, SimState { format: SimFormat::Text, ..st })
        } else if v == "json"@ {
            SimStep::Next(i + 2, SimState { format: SimFormat::Json, ..st })
        } else {
            SimStep::Fail("--format must be text|json, got "@ + str_debug(v))
        }
    } else if a == "--emit-curve"@ {
        if !has_v { SimStep::Fail(needs_value(a)) } else { SimStep::Next(i + 2, SimState { emit_curve: Some(v), ..st }) }
    } else if a == "--columns"@ {
        if !has_v {
            SimStep::Fail(needs_value(a))
        } else {
            match columns_spec(st.columns, v) {
                Ok(m) => SimStep::Next(i + 2, SimState { columns: m, ..st }),
                Err(e) => SimStep::Fail(e),
            }
        }
    } else if a == "--outcome-mode"@ {
        if !has_v {
            SimStep::Fail(needs_value(a))
        } else if v == "canonical"@ {
            SimStep::Next(i + 2, SimState { outcome_mode: OutcomeModeRequest::Canonical, ..st })
        } else if v == "legacy-binary"@ {
            SimStep::Next(i + 2, SimState { outcome_mode: OutcomeModeRequest::LegacyBinary, ..st })
        } else {
            SimStep::Fail("--outcome-mode must be canonical|legacy-binary, got "@ + str_debug(v))
        }
    } else if a == "--derive-pushes"@ {
        if !has_v {
            SimStep::Fail(needs_value(a))
        } else {
            match find_char(v, '=') {
                Some(e) => SimStep::Next(
                    i + 2,
                    SimState {
                        derive: Some((trim(v.subrange(0, e)), trim(v.subrange(e + 1, v.len() as int)))),
                        ..st
                    },
                ),
                None => SimStep::Fail("--derive-pushes expects <actual>=<line>, got "@ + str_debug(v)),
            }
        }
    } else if a == "--replay"@ {
        if !has_v {
            SimStep::Fail(needs_value(a))
        } else if v == "batch"@ {
            SimStep::Next(i + 2, SimState { replay: ReplayMode::Batch, ..st })
        } else if v == "sequential"@ {
            SimStep::Next(i + 2, SimState { replay: ReplayMode::Sequential, ..st })
        } else {
            SimStep::Fail("--replay must be batch|sequential, got "@ + str_debug(v))
        }
    } else if a == "--metric"@ {
        if !has_v {
            SimStep::Fail(needs_value(a))
        } else {
            match metric_choice(v) {
                Ok(m) => SimStep::Next(i + 2, SimState { metrics: st.metrics.push(m), ..st }),
                Err(e) => SimStep::Fail(e),
            }
        }
    } else if has_prefix(a, seq!['-', '-']) {
        SimStep::Fail("unknown argument: "@ + str_debug(a))
    } else if st.cartridge is None {
        SimStep::Next(i + 1, SimState { cartridge: Some(a), ..st })
    } else {
        SimStep::Fail("unexpected positional argument: "@ + str_debug(a))
    }
}

/// The argument loop from position `i`: `Ok((true, _))` when `--help`
/// stopped it.
pub open spec fn sim_loop(args: Seq<Seq<char>>, rd: Seq<(bool, Option<Seq<char>>)>, i: nat, st: SimState) -> Result<
    (bool, SimState),
    Seq<char>,
>
    decreases args.len() - i,
{
    if i >= args.len() {
        Ok((false, st))
    } else {
        match sim_step(args, rd, i, st) {
            SimStep::Help => Ok((true, st)),
            SimStep::Fail(e) => Err(e),
            SimStep::Next(j, next) => if i < j {
                sim_loop(args, rd, j, next)
            } else {
                Ok((false, next))
            },
        }
    }
}

/// A gathered bankroll is a number text.
pub open spec fn bankroll_ok(st: SimState) -> bool {
    st.bankroll matches Some(b) ==> float_text_syntax(b)
}

#[verifier::rlimit(60)]
proof fn lemma_sim_step_keeps(args: Seq<Seq<char>>, rd: Seq<(bool, Option<Seq<char>>)>, i: nat, st: SimState)
    requires
        i < args.len(),
    ensures
        sim_step(args, rd, i, st) matches SimStep::Next(j, s2) ==> {
            &&& i < j
            &&& (bankroll_ok(st) ==> bankroll_ok(s2))
            &&& (args[i as int] != "--replay"@ ==> s2.replay == st.replay)
            &&& (args[i as int] != "--bets"@ ==> s2.bets == st.bets)
            &&& (args[i as int] != "--start-bankroll"@ ==> s2.bankroll == st.bankroll)
            &&& (args[i as int] != "--sizing"@ ==> s2.sizing == st.sizing)
        },
{
}

proof fn lemma_sim_loop_keeps(args: Seq<Seq<char>>, rd: Seq<(bool, Option<Seq<char>>)>, i: nat, st: SimState)
    requires
        bankroll_ok(st),
    ensures
        sim_loop(args, rd, i, st) matches Ok((_, s2)) ==> {
            &&& bankroll_ok(s2)
            &&& ((forall|j: int| i <= j < args.len() ==> args[j] != "--replay"@) ==> s2.replay == st.replay)
            &&& ((forall|j: int| i <= j < args.len() ==> args[j] != "--bets"@) ==> s2.bets == st.bets)
            &&& ((forall|j: int| i <= j < args.len() ==> args[j] != "--start-bankroll"@) ==> s2.bankroll
                == st.bankroll)
            &&& ((forall|j: int| i <= j < args.len() ==> args[j] != "--sizing"@) ==> s2.sizing == st.sizing)
        },
    decreases args.len() - i,
{
    if i < args.len() {
        lemma_sim_step_keeps(args, rd, i, st);
        if let SimStep::Next(j, s2) = sim_step(args, rd, i, st) {
            lemma_sim_loop_keeps(args, rd, j, s2);
        }
    }
}

/// A parsed `simulate` run has its bets, a bankroll that reads as a
/// number (whose sign the caller's reading has passed), a sizing rule
/// read from its text, a seed whenever Monte Carlo is asked for, and
/// batch replay unless `--replay` is given. No run is made without
/// `--bets`, `--start-bankroll` and `--sizing`.
pub proof fn law_simulate_arguments(args: Seq<Seq<char>>, rd: Seq<(bool, Option<Seq<char>>)>)
    ensures
        simulate_spec(args, rd) matches SimOutcome::Run(c) ==> {
            &&& float_text_syntax(c.start_bankroll)
            &&& sizing_spec(c.sizing_str) == Ok::<SizingModel, Seq<char>>(c.sizing)
            &&& (c.monte_carlo is Some ==> c.seed is Some)
            &&& (!args.contains("--replay"@) ==> c.replay == ReplayMode::Batch)
            &&& args.contains("--bets"@) && args.contains("--start-bankroll"@) && args.contains("--sizing"@)
        },
{
    lemma_sim_loop_keeps(args, rd, 0, sim_init());
    if !args.contains("--bets"@) {
        assert forall|j: int| 0 <= j < args.len() implies args[j] != "--bets"@ by {
            if args[j] == "--bets"@ {
                assert(args.contains("--bets"@));
            }
        }
    }
    if !args.contains("--start-bankroll"@) {
        assert forall|j: int| 0 <= j < args.len() implies args[j] != "--start-bankroll"@ by {
            if args[j] == "--start-bankroll"@ {
                assert(args.contains("--start-bankroll"@));
            }
        }
    }
    if !args.contains("--sizing"@) {
        assert forall|j: int| 0 <= j < args.len() implies args[j] != "--sizing"@ by {
            if args[j] == "--sizing"@ {
                assert(args.contains("--sizing"@));
            }
        }
    }
    if !args.contains("--replay"@) {
        assert forall|j: int| 0 <= j < args.len() implies args[j] != "--replay"@ by {
            if args[j] == "--replay"@ {
                assert(args.contains("--replay"@));
            }
        }
    }
}

/// A fully-parsed `mc model simulate` invocation. Numbers the replay
/// reads as floats (the bankroll, the sizing parameters, fixed odds) stay
/// their text.
#[derive(Debug)]
pub struct SimulateCommand {
    pub cartridge: Option<String>,
    pub bets: String,
    pub start_bankroll: String,
    pub sizing: SizingSpec,
    pub sizing_str: String,
    pub filter: Option<(Filter, String)>,
    pub odds: OddsSource,
    pub odds_str: String,
    pub monte_carlo: Option<usize>,
    pub resample: Resample,
    pub resample_str: String,
    pub window: Window,
    pub window_str: String,
    pub seed: Option<u64>,
    pub format: SimFormat,
    pub emit_curve: Option<String>,
    pub columns: CoordMap,
    pub outcome_mode: OutcomeModeRequest,
    pub derive: Option<DerivePushes>,
    pub replay: ReplayMode,
    pub metrics: Vec<String>,
}

/// The value a [`SimulateCommand`] stands for.
pub struct SimModel {
    pub cartridge: Option<Seq<char>>,
    pub bets: Seq<char>,
    pub start_bankroll: Seq<char>,
    pub sizing: SizingModel,
    pub sizing_str: Seq<char>,
    pub filter: Option<(RecordFilterModel, Seq<char>)>,
    pub odds: OddsModel,
    pub odds_str: Seq<char>,
    pub monte_carlo: Option<usize>,
    pub resample: Resample,
    pub resample_str: Seq<char>,
    pub window: Window,
    pub window_str: Seq<char>,
    pub seed: Option<u64>,
    pub format: SimFormat,
    pub emit_curve: Option<Seq<char>>,
    pub columns: Seq<(Seq<char>, Seq<char>)>,
    pub outcome_mode: OutcomeModeRequest,
    pub derive: Option<(Seq<char>, Seq<char>)>,
    pub replay: ReplayMode,
    pub metrics: Seq<Seq<char>>,
}

pub open spec fn derive_model(d: Option<DerivePushes>) -> Option<(Seq<char>, Seq<char>)> {
    match d {
        Some(p) => Some((p.actual_col@, p.line_col@)),
        None => None,
    }
}

impl SimulateCommand {
    pub open spec fn model(&self) -> SimModel {
        SimModel {
            cartridge: self.cartridge.deep_view(),
            bets: self.bets@,
            start_bankroll: self.start_bankroll@,
            sizing: self.sizing.model(),
            sizing_str: self.sizing_str@,
            filter: match self.filter {
                Some(p) => Some((record_filter_model(p.0), p.1@)),
                None => None,
            },
            odds: self.odds.model(),
            odds_str: self.odds_str@,
            monte_carlo: self.monte_carlo,
            resample: self.resample,
            resample_str: self.resample_str@,
            window: self.window,
            window_str: self.window_str@,
            seed: self.seed,
            format: self.format,
            emit_curve: self.emit_curve.deep_view(),
            columns: self.columns@,
            outcome_mode: self.outcome_mode,
            derive: derive_model(self.derive),
            replay: self.replay,
            metrics: self.metrics.deep_view(),
        }
    }
}

/// Why a `simulate` argument list was refused: a message, or a `--filter`
/// parse error (whose number token the caller renders).
#[derive(Debug)]
pub enum SimulateError {
    Message(String),
    Filter(RecordFilterError),
}

pub enum SimErrModel {
    Message(Seq<char>),
    Filter(RecordErrorModel),
}

impl SimulateError {
    pub open spec fn model(&self) -> SimErrModel {
        match self {
            SimulateError::Message(m) => SimErrModel::Message(m@),
            SimulateError::Filter(e) => SimErrModel::Filter(e.model()),
        }
    }
}

/// What the argument list comes to: usage, a run, a refusal, or a panic
/// of the command (a filter or window text its parsers cannot take).
pub enum SimOutcome {
    Help,
    Run(SimModel),
    Refused(SimErrModel),
    Panics,
}

pub open spec fn refused(m: Seq<char>) -> SimOutcome {
    SimOutcome::Refused(SimErrModel::Message(m))
}

/// The last checks: odds, window and resampling, then the command.
pub open spec fn sim_finish_rest(
    args: Seq<Seq<char>>,
    rd: Seq<(bool, Option<Seq<char>>)>,
    st: SimState,
    sz: SizingModel,
    filter: Option<(RecordFilterModel, Seq<char>)>,
) -> SimOutcome {
    let odds = match st.odds {
        Some(j) => odds_spec(args[j], low_odds_at(rd, j)),
        None => Ok(OddsModel::Record),
    };
    match odds {
        Err(e) => refused(e),
        Ok(o) => {
            let win = match st.window {
                Some(w) => window_spec(w),
                None => WindowModel::Parsed(Window::All),
            };
            match win {
                WindowModel::Overflow => SimOutcome::Panics,
                WindowModel::Refused(e) => refused(e),
                WindowModel::Parsed(w) => {
                    let res = match st.resample {
                        Some(x) => resample_spec(x),
                        None => Ok(Resample::Iid),
                    };
                    match res {
                        Err(e) => refused(e),
                        Ok(rs) => SimOutcome::Run(
                            SimModel {
                                cartridge: st.cartridge,
                                bets: st.bets->0,
                                start_bankroll: st.bankroll->0,
                                sizing: sz,
                                sizing_str: st.sizing->0,
                                filter: filter,
                                odds: o,
                                odds_str: match st.odds {
                                    Some(j) => args[j],
                                    None => "record"@,
                                },
                                monte_carlo: st.monte_carlo,
                                resample: rs,
                                resample_str: match st.resample {
                                    Some(x) => x,
                                    None => "iid"@,
                                },
                                window: w,
                                window_str: match st.window {
                                    Some(x) => x,
                                    None => "all"@,
                                },
                                seed: st.seed,
                                format: st.format,
                                emit_curve: st.emit_curve,
                                columns: st.columns,
                                outcome_mode: st.outcome_mode,
                                derive: st.derive,
                                replay: st.replay,
                                metrics: st.metrics,
                            },
                        ),
                    }
                },
            }
        },
    }
}

/// The checks made once every argument is read.
pub open spec fn sim_finish(
    args: Seq<Seq<char>>,
    rd: Seq<(bool, Option<Seq<char>>)>,
    r: Result<(bool, SimState), Seq<char>>,
) -> SimOutcome {
    match r {
        Err(e) => refused(e),
        Ok((help, st)) => if help {
            SimOutcome::Help
        } else if st.bets is None {
            refused("--bets is required"@)
        } else if st.bankroll is None {
            refused("--start-bankroll is required"@)
        } else if st.sizing is None {
            refused("--sizing is required"@)
        } else {
            match sizing_spec(st.sizing->0) {
                Err(e) => refused(e),
                Ok(sz) => if st.monte_carlo is Some && st.seed is None {
                    refused("--seed is required when --monte-carlo is set (Amendment 5)"@)
                } else {
                    match st.filter {
                        Some(s) => if lex_spec(s) is Panics {
                            SimOutcome::Panics
                        } else {
                            match record_filter_spec(s) {
                                Err(fe) => SimOutcome::Refused(SimErrModel::Filter(fe)),
                                Ok(f) => sim_finish_rest(args, rd, st, sz, Some((f, s))),
                            }
                        },
                        None => sim_finish_rest(args, rd, st, sz, None),
                    }
                },
            }
        },
    }
}

/// What `mc model simulate` makes of its arguments, given the caller's
/// readings of them.
pub open spec fn simulate_spec(args: Seq<Seq<char>>, rd: Seq<(bool, Option<Seq<char>>)>) -> SimOutcome {
    sim_finish(args, rd, sim_loop(args, rd, 0, sim_init()))
}

struct Gathered {
    cartridge: Option<String>,
    bets: Option<String>,
    bankroll: Option<String>,
    sizing: Option<String>,
    filter: Option<String>,
    odds: Option<usize>,
    monte_carlo: Option<usize>,
    resample: Option<String>,
    window: Option<String>,
    seed: Option<u64>,
    format: SimFormat,
    emit_curve: Option<String>,
    columns: CoordMap,
    outcome_mode: OutcomeModeRequest,
    derive: Option<DerivePushes>,
    replay: ReplayMode,
    metrics: Vec<String>,
}

impl Gathered {
    spec fn state(&self) -> SimState {
        SimState {
            cartridge: self.cartridge.deep_view(),
            bets: self.bets.deep_view(),
            bankroll: self.bankroll.deep_view(),
            sizing: self.sizing.deep_view(),
            filter: self.filter.deep_view(),
            odds: match self.odds {
                Some(j) => Some(j as int),
                None => None,
            },
            monte_carlo: self.monte_carlo,
            resample: self.resample.deep_view(),
            window: self.window.deep_view(),
            seed: self.seed,
            format: self.format,
            emit_curve: self.emit_curve.deep_view(),
            columns: self.columns@,
            outcome_mode: self.outcome_mode,
            derive: derive_model(self.derive),
            replay: self.replay,
            metrics: self.metrics.deep_view(),
        }
    }
}

enum StepOut {
    Next(usize),
    Help,
    Fail(String),
}

/// One option of the argument list, applied to `g`.
#[verifier::rlimit(60)]
fn sim_step_exec(args: &[String], rd: &[ArgReading], i: usize, g: &mut Gathered) -> (r: StepOut)
    requires
        i < args@.len(),
    ensures
        match r {
            StepOut::Next(j) => sim_step(args.deep_view(), readings_model(rd@), i as nat, old(g).state())
                == SimStep::Next(j as nat, final(g).state()),
            StepOut::Help => sim_step(args.deep_view(), readings_model(rd@), i as nat, old(g).state())
                == SimStep::Help && final(g).state() == old(g).state(),
            StepOut::Fail(e) => sim_step(args.deep_view(), readings_model(rd@), i as nat, old(g).state())
                == SimStep::Fail(e@),
        },
        (old(g).odds matches Some(j) ==> j < args@.len()) ==> (final(g).odds matches Some(k) ==> k
            < args@.len()),
{
    let ghost av = args.deep_view();
    let arg = args[i].as_str();
    assert(av[i as int] == arg@);
    if i + 1 < args.len() {
        assert(av[i + 1] == args@[i + 1]@);
    }
    if str_eq(arg, "--help") || str_eq(arg, "-h") {
        return StepOut::Help;
    }
    let value_flag = str_eq(arg, "--bets") || str_eq(arg, "--start-bankroll") || str_eq(arg, "--sizing")
        || str_eq(arg, "--filter") || str_eq(arg, "--odds") || str_eq(arg, "--monte-carlo") || str_eq(
        arg,
        "--resample",
    ) || str_eq(arg, "--window") || str_eq(arg, "--seed") || str_eq(arg, "--format") || str_eq(
        arg,
        "--emit-curve",
    ) || str_eq(arg, "--columns") || str_eq(arg, "--outcome-mode") || str_eq(arg, "--derive-pushes")
        || str_eq(arg, "--replay") || str_eq(arg, "--metric");
    if !value_flag {
        if starts_with_dashes(arg) {
            return StepOut::Fail(err_debug("unknown argument: ", arg));
        }
        if g.cartridge.is_none() {
            g.cartridge = Some(args[i].clone());
            return StepOut::Next(i + 1);
        }
        return StepOut::Fail(err_debug("unexpected positional argument: ", arg));
    }
    let v = match next_val(args, i + 1, arg) {
        Ok(v) => v,
        Err(e) => {
            return StepOut::Fail(e);
        },
    };
    let vs = v.as_str();
    if str_eq(arg, "--bets") {
        g.bets = Some(v);
    } else if str_eq(arg, "--start-bankroll") {
        let vc = chars_of(vs);
        if !is_float_text(&vc) {
            return StepOut::Fail(err_debug("--start-bankroll expects a number, got ", vs));
        }
        if i + 1 < rd.len() && rd[i + 1].at_most_zero {
            return StepOut::Fail(lit("--start-bankroll must be > 0"));
        }
        g.bankroll = Some(v);
    } else if str_eq(arg, "--sizing") {
        g.sizing = Some(v);
    } else if str_eq(arg, "--filter") {
        g.filter = Some(v);
    } else if str_eq(arg, "--odds") {
        g.odds = Some(i + 1);
    } else if str_eq(arg, "--monte-carlo") {
        match parse_usize(vs) {
            Some(n) => g.monte_carlo = Some(n),
            None => {
                return StepOut::Fail(err_debug("--monte-carlo expects an integer, got ", vs));
            },
        }
    } else if str_eq(arg, "--resample") {
        g.resample = Some(v);
    } else if str_eq(arg, "--window") {
        g.window = Some(v);
    } else if str_eq(arg, "--seed") {
        match parse_u64(vs) {
            Some(n) => g.seed = Some(n),
            None => {
                return StepOut::Fail(err_debug("--seed expects an unsigned integer, got ", vs));
            },
        }
    } else if str_eq(arg, "--format") {
        if str_eq(vs, "text") {
            g.format = SimFormat::Text;
        } else if str_eq(vs, "json") {
            g.format = SimFormat::Json;
        } else {
            return StepOut::Fail(err_debug("--format must be text|json, got ", vs));
        }
    } else if str_eq(arg, "--emit-curve") {
        g.emit_curve = Some(v);
    } else if str_eq(arg, "--columns") {
        if let Err(e) = add_columns(&mut g.columns, vs) {
            return StepOut::Fail(e);
        }
    } else if str_eq(arg, "--outcome-mode") {
        if str_eq(vs, "canonical") {
            g.outcome_mode = OutcomeModeRequest::Canonical;
        } else if str_eq(vs, "legacy-binary") {
            g.outcome_mode = OutcomeModeRequest::LegacyBinary;
        } else {
            return StepOut::Fail(err_debug("--outcome-mode must be canonical|legacy-binary, got ", vs));
        }
    } else if str_eq(arg, "--derive-pushes") {
        let vc = chars_of(vs);
        match find_char_exec(&vc, '=') {
            Some(e) => {
                proof {
                    lemma_find_char_found(vc@, '=');
                }
                assert(e < vc@.len());
                assert(vc@.len() == vc.len());
                let a = trim_chars(&slice_chars(&vc, 0, e));
                let l = trim_chars(&slice_chars(&vc, e + 1, vc.len()));
                g.derive = Some(DerivePushes { actual_col: string_of(&a), line_col: string_of(&l) });
            },
            None => {
                return StepOut::Fail(err_debug("--derive-pushes expects <actual>=<line>, got ", vs));
            },
        }
    } else if str_eq(arg, "--replay") {
        if str_eq(vs, "batch") {
            g.replay = ReplayMode::Batch;
        } else if str_eq(vs, "sequential") {
            g.replay = ReplayMode::Sequential;
        } else {
            return StepOut::Fail(err_debug("--replay must be batch|sequential, got ", vs));
        }
    } else {
        match check_metric(vs) {
            Ok(m) => {
                let ghost before = g.metrics.deep_view();
                g.metrics.push(m);
                assert(g.metrics.deep_view() =~= before.push(v@));
            },
            Err(e) => {
                return StepOut::Fail(e);
            },
        }
    }
    StepOut::Next(i + 2)
}

/// The argument loop: `Ok((true, _))` when `--help` stopped it.
fn gather(args: &[String], readings: &[ArgReading]) -> (r: Result<(bool, Gathered), String>)
    ensures
        match r {
            Ok((help, g)) => sim_loop(args.deep_view(), readings_model(readings@), 0, sim_init()) == Ok::<
                (bool, SimState),
                Seq<char>,
            >((help, g.state())) && (g.odds matches Some(j) ==> j < args@.len()),
            Err(e) => sim_loop(args.deep_view(), readings_model(readings@), 0, sim_init()) == Err::<
                (bool, SimState),
                Seq<char>,
            >(e@),
        },
{
    let ghost av = args.deep_view();
    let ghost rd = readings_model(readings@);
    let mut g = Gathered {
        cartridge: None,
        bets: None,
        bankroll: None,
        sizing: None,
        filter: None,
        odds: None,
        monte_carlo: None,
        resample: None,
        window: None,
        seed: None,
        format: SimFormat::Text,
        emit_curve: None,
        columns: CoordMap::new(),
        outcome_mode: OutcomeModeRequest::Canonical,
        derive: None,
        replay: ReplayMode::Batch,
        metrics: Vec::new(),
    };
    assert(g.metrics.deep_view() =~= Seq::<Seq<char>>::empty());
    assert(g.state() == sim_init());
    let mut i: usize = 0;
    while i < args.len()
        invariant
            i <= args@.len(),
            av == args.deep_view(),
            rd == readings_model(readings@),
            sim_loop(av, rd, 0, sim_init()) == sim_loop(av, rd, i as nat, g.state()),
            g.odds matches Some(j) ==> j < args@.len(),
        decreases args@.len() - i,
    {
        match sim_step_exec(args, readings, i, &mut g) {
            StepOut::Next(j) => {
                assert(i < j <= args@.len());
                i = j;
            },
            StepOut::Help => {
                return Ok((true, g));
            },
            StepOut::Fail(e) => {
                return Err(e);
            },
        }
    }
    Ok((false, g))
}

/// Whether `mc model simulate` would panic on these arguments: its
/// `--filter` or `--window` text is one its parsers cannot take.
pub fn panics_on(args: &[String], readings: &[ArgReading]) -> (r: bool)
    ensures
        r == (simulate_spec(args.deep_view(), readings_model(readings@)) is Panics),
{
    let ghost av = args.deep_view();
    let g = match gather(args, readings) {
        Ok((false, g)) => g,
        _ => {
            return false;
        },
    };
    if g.bets.is_none() || g.bankroll.is_none() {
        return false;
    }
    let sizing_str = match &g.sizing {
        Some(s) => s,
        None => {
            return false;
        },
    };
    if parse_sizing(sizing_str.as_str()).is_err() {
        return false;
    }
    if g.monte_carlo.is_some() && g.seed.is_none() {
        return false;
    }
    if let Some(s) = &g.filter {
        if filter_input_panics(s.as_str()) {
            return true;
        }
        if parse_filter(s.as_str()).is_err() {
            return false;
        }
    }
    if let Some(j) = g.odds {
        assert(av[j as int] == args@[j as int]@);
        let low = if j < readings.len() {
            readings[j].low_fixed_odds.clone()
        } else {
            None
        };
        if parse_odds(args[j].as_str(), &low).is_err() {
            return false;
        }
    }
    match &g.window {
        Some(w) => match read_window(w.as_str()) {
            WindowRead::Overflow => true,
            _ => false,
        },
        None => false,
    }
}

/// Parse `mc model simulate` arguments. `readings[i]` is the caller's
/// floating-point verdict on `args[i]` (see [`ArgReading`]).
pub fn parse(args: &[String], readings: &[ArgReading]) -> (r: Result<Parsed<SimulateCommand>, SimulateError>)
    requires
        !(simulate_spec(args.deep_view(), readings_model(readings@)) is Panics),
    ensures
        match r {
            Ok(Parsed::Help) => simulate_spec(args.deep_view(), readings_model(readings@)) is Help,
            Ok(Parsed::Run(c)) => simulate_spec(args.deep_view(), readings_model(readings@))
                == SimOutcome::Run(c.model()),
            Err(e) => simulate_spec(args.deep_view(), readings_model(readings@))
                == SimOutcome::Refused(e.model()),
        },
{
    match gather(args, readings) {
        Ok((true, _)) => Ok(Parsed::Help),
        Ok((false, g)) => finish(args, readings, g),
        Err(e) => Err(SimulateError::Message(e)),
    }
}

fn finish(args: &[String], readings: &[ArgReading], g: Gathered) -> (r: Result<Parsed<SimulateCommand>, SimulateError>)
    requires
        !(sim_finish(args.deep_view(), readings_model(readings@), Ok((false, g.state()))) is Panics),
        forall|j: usize| g.odds == Some(j) ==> j < args@.len(),
    ensures
        match r {
            Ok(Parsed::Help) => false,
            Ok(Parsed::Run(c)) => sim_finish(args.deep_view(), readings_model(readings@), Ok((false, g.state())))
                == SimOutcome::Run(c.model()),
            Err(e) => sim_finish(args.deep_view(), readings_model(readings@), Ok((false, g.state())))
                == SimOutcome::Refused(e.model()),
        },
{
    let ghost av = args.deep_view();
    let ghost st = g.state();
    let bets = match g.bets {
        Some(b) => b,
        None => {
            return Err(SimulateError::Message(lit("--bets is required")));
        },
    };
    let start_bankroll = match g.bankroll {
        Some(b) => b,
        None => {
            return Err(SimulateError::Message(lit("--start-bankroll is required")));
        },
    };
    let sizing_str = match g.sizing {
        Some(b) => b,
        None => {
            return Err(SimulateError::Message(lit("--sizing is required")));
        },
    };
    let sizing = match parse_sizing(sizing_str.as_str()) {
        Ok(s) => s,
        Err(e) => {
            return Err(SimulateError::Message(e));
        },
    };
    if g.monte_carlo.is_some() && g.seed.is_none() {
        return Err(SimulateError::Message(lit("--seed is required when --monte-carlo is set (Amendment 5)")));
    }
    let filter = match g.filter {
        Some(s) => match parse_filter(s.as_str()) {
            Ok(f) => Some((f, s)),
            Err(e) => {
                return Err(SimulateError::Filter(e));
            },
        },
        None => None,
    };
    let odds = match g.odds {
        Some(j) => {
            assert(av[j as int] == args@[j as int]@);
            let low = if j < readings.len() {
                readings[j].low_fixed_odds.clone()
            } else {
                None
            };
            match parse_odds(args[j].as_str(), &low) {
                Ok(o) => o,
                Err(e) => {
                    return Err(SimulateError::Message(e));
                },
            }
        },
        None => OddsSource::Record,
    };
    let odds_str = match g.odds {
        Some(j) => args[j].clone(),
        None => lit("record"),
    };
    let window = match &g.window {
        Some(w) => match parse_window(w.as_str()) {
            Ok(x) => x,
            Err(e) => {
                return Err(SimulateError::Message(e));
            },
        },
        None => Window::All,
    };
    let window_str = match g.window {
        Some(w) => w,
        None => lit("all"),
    };
    let resample = match &g.resample {
        Some(x) => match parse_resample(x.as_str()) {
            Ok(r) => r,
            Err(e) => {
                return Err(SimulateError::Message(e));
            },
        },
        None => Resample::Iid,
    };
    let resample_str = match g.resample {
        Some(x) => x,
        None => lit("iid"),
    };
    Ok(
        Parsed::Run(
            SimulateCommand {
                cartridge: g.cartridge,
                bets,
                start_bankroll,
                sizing,
                sizing_str,
                filter,
                odds,
                odds_str,
                monte_carlo: g.monte_carlo,
                resample,
                resample_str,
                window,
                window_str,
                seed: g.seed,
                format: g.format,
                emit_curve: g.emit_curve,
                columns: g.columns,
                outcome_mode: g.outcome_mode,
                derive: g.derive,
                replay: g.replay,
                metrics: g.metrics,
            },
        ),
    )
}

} // verus!
