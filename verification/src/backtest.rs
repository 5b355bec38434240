//! `mc model backtest`: the argument grammar of a parameter sweep crossed
//! with a holdout evaluation. Bucket edges are checked as text (numbers,
//! at least two) and carried as their raw `e0:e1:...` text; turning them
//! into numbers, and checking that they ascend, is left to the caller.
use crate::cli::Parsed;
use crate::coord_map::{sorted_insert, CoordMap};
use crate::eval_common::{
    check_bucket_edges, descent_at, descent_of, descents_model, edges_spec,
    law_metrics_read_in_order, metric_expr_spec, metric_models, metrics_spec, parse_metric_list, MetricExpr, MetricModel, WilsonNullPolicy,
};
use crate::text::{
    err_debug, has_prefix, lit, parse_usize, parse_usize_spec, push_str, starts_with_dashes,
    str_debug, str_eq,
};
use vstd::prelude::*;

pub mod grid;
pub mod table;
pub mod axis;

verus! {

/// Output format (`text | json`).
#[derive(Debug, Clone, Copy, PartialEq, Eq, Structural)]
pub enum BacktestFormat {
    Text,
    Json,
}

/// Objective direction.
#[derive(Debug, Clone, Copy, PartialEq, Eq, Structural)]
pub enum Goal {
    Maximize,
    Minimize,
}

/// Objective scope.
#[derive(Debug, Clone, Copy, PartialEq, Eq, Structural)]
pub enum BestBy {
    Total,
    Segment,
}

/// A fully-parsed `mc model backtest` invocation. Axis specs stay raw
/// strings (they are resolved against the loaded cube); `buckets` maps a
/// measure to its raw edge list.
#[derive(Debug)]
pub struct BacktestCommand {
    pub path: String,
    pub unit: String,
    pub holdout: Option<String>,
    pub sweeps: Vec<String>,
    pub metrics: Vec<MetricExpr>,
    pub group_by: Vec<String>,
    pub buckets: CoordMap,
    pub objective: Option<String>,
    pub goal: Goal,
    pub best_by: BestBy,
    pub min_n: usize,
    pub max_segments: usize,
    pub max_grid: usize,
    pub wilson_null: WilsonNullPolicy,
    pub include_writes: bool,
    pub format: BacktestFormat,
    pub emit_grid: Option<String>,
    pub dry_run: bool,
}

/// The value a [`BacktestCommand`] stands for.
pub struct BacktestModel {
    pub path: Seq<char>,
    pub unit: Seq<char>,
    pub holdout: Option<Seq<char>>,
    pub sweeps: Seq<Seq<char>>,
    pub metrics: Seq<MetricModel>,
    pub group_by: Seq<Seq<char>>,
    pub buckets: Seq<(Seq<char>, Seq<char>)>,
    pub objective: Option<Seq<char>>,
    pub goal: Goal,
    pub best_by: BestBy,
    pub min_n: usize,
    pub max_segments: usize,
    pub max_grid: usize,
    pub wilson_null: WilsonNullPolicy,
    pub include_writes: bool,
    pub format: BacktestFormat,
    pub emit_grid: Option<Seq<char>>,
    pub dry_run: bool,
}

impl BacktestCommand {
    pub open spec fn model(&self) -> BacktestModel {
        BacktestModel {
            path: self.path@,
            unit: self.unit@,
            holdout: self.holdout.deep_view(),
            sweeps: self.sweeps.deep_view(),
            metrics: metric_models(self.metrics@),
            group_by: self.group_by.deep_view(),
            buckets: self.buckets@,
            objective: self.objective.deep_view(),
            goal: self.goal,
            best_by: self.best_by,
            min_n: self.min_n,
            max_segments: self.max_segments,
            max_grid: self.max_grid,
            wilson_null: self.wilson_null,
            include_writes: self.include_writes,
            format: self.format,
            emit_grid: self.emit_grid.deep_view(),
            dry_run: self.dry_run,
        }
    }
}

/// What the argument loop has gathered so far.
pub struct BacktestState {
    pub help: bool,
    pub path: Option<Seq<char>>,
    pub unit: Option<Seq<char>>,
    pub holdout: Option<Seq<char>>,
    pub sweeps: Seq<Seq<char>>,
    pub metric_strs: Seq<Seq<char>>,
    pub group_by: Seq<Seq<char>>,
    pub buckets: Seq<(Seq<char>, Seq<char>)>,
    pub objective: Option<Seq<char>>,
    pub goal: Goal,
    pub best_by: BestBy,
    pub min_n: usize,
    pub max_segments: usize,
    pub max_grid: usize,
    pub wilson_null: WilsonNullPolicy,
    pub include_writes: bool,
    pub format: BacktestFormat,
    pub emit_grid: Option<Seq<char>>,
    pub dry_run: bool,
}

/// The argument loop from position `i` on; `--help` stops it at once.
pub open spec fn backtest_loop(args: Seq<Seq<char>>, rd: Seq<Option<Seq<char>>>, i: nat, st: BacktestState) -> Result<
    BacktestState,
    Seq<char>,
>
    decreases args.len() - i,
{
    if i >= args.len() {
        Ok(st)
    } else {
        let a = args[i as int];
        let has_v = i + 1 < args.len();
        let v = args[i + 1 as int];
        if a == "--help"@ || a == "-h"@ {
            Ok(BacktestState { help: true, ..st })
        } else if a == "--unit"@ {
            if !has_v {
                Err("--unit requires a dimension name"@)
            } else {
                backtest_loop(args, rd, i + 2, BacktestState { unit: Some(v), ..st })
            }
        } else if a == "--holdout"@ {
            if !has_v {
                Err("--holdout requires a filter expression"@)
            } else {
                backtest_loop(args, rd, i + 2, BacktestState { holdout: Some(v), ..st })
            }
        } else if a == "--sweep"@ {
            if !has_v {
                Err("--sweep requires an axis spec"@)
            } else {
                backtest_loop(args, rd, i + 2, BacktestState { sweeps: st.sweeps.push(v), ..st })
            }
        } else if a == "--metric"@ {
            if !has_v {
                Err("--metric requires an expression"@)
            } else {
                backtest_loop(args, rd, i + 2,
                    BacktestState { metric_strs: st.metric_strs.push(v), ..st },
                )
            }
        } else if a == "--group-by"@ {
            if !has_v {
                Err("--group-by requires a dimension or measure name"@)
            } else {
                backtest_loop(args, rd, i + 2, BacktestState { group_by: st.group_by.push(v), ..st })
            }
        } else if a == "--bucket"@ {
            if !has_v {
                Err("--bucket requires a measure name and edges"@)
            } else if i + 2 >= args.len() {
                Err("--bucket "@ + v + " requires edges (e.g. 0:0.5:1.0)"@)
            } else {
                match edges_spec(args[i + 2 as int], descent_at(rd, i + 2 as int)) {
                    Err(e) => Err("--bucket "@ + v + ": "@ + e),
                    Ok(_) => backtest_loop(args, rd, i + 3,
                        BacktestState {
                            buckets: sorted_insert(st.buckets, v, args[i + 2 as int]),
                            ..st
                        },
                    ),
                }
            }
        } else if a == "--objective"@ {
            if !has_v {
                Err("--objective requires a metric name"@)
            } else {
                backtest_loop(args, rd, i + 2, BacktestState { objective: Some(v), ..st })
            }
        } else if a == "--goal"@ {
            if !has_v {
                Err("--goal requires maximize|minimize"@)
            } else if v == "maximize"@ {
                backtest_loop(args, rd, i + 2, BacktestState { goal: Goal::Maximize, ..st })
            } else if v == "minimize"@ {
                backtest_loop(args, rd, i + 2, BacktestState { goal: Goal::Minimize, ..st })
            } else {
                Err("--goal must be maximize|minimize, got "@ + str_debug(v))
            }
        } else if a == "--best-by"@ {
            if !has_v {
                Err("--best-by requires total|segment"@)
            } else if v == "total"@ {
                backtest_loop(args, rd, i + 2, BacktestState { best_by: BestBy::Total, ..st })
            } else if v == "segment"@ {
                backtest_loop(args, rd, i + 2, BacktestState { best_by: BestBy::Segment, ..st })
            } else {
                Err("--best-by must be total|segment, got "@ + str_debug(v))
            }
        } else if a == "--min-n"@ {
            if !has_v {
                Err("--min-n requires an integer"@)
            } else {
                match parse_usize_spec(v) {
                    Some(n) => backtest_loop(args, rd, i + 2, BacktestState { min_n: n, ..st }),
                    None => Err("--min-n must be a non-negative integer, got "@ + str_debug(v)),
                }
            }
        } else if a == "--max-segments"@ {
            if !has_v {
                Err("--max-segments requires an integer"@)
            } else {
                match parse_usize_spec(v) {
                    Some(n) => backtest_loop(args, rd, i + 2, BacktestState { max_segments: n, ..st }),
                    None => Err("--max-segments must be a positive integer, got "@ + str_debug(v)),
                }
            }
        } else if a == "--max-grid"@ {
            if !has_v {
                Err("--max-grid requires an integer"@)
            } else {
                match parse_usize_spec(v) {
                    Some(n) => backtest_loop(args, rd, i + 2, BacktestState { max_grid: n, ..st }),
                    None => Err("--max-grid must be a positive integer, got "@ + str_debug(v)),
                }
            }
        } else if a == "--wilson-null"@ {
            if !has_v {
                Err("--wilson-null requires error|drop"@)
            } else if v == "error"@ {
                backtest_loop(args, rd, i + 2,
                    BacktestState { wilson_null: WilsonNullPolicy::Error, ..st },
                )
            } else if v == "drop"@ {
                backtest_loop(args, rd, i + 2,
                    BacktestState { wilson_null: WilsonNullPolicy::Drop, ..st },
                )
            } else {
                Err("--wilson-null must be error|drop, got "@ + str_debug(v))
            }
        } else if a == "--include-writes"@ {
            backtest_loop(args, rd, i + 1, BacktestState { include_writes: true, ..st })
        } else if a == "--format"@ {
            if !has_v {
                Err("--format requires an argument"@)
            } else if v == "text"@ {
                backtest_loop(args, rd, i + 2, BacktestState { format: BacktestFormat::Text, ..st })
            } else if v == "json"@ {
                backtest_loop(args, rd, i + 2, BacktestState { format: BacktestFormat::Json, ..st })
            } else {
                Err("--format must be text|json, got "@ + str_debug(v))
            }
        } else if a == "--emit-grid"@ {
            if !has_v {
                Err("--emit-grid requires a path"@)
            } else {
                backtest_loop(args, rd, i + 2, BacktestState { emit_grid: Some(v), ..st })
            }
        } else if a == "--dry-run"@ {
            backtest_loop(args, rd, i + 1, BacktestState { dry_run: true, ..st })
        } else if !has_prefix(a, seq!['-', '-']) && st.path is None {
            backtest_loop(args, rd, i + 1, BacktestState { path: Some(a), ..st })
        } else {
            Err("unknown argument: "@ + str_debug(a))
        }
    }
}

/// The checks made once every argument is read, then the metric parse.
pub open spec fn backtest_finish(r: Result<BacktestState, Seq<char>>) -> Result<
    Parsed<BacktestModel>,
    Seq<char>,
> {
    match r {
        Err(e) => Err(e),
        Ok(st) => if st.help {
            Ok(Parsed::Help)
        } else if st.path is None {
            Err("`mc model backtest` requires a YAML model path"@)
        } else if st.unit is None {
            Err("--unit is required (the dimension whose leaves are the analysis units)"@)
        } else if st.sweeps.len() == 0 {
            Err("at least one --sweep axis is required"@)
        } else if st.metric_strs.len() == 0 {
            Err("at least one --metric is required"@)
        } else if st.max_grid == 0 {
            Err("--max-grid must be at least 1"@)
        } else if st.best_by == BestBy::Segment && st.group_by.len() == 0 {
            Err("--best-by segment requires at least one --group-by"@)
        } else {
            match metrics_spec(st.metric_strs) {
                Err(e) => Err(e),
                Ok(ms) => Ok(
                    Parsed::Run(
                        BacktestModel {
                            path: st.path->0,
                            unit: st.unit->0,
                            holdout: st.holdout,
                            sweeps: st.sweeps,
                            metrics: ms,
                            group_by: st.group_by,
                            buckets: st.buckets,
                            objective: st.objective,
                            goal: st.goal,
                            best_by: st.best_by,
                            min_n: st.min_n,
                            max_segments: st.max_segments,
                            max_grid: st.max_grid,
                            wilson_null: st.wilson_null,
                            include_writes: st.include_writes,
                            format: st.format,
                            emit_grid: st.emit_grid,
                            dry_run: st.dry_run,
                        },
                    ),
                ),
            }
        },
    }
}

/// The state before any argument is read: every option at its default.
pub open spec fn backtest_init() -> BacktestState {
    BacktestState {
        help: false,
        path: None,
        unit: None,
        holdout: None,
        sweeps: Seq::empty(),
        metric_strs: Seq::empty(),
        group_by: Seq::empty(),
        buckets: Seq::empty(),
        objective: None,
        goal: Goal::Maximize,
        best_by: BestBy::Total,
        min_n: 0,
        max_segments: 50,
        max_grid: 1000,
        wilson_null: WilsonNullPolicy::Error,
        include_writes: false,
        format: BacktestFormat::Text,
        emit_grid: None,
        dry_run: false,
    }
}

/// The outcome of parsing `backtest` arguments.
pub open spec fn backtest_spec(args: Seq<Seq<char>>, rd: Seq<Option<Seq<char>>>) -> Result<Parsed<BacktestModel>, Seq<char>> {
    backtest_finish(backtest_loop(args, rd, 0, backtest_init()))
}

/// No argument from position `i` on is `flag`.
pub open spec fn flag_absent(args: Seq<Seq<char>>, i: int, flag: Seq<char>) -> bool {
    forall|j: int| i <= j < args.len() ==> args[j] != flag
}

#[verifier::spinoff_prover]
#[verifier::rlimit(100)]
proof fn lemma_backtest_loop_keeps(args: Seq<Seq<char>>, rd: Seq<Option<Seq<char>>>, i: nat, st: BacktestState)
    ensures
        backtest_loop(args, rd, i, st) matches Ok(s2) ==> {
            &&& (flag_absent(args, i as int, "--goal"@) ==> s2.goal == st.goal)
            &&& (flag_absent(args, i as int, "--best-by"@) ==> s2.best_by == st.best_by)
            &&& (flag_absent(args, i as int, "--max-grid"@) ==> s2.max_grid == st.max_grid)
        },
    decreases args.len() - i,
{
    if i < args.len() {
        let a = args[i as int];
        let has_v = i + 1 < args.len();
        let v = args[i + 1 as int];
        if a == "--help"@ || a == "-h"@ {
        } else if a == "--unit"@ {
            if has_v {
                lemma_backtest_loop_keeps(args, rd, i + 2, BacktestState { unit: Some(v), ..st });
            }
        } else if a == "--holdout"@ {
            if has_v {
                lemma_backtest_loop_keeps(args, rd, i + 2, BacktestState { holdout: Some(v), ..st });
            }
        } else if a == "--sweep"@ {
            if has_v {
                lemma_backtest_loop_keeps(args, rd, i + 2, BacktestState { sweeps: st.sweeps.push(v), ..st });
            }
        } else if a == "--metric"@ {
            if has_v {
                lemma_backtest_loop_keeps(
                    args,
                    rd,
                    i + 2,
                    BacktestState { metric_strs: st.metric_strs.push(v), ..st },
                );
            }
        } else if a == "--group-by"@ {
            if has_v {
                lemma_backtest_loop_keeps(args, rd, i + 2, BacktestState { group_by: st.group_by.push(v), ..st });
            }
        } else if a == "--bucket"@ {
            if has_v && i + 2 < args.len() {
                lemma_backtest_loop_keeps(
                    args,
                    rd,
                    i + 3,
                    BacktestState { buckets: sorted_insert(st.buckets, v, args[i + 2 as int]), ..st },
                );
            }
        } else if a == "--objective"@ {
            if has_v {
                lemma_backtest_loop_keeps(args, rd, i + 2, BacktestState { objective: Some(v), ..st });
            }
        } else if a == "--goal"@ {
            if has_v {
                lemma_backtest_loop_keeps(args, rd, i + 2, BacktestState { goal: Goal::Maximize, ..st });
                lemma_backtest_loop_keeps(args, rd, i + 2, BacktestState { goal: Goal::Minimize, ..st });
            }
        } else if a == "--best-by"@ {
            if has_v {
                lemma_backtest_loop_keeps(args, rd, i + 2, BacktestState { best_by: BestBy::Total, ..st });
                lemma_backtest_loop_keeps(args, rd, i + 2, BacktestState { best_by: BestBy::Segment, ..st });
            }
        } else if a == "--min-n"@ {
            if has_v && parse_usize_spec(v) is Some {
                lemma_backtest_loop_keeps(
                    args,
                    rd,
                    i + 2,
                    BacktestState { min_n: parse_usize_spec(v)->0, ..st },
                );
            }
        } else if a == "--max-segments"@ {
            if has_v && parse_usize_spec(v) is Some {
                lemma_backtest_loop_keeps(
                    args,
                    rd,
                    i + 2,
                    BacktestState { max_segments: parse_usize_spec(v)->0, ..st },
                );
            }
        } else if a == "--max-grid"@ {
            if has_v && parse_usize_spec(v) is Some {
                lemma_backtest_loop_keeps(
                    args,
                    rd,
                    i + 2,
                    BacktestState { max_grid: parse_usize_spec(v)->0, ..st },
                );
            }
        } else if a == "--wilson-null"@ {
            if has_v {
                lemma_backtest_loop_keeps(
                    args,
                    rd,
                    i + 2,
                    BacktestState { wilson_null: WilsonNullPolicy::Error, ..st },
                );
                lemma_backtest_loop_keeps(
                    args,
                    rd,
                    i + 2,
                    BacktestState { wilson_null: WilsonNullPolicy::Drop, ..st },
                );
            }
        } else if a == "--include-writes"@ {
            lemma_backtest_loop_keeps(args, rd, i + 1, BacktestState { include_writes: true, ..st });
        } else if a == "--format"@ {
            if has_v {
                lemma_backtest_loop_keeps(args, rd, i + 2, BacktestState { format: BacktestFormat::Text, ..st });
                lemma_backtest_loop_keeps(args, rd, i + 2, BacktestState { format: BacktestFormat::Json, ..st });
            }
        } else if a == "--emit-grid"@ {
            if has_v {
                lemma_backtest_loop_keeps(args, rd, i + 2, BacktestState { emit_grid: Some(v), ..st });
            }
        } else if a == "--dry-run"@ {
            lemma_backtest_loop_keeps(args, rd, i + 1, BacktestState { dry_run: true, ..st });
        } else if !has_prefix(a, seq!['-', '-']) && st.path is None {
            lemma_backtest_loop_keeps(args, rd, i + 1, BacktestState { path: Some(a), ..st });
        }
    }
}

/// A parsed backtest run has at least one sweep axis and one metric, a
/// grid cap of at least one, and a group-by whenever the best cell is
/// chosen per segment; its metrics are the `--metric` texts read by the
/// metric grammar, in order. Without `--goal`, `--best-by` or
/// `--max-grid` it maximizes, over the total, with a cap of 1000. When
/// every other check passes, the first `--metric` text that does not read
/// gives the error.
pub proof fn law_backtest_arguments(args: Seq<Seq<char>>, rd: Seq<Option<Seq<char>>>)
    ensures
        backtest_spec(args, rd) matches Ok(Parsed::Run(c)) ==> {
            &&& c.sweeps.len() >= 1 && c.max_grid >= 1
            &&& (c.best_by == BestBy::Segment ==> c.group_by.len() >= 1)
            &&& (backtest_loop(args, rd, 0, backtest_init()) matches Ok(st) && metrics_spec(st.metric_strs)
                == Ok::<Seq<MetricModel>, Seq<char>>(c.metrics) && st.metric_strs.len() >= 1)
            &&& (!args.contains("--goal"@) ==> c.goal == Goal::Maximize)
            &&& (!args.contains("--best-by"@) ==> c.best_by == BestBy::Total)
            &&& (!args.contains("--max-grid"@) ==> c.max_grid == 1000)
        },
        backtest_loop(args, rd, 0, backtest_init()) matches Ok(st) ==> ((!st.help && st.path is Some && st.unit is Some
            && st.sweeps.len() > 0 && st.metric_strs.len() > 0 && st.max_grid != 0 && !(st.best_by == BestBy::Segment
            && st.group_by.len() == 0)) ==> forall|k: int|
            0 <= k < st.metric_strs.len() && (forall|j: int|
                0 <= j < k ==> #[trigger] metric_expr_spec(st.metric_strs[j]) is Ok) && #[trigger] metric_expr_spec(
                st.metric_strs[k],
            ) is Err ==> backtest_spec(args, rd) == Err::<Parsed<BacktestModel>, Seq<char>>(
                metric_expr_spec(st.metric_strs[k])->Err_0,
            )),
{
    lemma_backtest_loop_keeps(args, rd, 0, backtest_init());
    if let Ok(st) = backtest_loop(args, rd, 0, backtest_init()) {
        law_metrics_read_in_order(st.metric_strs);
    }
    assert forall|f: Seq<char>| !args.contains(f) implies flag_absent(args, 0, f) by {
        assert forall|j: int| 0 <= j < args.len() implies args[j] != f by {
            if args[j] == f {
                assert(args.contains(f));
            }
        }
    }
}

/// Parse `mc model backtest` arguments.
#[verifier::rlimit(60)]
pub fn parse(args: &[String], edge_descents: &[Option<String>]) -> (r: Result<Parsed<BacktestCommand>, String>)
    ensures
        match r {
            Ok(Parsed::Help) => backtest_spec(args.deep_view(), descents_model(edge_descents@)) == Ok::<
                Parsed<BacktestModel>,
                Seq<char>,
            >(Parsed::Help),
            Ok(Parsed::Run(c)) => backtest_spec(args.deep_view(), descents_model(edge_descents@)) == Ok::<
                Parsed<BacktestModel>,
                Seq<char>,
            >(Parsed::Run(c.model())),
            Err(e) => backtest_spec(args.deep_view(), descents_model(edge_descents@)) == Err::<Parsed<BacktestModel>, Seq<char>>(
                e@,
            ),
        },
{
    let ghost av = args.deep_view();
    let ghost rdm = descents_model(edge_descents@);
    let mut path: Option<String> = None;
    let mut unit: Option<String> = None;
    let mut holdout: Option<String> = None;
    let mut sweeps: Vec<String> = Vec::new();
    let mut metric_strs: Vec<String> = Vec::new();
    let mut group_by: Vec<String> = Vec::new();
    let mut buckets = CoordMap::new();
    let mut objective: Option<String> = None;
    let mut goal = Goal::Maximize;
    let mut best_by = BestBy::Total;
    let mut min_n: usize = 0;
    let mut max_segments: usize = 50;
    let mut max_grid: usize = 1000;
    let mut wilson_null = WilsonNullPolicy::Error;
    let mut include_writes = false;
    let mut format = BacktestFormat::Text;
    let mut emit_grid: Option<String> = None;
    let mut dry_run = false;
    let mut i: usize = 0;
    assert(sweeps.deep_view() =~= Seq::<Seq<char>>::empty());
    assert(metric_strs.deep_view() =~= Seq::<Seq<char>>::empty());
    assert(group_by.deep_view() =~= Seq::<Seq<char>>::empty());
    while i < args.len()
        invariant
            i <= args@.len(),
            av == args.deep_view(),
            rdm == descents_model(edge_descents@),
            backtest_spec(av, rdm) == backtest_finish(
                backtest_loop(
                    av,
                    rdm,
                    i as nat,
                    BacktestState {
                        help: false,
                        path: path.deep_view(),
                        unit: unit.deep_view(),
                        holdout: holdout.deep_view(),
                        sweeps: sweeps.deep_view(),
                        metric_strs: metric_strs.deep_view(),
                        group_by: group_by.deep_view(),
                        buckets: buckets@,
                        objective: objective.deep_view(),
                        goal: goal,
                        best_by: best_by,
                        min_n: min_n,
                        max_segments: max_segments,
                        max_grid: max_grid,
                        wilson_null: wilson_null,
                        include_writes: include_writes,
                        format: format,
                        emit_grid: emit_grid.deep_view(),
                        dry_run: dry_run,
                    },
                ),
            ),
        decreases args@.len() - i,
    {
        let arg = args[i].as_str();
        assert(av[i as int] == arg@);
        let has_v = i + 1 < args.len();
        if has_v {
            assert(av[i + 1] == args@[i + 1]@);
        }
        if str_eq(arg, "--help") || str_eq(arg, "-h") {
            return Ok(Parsed::Help);
        } else if str_eq(arg, "--unit") {
            if !has_v {
                return Err(lit("--unit requires a dimension name"));
            }
            unit = Some(args[i + 1].clone());
            i += 2;
        } else if str_eq(arg, "--holdout") {
            if !has_v {
                return Err(lit("--holdout requires a filter expression"));
            }
            holdout = Some(args[i + 1].clone());
            i += 2;
        } else if str_eq(arg, "--sweep") {
            if !has_v {
                return Err(lit("--sweep requires an axis spec"));
            }
            let ghost old_v = sweeps.deep_view();
            sweeps.push(args[i + 1].clone());
            assert(sweeps.deep_view() =~= old_v.push(av[i + 1]));
            i += 2;
        } else if str_eq(arg, "--metric") {
            if !has_v {
                return Err(lit("--metric requires an expression"));
            }
            let ghost old_v = metric_strs.deep_view();
            metric_strs.push(args[i + 1].clone());
            assert(metric_strs.deep_view() =~= old_v.push(av[i + 1]));
            i += 2;
        } else if str_eq(arg, "--group-by") {
            if !has_v {
                return Err(lit("--group-by requires a dimension or measure name"));
            }
            let ghost old_v = group_by.deep_view();
            group_by.push(args[i + 1].clone());
            assert(group_by.deep_view() =~= old_v.push(av[i + 1]));
            i += 2;
        } else if str_eq(arg, "--bucket") {
            if !has_v {
                return Err(lit("--bucket requires a measure name and edges"));
            }
            let measure = args[i + 1].as_str();
            if i + 2 >= args.len() {
                let mut m = lit("--bucket ");
                push_str(&mut m, measure);
                push_str(&mut m, " requires edges (e.g. 0:0.5:1.0)");
                return Err(m);
            }
            assert(av[i + 2] == args@[i + 2]@);
            let desc = descent_of(edge_descents, i + 2);
            if let Err(e) = check_bucket_edges(args[i + 2].as_str(), &desc) {
                let mut m = lit("--bucket ");
                push_str(&mut m, measure);
                push_str(&mut m, ": ");
                push_str(&mut m, e.as_str());
                return Err(m);
            }
            buckets.insert(args[i + 1].clone(), args[i + 2].clone());
            i += 3;
        } else if str_eq(arg, "--objective") {
            if !has_v {
                return Err(lit("--objective requires a metric name"));
            }
            objective = Some(args[i + 1].clone());
            i += 2;
        } else if str_eq(arg, "--goal") {
            if !has_v {
                return Err(lit("--goal requires maximize|minimize"));
            }
            let v = args[i + 1].as_str();
            if str_eq(v, "maximize") {
                goal = Goal::Maximize;
            } else if str_eq(v, "minimize") {
                goal = Goal::Minimize;
            } else {
                return Err(err_debug("--goal must be maximize|minimize, got ", v));
            }
            i += 2;
        } else if str_eq(arg, "--best-by") {
            if !has_v {
                return Err(lit("--best-by requires total|segment"));
            }
            let v = args[i + 1].as_str();
            if str_eq(v, "total") {
                best_by = BestBy::Total;
            } else if str_eq(v, "segment") {
                best_by = BestBy::Segment;
            } else {
                return Err(err_debug("--best-by must be total|segment, got ", v));
            }
            i += 2;
        } else if str_eq(arg, "--min-n") {
            if !has_v {
                return Err(lit("--min-n requires an integer"));
            }
            let v = args[i + 1].as_str();
            match parse_usize(v) {
                Some(n) => min_n = n,
                None => {
                    return Err(err_debug("--min-n must be a non-negative integer, got ", v));
                },
            }
            i += 2;
        } else if str_eq(arg, "--max-segments") {
            if !has_v {
                return Err(lit("--max-segments requires an integer"));
            }
            let v = args[i + 1].as_str();
            match parse_usize(v) {
                Some(n) => max_segments = n,
                None => {
                    return Err(err_debug("--max-segments must be a positive integer, got ", v));
                },
            }
            i += 2;
        } else if str_eq(arg, "--max-grid") {
            if !has_v {
                return Err(lit("--max-grid requires an integer"));
            }
            let v = args[i + 1].as_str();
            match parse_usize(v) {
                Some(n) => max_grid = n,
                None => {
                    return Err(err_debug("--max-grid must be a positive integer, got ", v));
                },
            }
            i += 2;
        } else if str_eq(arg, "--wilson-null") {
            if !has_v {
                return Err(lit("--wilson-null requires error|drop"));
            }
            let v = args[i + 1].as_str();
            if str_eq(v, "error") {
                wilson_null = WilsonNullPolicy::Error;
            } else if str_eq(v, "drop") {
                wilson_null = WilsonNullPolicy::Drop;
            } else {
                return Err(err_debug("--wilson-null must be error|drop, got ", v));
            }
            i += 2;
        } else if str_eq(arg, "--include-writes") {
            include_writes = true;
            i += 1;
        } else if str_eq(arg, "--format") {
            if !has_v {
                return Err(lit("--format requires an argument"));
            }
            let v = args[i + 1].as_str();
            if str_eq(v, "text") {
                format = BacktestFormat::Text;
            } else if str_eq(v, "json") {
                format = BacktestFormat::Json;
            } else {
                return Err(err_debug("--format must be text|json, got ", v));
            }
            i += 2;
        } else if str_eq(arg, "--emit-grid") {
            if !has_v {
                return Err(lit("--emit-grid requires a path"));
            }
            emit_grid = Some(args[i + 1].clone());
            i += 2;
        } else if str_eq(arg, "--dry-run") {
            dry_run = true;
            i += 1;
        } else if !starts_with_dashes(arg) && path.is_none() {
            path = Some(args[i].clone());
            i += 1;
        } else {
            return Err(err_debug("unknown argument: ", arg));
        }
    }
    let path = match path {
        None => {
            return Err(lit("`mc model backtest` requires a YAML model path"));
        },
        Some(p) => p,
    };
    let unit = match unit {
        None => {
            return Err(lit("--unit is required (the dimension whose leaves are the analysis units)"));
        },
        Some(u) => u,
    };
    if sweeps.len() == 0 {
        return Err(lit("at least one --sweep axis is required"));
    }
    if metric_strs.len() == 0 {
        return Err(lit("at least one --metric is required"));
    }
    if max_grid == 0 {
        return Err(lit("--max-grid must be at least 1"));
    }
    if best_by == BestBy::Segment && group_by.len() == 0 {
        return Err(lit("--best-by segment requires at least one --group-by"));
    }
    let metrics = match parse_metric_list(&metric_strs) {
        Err(e) => {
            return Err(e);
        },
        Ok(ms) => ms,
    };
    Ok(
        Parsed::Run(
            BacktestCommand {
                path,
                unit,
                holdout,
                sweeps,
                metrics,
                group_by,
                buckets,
                objective,
                goal,
                best_by,
                min_n,
                max_segments,
                max_grid,
                wilson_null,
                include_writes,
                format,
                emit_grid,
                dry_run,
            },
        ),
    )
}

} // verus!
