//! `mc model grade`: the argument grammar of a segmented holdout
//! evaluation. Bucket edges are checked as text (numbers, at least two)
//! and carried as their raw `e0:e1:...` text; turning them into numbers,
//! and checking that they ascend, is left to the caller.
use crate::cli::Parsed;
use crate::coord_map::{sorted_insert, CoordMap};
use crate::eval_common::{
    check_bucket_edges, descent_at, descent_of, descents_model, edges_spec,
    metric_models, metrics_spec, parse_metric_list, MetricExpr, MetricModel, WilsonNullPolicy,
};
use crate::text::{
    err_debug, has_prefix, lit, parse_usize, parse_usize_spec, push_str, starts_with_dashes,
    str_debug, str_eq,
};
use vstd::prelude::*;

pub mod flag;

verus! {

/// Output format for `grade` (`text | json`).
#[derive(Debug, Clone, Copy, PartialEq, Eq, Structural)]
pub enum GradeFormat {
    Text,
    Json,
}

/// A fully-parsed `mc model grade` invocation; `buckets` maps a measure to
/// its raw edge list.
#[derive(Debug)]
pub struct GradeCommand {
    pub path: String,
    pub unit: String,
    pub holdout: Option<String>,
    pub group_by: Vec<String>,
    pub metrics: Vec<MetricExpr>,
    pub buckets: CoordMap,
    pub flag_if: Option<String>,
    pub min_n: usize,
    pub max_segments: usize,
    pub wilson_null: WilsonNullPolicy,
    pub include_writes: bool,
    pub format: GradeFormat,
}

/// The value a [`GradeCommand`] stands for.
pub struct GradeModel {
    pub path: Seq<char>,
    pub unit: Seq<char>,
    pub holdout: Option<Seq<char>>,
    pub group_by: Seq<Seq<char>>,
    pub metrics: Seq<MetricModel>,
    pub buckets: Seq<(Seq<char>, Seq<char>)>,
    pub flag_if: Option<Seq<char>>,
    pub min_n: usize,
    pub max_segments: usize,
    pub wilson_null: WilsonNullPolicy,
    pub include_writes: bool,
    pub format: GradeFormat,
}

impl GradeCommand {
    pub open spec fn model(&self) -> GradeModel {
        GradeModel {
            path: self.path@,
            unit: self.unit@,
            holdout: self.holdout.deep_view(),
            group_by: self.group_by.deep_view(),
            metrics: metric_models(self.metrics@),
            buckets: self.buckets@,
            flag_if: self.flag_if.deep_view(),
            min_n: self.min_n,
            max_segments: self.max_segments,
            wilson_null: self.wilson_null,
            include_writes: self.include_writes,
            format: self.format,
        }
    }
}

/// What the argument loop has gathered so far.
pub struct GradeState {
    pub help: bool,
    pub path: Option<Seq<char>>,
    pub unit: Option<Seq<char>>,
    pub holdout: Option<Seq<char>>,
    pub group_by: Seq<Seq<char>>,
    pub metric_strs: Seq<Seq<char>>,
    pub buckets: Seq<(Seq<char>, Seq<char>)>,
    pub flag_if: Option<Seq<char>>,
    pub min_n: usize,
    pub max_segments: usize,
    pub wilson_null: WilsonNullPolicy,
    pub include_writes: bool,
    pub format: GradeFormat,
}

/// The argument loop from position `i` on; `--help` stops it at once.
pub open spec fn grade_loop(args: Seq<Seq<char>>, rd: Seq<Option<Seq<char>>>, i: nat, st: GradeState) -> Result<
    GradeState,
    Seq<char>,
>
    decreases args.len() - i,
{
    if i >= args.len() {
        Ok(st)
    } else {
        let a = args[i as int];
        let has_v = i + 1 < args.len();
        let v = args[i + 1 as int];
        if a == "--help"@ || a == "-h"@ {
            Ok(GradeState { help: true, ..st })
        } else if a == "--unit"@ {
            if !has_v {
                Err("--unit requires a dimension name"@)
            } else {
                grade_loop(args, rd, i + 2, GradeState { unit: Some(v), ..st })
            }
        } else if a == "--holdout"@ {
            if !has_v {
                Err("--holdout requires a filter expression"@)
            } else {
                grade_loop(args, rd, i + 2, GradeState { holdout: Some(v), ..st })
            }
        } else if a == "--group-by"@ {
            if !has_v {
                Err("--group-by requires a dimension or measure name"@)
            } else {
                grade_loop(args, rd, i + 2, GradeState { group_by: st.group_by.push(v), ..st })
            }
        } else if a == "--metric"@ {
            if !has_v {
                Err("--metric requires an expression"@)
            } else {
                grade_loop(args, rd, i + 2, GradeState { metric_strs: st.metric_strs.push(v), ..st })
            }
        } else if a == "--bucket"@ {
            if !has_v {
                Err("--bucket requires a measure name and edges"@)
            } else if i + 2 >= args.len() {
                Err("--bucket "@ + v + " requires edges (e.g. 0:0.5:1.0)"@)
            } else {
                match edges_spec(args[i + 2 as int], descent_at(rd, i + 2 as int)) {
                    Err(e) => Err("--bucket "@ + v + ": "@ + e),
                    Ok(_) => grade_loop(args, rd, i + 3,
                        GradeState { buckets: sorted_insert(st.buckets, v, args[i + 2 as int]), ..st },
                    ),
                }
            }
        } else if a == "--flag-if"@ {
            if !has_v {
                Err("--flag-if requires a predicate"@)
            } else {
                grade_loop(args, rd, i + 2, GradeState { flag_if: Some(v), ..st })
            }
        } else if a == "--min-n"@ {
            if !has_v {
                Err("--min-n requires an integer"@)
            } else {
                match parse_usize_spec(v) {
                    Some(n) => grade_loop(args, rd, i + 2, GradeState { min_n: n, ..st }),
                    None => Err("--min-n must be a non-negative integer, got "@ + str_debug(v)),
                }
            }
        } else if a == "--max-segments"@ {
            if !has_v {
                Err("--max-segments requires an integer"@)
            } else {
                match parse_usize_spec(v) {
                    Some(n) => grade_loop(args, rd, i + 2, GradeState { max_segments: n, ..st }),
                    None => Err("--max-segments must be a positive integer, got "@ + str_debug(v)),
                }
            }
        } else if a == "--wilson-null"@ {
            if !has_v {
                Err("--wilson-null requires error|drop"@)
            } else if v == "error"@ {
                grade_loop(args, rd, i + 2, GradeState { wilson_null: WilsonNullPolicy::Error, ..st })
            } else if v == "drop"@ {
                grade_loop(args, rd, i + 2, GradeState { wilson_null: WilsonNullPolicy::Drop, ..st })
            } else {
                Err("--wilson-null must be error|drop, got "@ + str_debug(v))
            }
        } else if a == "--include-writes"@ {
            grade_loop(args, rd, i + 1, GradeState { include_writes: true, ..st })
        } else if a == "--format"@ {
            if !has_v {
                Err("--format requires an argument"@)
            } else if v == "text"@ {
                grade_loop(args, rd, i + 2, GradeState { format: GradeFormat::Text, ..st })
            } else if v == "json"@ {
                grade_loop(args, rd, i + 2, GradeState { format: GradeFormat::Json, ..st })
            } else {
                Err("--format must be text|json, got "@ + str_debug(v))
            }
        } else if !has_prefix(a, seq!['-', '-']) && st.path is None {
            grade_loop(args, rd, i + 1, GradeState { path: Some(a), ..st })
        } else {
            Err("unknown argument: "@ + str_debug(a))
        }
    }
}

/// The checks made once every argument is read, then the metric parse.
pub open spec fn grade_finish(r: Result<GradeState, Seq<char>>) -> Result<
    Parsed<GradeModel>,
    Seq<char>,
> {
    match r {
        Err(e) => Err(e),
        Ok(st) => if st.help {
            Ok(Parsed::Help)
        } else if st.path is None {
            Err("`mc model grade` requires a YAML model path"@)
        } else if st.unit is None {
            Err("--unit is required (the dimension whose leaves are the analysis units)"@)
        } else if st.metric_strs.len() == 0 {
            Err("at least one --metric is required"@)
        } else {
            match metrics_spec(st.metric_strs) {
                Err(e) => Err(e),
                Ok(ms) => Ok(
                    Parsed::Run(
                        GradeModel {
                            path: st.path->0,
                            unit: st.unit->0,
                            holdout: st.holdout,
                            group_by: st.group_by,
                            metrics: ms,
                            buckets: st.buckets,
                            flag_if: st.flag_if,
                            min_n: st.min_n,
                            max_segments: st.max_segments,
                            wilson_null: st.wilson_null,
                            include_writes: st.include_writes,
                            format: st.format,
                        },
                    ),
                ),
            }
        },
    }
}

/// The state before any argument is read: every option at its default.
pub open spec fn grade_init() -> GradeState {
    GradeState {
        help: false,
        path: None,
        unit: None,
        holdout: None,
        group_by: Seq::empty(),
        metric_strs: Seq::empty(),
        buckets: Seq::empty(),
        flag_if: None,
        min_n: 0,
        max_segments: 50,
        wilson_null: WilsonNullPolicy::Error,
        include_writes: false,
        format: GradeFormat::Text,
    }
}

/// The outcome of parsing `grade` arguments.
pub open spec fn grade_spec(args: Seq<Seq<char>>, rd: Seq<Option<Seq<char>>>) -> Result<Parsed<GradeModel>, Seq<char>> {
    grade_finish(grade_loop(args, rd, 0, grade_init()))
}

/// Parse `mc model grade` arguments.
#[verifier::rlimit(60)]
pub fn parse(args: &[String], edge_descents: &[Option<String>]) -> (r: Result<Parsed<GradeCommand>, String>)
    ensures
        match r {
            Ok(Parsed::Help) => grade_spec(args.deep_view(), descents_model(edge_descents@)) == Ok::<Parsed<GradeModel>, Seq<char>>(
                Parsed::Help,
            ),
            Ok(Parsed::Run(c)) => grade_spec(args.deep_view(), descents_model(edge_descents@)) == Ok::<
                Parsed<GradeModel>,
                Seq<char>,
            >(Parsed::Run(c.model())),
            Err(e) => grade_spec(args.deep_view(), descents_model(edge_descents@)) == Err::<Parsed<GradeModel>, Seq<char>>(e@),
        },
{
    let ghost av = args.deep_view();
    let ghost rdm = descents_model(edge_descents@);
    let mut path: Option<String> = None;
    let mut unit: Option<String> = None;
    let mut holdout: Option<String> = None;
    let mut group_by: Vec<String> = Vec::new();
    let mut metric_strs: Vec<String> = Vec::new();
    let mut buckets = CoordMap::new();
    let mut flag_if: Option<String> = None;
    let mut min_n: usize = 0;
    let mut max_segments: usize = 50;
    let mut wilson_null = WilsonNullPolicy::Error;
    let mut include_writes = false;
    let mut format = GradeFormat::Text;
    let mut i: usize = 0;
    assert(metric_strs.deep_view() =~= Seq::<Seq<char>>::empty());
    assert(group_by.deep_view() =~= Seq::<Seq<char>>::empty());
    while i < args.len()
        invariant
            i <= args@.len(),
            av == args.deep_view(),
            rdm == descents_model(edge_descents@),
            grade_spec(av, rdm) == grade_finish(
                grade_loop(
                    av,
                    rdm,
                    i as nat,
                    GradeState {
                        help: false,
                        path: path.deep_view(),
                        unit: unit.deep_view(),
                        holdout: holdout.deep_view(),
                        group_by: group_by.deep_view(),
                        metric_strs: metric_strs.deep_view(),
                        buckets: buckets@,
                        flag_if: flag_if.deep_view(),
                        min_n: min_n,
                        max_segments: max_segments,
                        wilson_null: wilson_null,
                        include_writes: include_writes,
                        format: format,
                    },
                ),
            ),
        decreases args@.len() - i,
    {
        let arg = args[i].as_str();
        assert(av[i as int] == arg@);
        let has_v = i + 1 < args.len();
        if has_v {
            assert(av[i + 1] == args@[i + 1]@);
        }
        if str_eq(arg, "--help") || str_eq(arg, "-h") {
            return Ok(Parsed::Help);
        } else if str_eq(arg, "--unit") {
            if !has_v {
                return Err(lit("--unit requires a dimension name"));
            }
            unit = Some(args[i + 1].clone());
            i += 2;
        } else if str_eq(arg, "--holdout") {
            if !has_v {
                return Err(lit("--holdout requires a filter expression"));
            }
            holdout = Some(args[i + 1].clone());
            i += 2;
        } else if str_eq(arg, "--group-by") {
            if !has_v {
                return Err(lit("--group-by requires a dimension or measure name"));
            }
            let ghost old_v = group_by.deep_view();
            group_by.push(args[i + 1].clone());
            assert(group_by.deep_view() =~= old_v.push(av[i + 1]));
            i += 2;
        } else if str_eq(arg, "--metric") {
            if !has_v {
                return Err(lit("--metric requires an expression"));
            }
            let ghost old_v = metric_strs.deep_view();
            metric_strs.push(args[i + 1].clone());
            assert(metric_strs.deep_view() =~= old_v.push(av[i + 1]));
            i += 2;
        } else if str_eq(arg, "--bucket") {
            if !has_v {
                return Err(lit("--bucket requires a measure name and edges"));
            }
            let measure = args[i + 1].as_str();
            if i + 2 >= args.len() {
                let mut m = lit("--bucket ");
                push_str(&mut m, measure);
                push_str(&mut m, " requires edges (e.g. 0:0.5:1.0)");
                return Err(m);
            }
            assert(av[i + 2] == args@[i + 2]@);
            let desc = descent_of(edge_descents, i + 2);
            if let Err(e) = check_bucket_edges(args[i + 2].as_str(), &desc) {
                let mut m = lit("--bucket ");
                push_str(&mut m, measure);
                push_str(&mut m, ": ");
                push_str(&mut m, e.as_str());
                return Err(m);
            }
            buckets.insert(args[i + 1].clone(), args[i + 2].clone());
            i += 3;
        } else if str_eq(arg, "--flag-if") {
            if !has_v {
                return Err(lit("--flag-if requires a predicate"));
            }
            flag_if = Some(args[i + 1].clone());
            i += 2;
        } else if str_eq(arg, "--min-n") {
            if !has_v {
                return Err(lit("--min-n requires an integer"));
            }
            let v = args[i + 1].as_str();
            match parse_usize(v) {
                Some(n) => min_n = n,
                None => {
                    return Err(err_debug("--min-n must be a non-negative integer, got ", v));
                },
            }
            i += 2;
        } else if str_eq(arg, "--max-segments") {
            if !has_v {
                return Err(lit("--max-segments requires an integer"));
            }
            let v = args[i + 1].as_str();
            match parse_usize(v) {
                Some(n) => max_segments = n,
                None => {
                    return Err(err_debug("--max-segments must be a positive integer, got ", v));
                },
            }
            i += 2;
        } else if str_eq(arg, "--wilson-null") {
            if !has_v {
                return Err(lit("--wilson-null requires error|drop"));
            }
            let v = args[i + 1].as_str();
            if str_eq(v, "error") {
                wilson_null = WilsonNullPolicy::Error;
            } else if str_eq(v, "drop") {
                wilson_null = WilsonNullPolicy::Drop;
            } else {
                return Err(err_debug("--wilson-null must be error|drop, got ", v));
            }
            i += 2;
        } else if str_eq(arg, "--include-writes") {
            include_writes = true;
            i += 1;
        } else if str_eq(arg, "--format") {
            if !has_v {
                return Err(lit("--format requires an argument"));
            }
            let v = args[i + 1].as_str();
            if str_eq(v, "text") {
                format = GradeFormat::Text;
            } else if str_eq(v, "json") {
                format = GradeFormat::Json;
            } else {
                return Err(err_debug("--format must be text|json, got ", v));
            }
            i += 2;
        } else if !starts_with_dashes(arg) && path.is_none() {
            path = Some(args[i].clone());
            i += 1;
        } else {
            return Err(err_debug("unknown argument: ", arg));
        }
    }
    let path = match path {
        None => {
            return Err(lit("`mc model grade` requires a YAML model path"));
        },
        Some(p) => p,
    };
    let unit = match unit {
        None => {
            return Err(lit("--unit is required (the dimension whose leaves are the analysis units)"));
        },
        Some(u) => u,
    };
    if metric_strs.len() == 0 {
        return Err(lit("at least one --metric is required"));
    }
    let metrics = match parse_metric_list(&metric_strs) {
        Err(e) => {
            return Err(e);
        },
        Ok(ms) => ms,
    };
    Ok(
        Parsed::Run(
            GradeCommand {
                path,
                unit,
                holdout,
                group_by,
                metrics,
                buckets,
                flag_if,
                min_n,
                max_segments,
                wilson_null,
                include_writes,
                format,
            },
        ),
    )
}

} // verus!
