//! `mc model sweep`: argument parsing, and the measure a sweep metric
//! reads.
use crate::query::{strip_fn, strip_fn_spec, OutputFormat};
use crate::text::{
    chars_of, err_debug, has_prefix, lit, starts_with_dashes, str_debug, str_eq, string_of, trim,
    trim_chars,
};
use vstd::prelude::*;

verus! {

/// A fully-parsed `mc model sweep` invocation.
#[derive(Debug)]
pub struct SweepCommand {
    pub path: String,
    pub format: OutputFormat,
    pub model_name: Option<String>,
    pub coefficient: Option<String>,
    pub set_coord: Option<String>,
    pub range: String,
    pub metric: String,
    /// `minimize` or `maximize`.
    pub goal: String,
    pub dry_run: bool,
    pub time_anchor: Option<String>,
    /// A filter restricting the leaf coordinates the metric ranges over.
    pub metric_where: Option<String>,
    /// Enrich text output with measure descriptions.
    pub verbose: bool,
}

impl SweepCommand {
    pub open spec fn model(&self) -> SweepState {
        SweepState {
            path: Some(self.path@),
            format: self.format,
            model_name: self.model_name.deep_view(),
            coefficient: self.coefficient.deep_view(),
            set_coord: self.set_coord.deep_view(),
            range: Some(self.range@),
            metric: Some(self.metric@),
            goal: self.goal@,
            dry_run: self.dry_run,
            time_anchor: self.time_anchor.deep_view(),
            metric_where: self.metric_where.deep_view(),
            verbose: self.verbose,
        }
    }
}

/// What the argument loop has gathered so far.
pub struct SweepState {
    pub path: Option<Seq<char>>,
    pub format: OutputFormat,
    pub model_name: Option<Seq<char>>,
    pub coefficient: Option<Seq<char>>,
    pub set_coord: Option<Seq<char>>,
    pub range: Option<Seq<char>>,
    pub metric: Option<Seq<char>>,
    pub goal: Seq<char>,
    pub dry_run: bool,
    pub time_anchor: Option<Seq<char>>,
    pub metric_where: Option<Seq<char>>,
    pub verbose: bool,
}

/// The argument loop from position `i` on.
pub open spec fn sweep_loop(args: Seq<Seq<char>>, i: nat, st: SweepState) -> Result<SweepState, Seq<char>>
    decreases args.len() - i,
{
    if i >= args.len() {
        Ok(st)
    } else {
        let a = args[i as int];
        let has_v = i + 1 < args.len();
        let v = args[i + 1 as int];
        if a == "--format"@ {
            if !has_v {
                Err("--format requires an argument"@)
            } else if v == "text"@ {
                sweep_loop(args, i + 2, SweepState { format: OutputFormat::Text, ..st })
            } else if v == "json"@ {
                sweep_loop(args, i + 2, SweepState { format: OutputFormat::Json, ..st })
            } else if v == "csv"@ {
                sweep_loop(args, i + 2, SweepState { format: OutputFormat::Csv, ..st })
            } else {
                Err("--format must be text|json|csv, got "@ + str_debug(v))
            }
        } else if a == "--model"@ {
            if !has_v {
                Err("--model requires a name"@)
            } else {
                sweep_loop(args, i + 2, SweepState { model_name: Some(v), ..st })
            }
        } else if a == "--coefficient"@ {
            if !has_v {
                Err("--coefficient requires a name"@)
            } else {
                sweep_loop(args, i + 2, SweepState { coefficient: Some(v), ..st })
            }
        } else if a == "--set"@ {
            if !has_v {
                Err("--set requires a coord string"@)
            } else {
                sweep_loop(args, i + 2, SweepState { set_coord: Some(v), ..st })
            }
        } else if a == "--range"@ {
            if !has_v {
                Err("--range requires a range spec (start:end:step)"@)
            } else {
                sweep_loop(args, i + 2, SweepState { range: Some(v), ..st })
            }
        } else if a == "--metric"@ {
            if !has_v {
                Err("--metric requires an expression"@)
            } else {
                sweep_loop(args, i + 2, SweepState { metric: Some(v), ..st })
            }
        } else if a == "--goal"@ {
            if !has_v {
                Err("--goal requires an argument"@)
            } else if v == "minimize"@ || v == "maximize"@ {
                sweep_loop(args, i + 2, SweepState { goal: v, ..st })
            } else {
                Err("--goal must be minimize|maximize, got "@ + str_debug(v))
            }
        } else if a == "--dry-run"@ {
            sweep_loop(args, i + 1, SweepState { dry_run: true, ..st })
        } else if a == "--time-anchor"@ {
            if !has_v {
                Err("--time-anchor requires an element name"@)
            } else {
                sweep_loop(args, i + 2, SweepState { time_anchor: Some(v), ..st })
            }
        } else if a == "--metric-where"@ {
            if !has_v {
                Err("--metric-where requires an expression argument"@)
            } else {
                sweep_loop(args, i + 2, SweepState { metric_where: Some(v), ..st })
            }
        } else if a == "--verbose"@ || a == "-v"@ {
            sweep_loop(args, i + 1, SweepState { verbose: true, ..st })
        } else if !has_prefix(a, seq!['-', '-']) && st.path is None {
            sweep_loop(args, i + 1, SweepState { path: Some(a), ..st })
        } else {
            Err("unknown argument: "@ + str_debug(a))
        }
    }
}

/// The checks made once every argument is read.
pub open spec fn sweep_finish(r: Result<SweepState, Seq<char>>) -> Result<SweepState, Seq<char>> {
    match r {
        Err(e) => Err(e),
        Ok(st) => if st.path is None {
            Err("`mc model sweep` requires a YAML model path"@)
        } else if st.range is None {
            Err("--range is required (format: start:end:step)"@)
        } else if st.metric is None {
            Err("--metric is required"@)
        } else {
            Ok(st)
        },
    }
}

/// The state before any argument is read.
pub open spec fn sweep_init() -> SweepState {
    SweepState {
        path: None,
        format: OutputFormat::Text,
        model_name: None,
        coefficient: None,
        set_coord: None,
        range: None,
        metric: None,
        goal: "minimize"@,
        dry_run: false,
        time_anchor: None,
        metric_where: None,
        verbose: false,
    }
}

/// The outcome of parsing `sweep` arguments.
pub open spec fn sweep_spec(args: Seq<Seq<char>>) -> Result<SweepState, Seq<char>> {
    sweep_finish(sweep_loop(args, 0, sweep_init()))
}

/// Parse `mc model sweep` arguments.
pub fn parse(args: &[String]) -> (r: Result<SweepCommand, String>)
    ensures
        match r {
            Ok(c) => sweep_spec(args.deep_view()) == Ok::<SweepState, Seq<char>>(c.model()),
            Err(e) => sweep_spec(args.deep_view()) == Err::<SweepState, Seq<char>>(e@),
        },
{
    let ghost av = args.deep_view();
    let mut path: Option<String> = None;
    let mut format: OutputFormat = OutputFormat::Text;
    let mut model_name: Option<String> = None;
    let mut coefficient: Option<String> = None;
    let mut set_coord: Option<String> = None;
    let mut range: Option<String> = None;
    let mut metric: Option<String> = None;
    let mut goal: String = lit("minimize");
    let mut dry_run: bool = false;
    let mut time_anchor: Option<String> = None;
    let mut metric_where: Option<String> = None;
    let mut verbose: bool = false;
    let mut i: usize = 0;
    while i < args.len()
        invariant
            i <= args@.len(),
            av == args.deep_view(),
            sweep_spec(av) == sweep_finish(sweep_loop(av, i as nat, SweepState {
                path: path.deep_view(),
                format: format,
                model_name: model_name.deep_view(),
                coefficient: coefficient.deep_view(),
                set_coord: set_coord.deep_view(),
                range: range.deep_view(),
                metric: metric.deep_view(),
                goal: goal@,
                dry_run: dry_run,
                time_anchor: time_anchor.deep_view(),
                metric_where: metric_where.deep_view(),
                verbose: verbose,
            })),
        decreases args@.len() - i,
    {
        let arg = args[i].as_str();
        assert(av[i as int] == arg@);
        let has_v = i + 1 < args.len();
        if has_v {
            assert(av[i + 1] == args@[i + 1]@);
        }
        if str_eq(arg, "--format") {
            if !has_v {
                return Err(lit("--format requires an argument"));
            }
            let v = args[i + 1].as_str();
            if str_eq(v, "text") {
                format = OutputFormat::Text;
            } else if str_eq(v, "json") {
                format = OutputFormat::Json;
            } else if str_eq(v, "csv") {
                format = OutputFormat::Csv;
            } else {
                return Err(err_debug("--format must be text|json|csv, got ", v));
            }
            i += 2;
        } else if str_eq(arg, "--model") {
            if !has_v {
                return Err(lit("--model requires a name"));
            }
            model_name = Some(args[i + 1].clone());
            i += 2;
        } else if str_eq(arg, "--coefficient") {
            if !has_v {
                return Err(lit("--coefficient requires a name"));
            }
            coefficient = Some(args[i + 1].clone());
            i += 2;
        } else if str_eq(arg, "--set") {
            if !has_v {
                return Err(lit("--set requires a coord string"));
            }
            set_coord = Some(args[i + 1].clone());
            i += 2;
        } else if str_eq(arg, "--range") {
            if !has_v {
                return Err(lit("--range requires a range spec (start:end:step)"));
            }
            range = Some(args[i + 1].clone());
            i += 2;
        } else if str_eq(arg, "--metric") {
            if !has_v {
                return Err(lit("--metric requires an expression"));
            }
            metric = Some(args[i + 1].clone());
            i += 2;
        } else if str_eq(arg, "--goal") {
            if !has_v {
                return Err(lit("--goal requires an argument"));
            }
            let v = args[i + 1].as_str();
            if str_eq(v, "minimize") || str_eq(v, "maximize") {
                goal = args[i + 1].clone();
            } else {
                return Err(err_debug("--goal must be minimize|maximize, got ", v));
            }
            i += 2;
        } else if str_eq(arg, "--dry-run") {
            dry_run = true;
            i += 1;
        } else if str_eq(arg, "--time-anchor") {
            if !has_v {
                return Err(lit("--time-anchor requires an element name"));
            }
            time_anchor = Some(args[i + 1].clone());
            i += 2;
        } else if str_eq(arg, "--metric-where") {
            if !has_v {
                return Err(lit("--metric-where requires an expression argument"));
            }
            metric_where = Some(args[i + 1].clone());
            i += 2;
        } else if str_eq(arg, "--verbose") || str_eq(arg, "-v") {
            verbose = true;
            i += 1;
        } else if !starts_with_dashes(arg) && path.is_none() {
            path = Some(args[i].clone());
            i += 1;
        } else {
            return Err(err_debug("unknown argument: ", arg));
        }
    }
    let path = match path {
        None => {
            return Err(lit("`mc model sweep` requires a YAML model path"));
        },
        Some(p) => p,
    };
    let range = match range {
        None => {
            return Err(lit("--range is required (format: start:end:step)"));
        },
        Some(x) => x,
    };
    let metric = match metric {
        None => {
            return Err(lit("--metric is required"));
        },
        Some(x) => x,
    };
    Ok(
        SweepCommand {
            path,
            format,
            model_name,
            coefficient,
            set_coord,
            range,
            metric,
            goal,
            dry_run,
            time_anchor,
            metric_where,
            verbose,
        },
    )
}

/// The measure a sweep metric reads: the argument of `mean(..)`,
/// `sum(..)`, `max(..)` or `min(..)`, or else the whole (trimmed) metric.
pub open spec fn metric_measure(metric: Seq<char>) -> Seq<char> {
    let t = trim(metric);
    match strip_fn_spec("mean"@, t) {
        Some(x) => x,
        None => match strip_fn_spec("sum"@, t) {
            Some(x) => x,
            None => match strip_fn_spec("max"@, t) {
                Some(x) => x,
                None => match strip_fn_spec("min"@, t) {
                    Some(x) => x,
                    None => t,
                },
            },
        },
    }
}

/// The measure name a sweep metric reads.
pub fn extract_metric_measure_name(metric: &str) -> (r: String)
    ensures
        r@ == metric_measure(metric@),
{
    let cs = chars_of(metric);
    let t = string_of(&trim_chars(&cs));
    if let Some(x) = strip_fn("mean", t.as_str()) {
        return x;
    }
    if let Some(x) = strip_fn("sum", t.as_str()) {
        return x;
    }
    if let Some(x) = strip_fn("max", t.as_str()) {
        return x;
    }
    if let Some(x) = strip_fn("min", t.as_str()) {
        return x;
    }
    t
}

/// Some argument from position `i` on is `flag` and is followed by `v`.
pub open spec fn follows(args: Seq<Seq<char>>, i: int, flag: Seq<char>, v: Seq<char>) -> bool {
    exists|j: int| i <= j && j + 1 < args.len() && #[trigger] args[j] == flag && args[j + 1] == v
}

proof fn lemma_sweep_loop_goal(args: Seq<Seq<char>>, i: nat, st: SweepState)
    ensures
        sweep_loop(args, i, st) matches Ok(s2) ==> {
            &&& ((st.goal == "minimize"@ || st.goal == "maximize"@) ==> (s2.goal == "minimize"@ || s2.goal
                == "maximize"@))
            &&& ((forall|j: int| i <= j < args.len() ==> args[j] != "--goal"@) ==> s2.goal == st.goal)
            &&& (s2.goal == st.goal || follows(args, i as int, "--goal"@, s2.goal))
            &&& (s2.range matches Some(r) ==> (st.range == Some(r) || follows(args, i as int, "--range"@, r)))
            &&& (s2.metric matches Some(m) ==> (st.metric == Some(m) || follows(args, i as int, "--metric"@, m)))
            &&& ((forall|j: int| i <= j < args.len() ==> args[j] != "--range"@) ==> s2.range == st.range)
            &&& ((forall|j: int| i <= j < args.len() ==> args[j] != "--format"@) ==> s2.format == st.format)
            &&& (s2.format == st.format || (s2.format == OutputFormat::Text && follows(args, i as int, "--format"@, "text"@))
                || (s2.format == OutputFormat::Json && follows(args, i as int, "--format"@, "json"@)) || (s2.format
                == OutputFormat::Csv && follows(args, i as int, "--format"@, "csv"@)))
        },
    decreases args.len() - i,
{
    if i < args.len() {
        let a = args[i as int];
        let has_v = i + 1 < args.len();
        let v = args[i + 1 as int];
        if a == "--format"@ {
            if has_v {
                if v == "text"@ {
                    lemma_sweep_loop_goal(args, i + 2, SweepState { format: OutputFormat::Text, ..st });
                } else if v == "json"@ {
                    lemma_sweep_loop_goal(args, i + 2, SweepState { format: OutputFormat::Json, ..st });
                } else if v == "csv"@ {
                    lemma_sweep_loop_goal(args, i + 2, SweepState { format: OutputFormat::Csv, ..st });
                }
            }
        } else if a == "--model"@ {
            if has_v {
                lemma_sweep_loop_goal(args, i + 2, SweepState { model_name: Some(v), ..st });
            }
        } else if a == "--coefficient"@ {
            if has_v {
                lemma_sweep_loop_goal(args, i + 2, SweepState { coefficient: Some(v), ..st });
            }
        } else if a == "--set"@ {
            if has_v {
                lemma_sweep_loop_goal(args, i + 2, SweepState { set_coord: Some(v), ..st });
            }
        } else if a == "--range"@ {
            if has_v {
                lemma_sweep_loop_goal(args, i + 2, SweepState { range: Some(v), ..st });
            }
        } else if a == "--metric"@ {
            if has_v {
                lemma_sweep_loop_goal(args, i + 2, SweepState { metric: Some(v), ..st });
            }
        } else if a == "--goal"@ {
            if has_v && (v == "minimize"@ || v == "maximize"@) {
                lemma_sweep_loop_goal(args, i + 2, SweepState { goal: v, ..st });
            }
        } else if a == "--dry-run"@ {
            lemma_sweep_loop_goal(args, i + 1, SweepState { dry_run: true, ..st });
        } else if a == "--time-anchor"@ {
            if has_v {
                lemma_sweep_loop_goal(args, i + 2, SweepState { time_anchor: Some(v), ..st });
            }
        } else if a == "--metric-where"@ {
            if has_v {
                lemma_sweep_loop_goal(args, i + 2, SweepState { metric_where: Some(v), ..st });
            }
        } else if a == "--verbose"@ || a == "-v"@ {
            lemma_sweep_loop_goal(args, i + 1, SweepState { verbose: true, ..st });
        } else if !has_prefix(a, seq!['-', '-']) && st.path is None {
            lemma_sweep_loop_goal(args, i + 1, SweepState { path: Some(a), ..st });
        }
    }
}

/// A parsed `sweep` names a model, a range and a metric, and its goal is
/// `minimize` or `maximize`: `minimize` when no `--goal` is given. The
/// range and the metric are values given after `--range` and `--metric`,
/// and a `maximize` goal was given after `--goal`. A JSON report was
/// asked for with `--format json` and a CSV one with `--format csv`;
/// without `--format` the report is text. Arguments that name a
/// model but hold no `--range` are refused for it.
pub proof fn law_sweep_arguments(args: Seq<Seq<char>>)
    ensures
        sweep_spec(args) matches Ok(c) ==> {
            &&& c.path is Some && c.range is Some && c.metric is Some
            &&& (c.goal == "minimize"@ || c.goal == "maximize"@)
            &&& (!args.contains("--goal"@) ==> c.goal == "minimize"@)
            &&& follows(args, 0, "--range"@, c.range->0)
            &&& follows(args, 0, "--metric"@, c.metric->0)
            &&& (c.goal == "maximize"@ ==> follows(args, 0, "--goal"@, "maximize"@))
            &&& (c.format == OutputFormat::Json ==> follows(args, 0, "--format"@, "json"@))
            &&& (c.format == OutputFormat::Csv ==> follows(args, 0, "--format"@, "csv"@))
            &&& (!args.contains("--format"@) ==> c.format == OutputFormat::Text)
        },
        sweep_loop(args, 0, sweep_init()) matches Ok(st) ==> (st.path is Some && !args.contains("--range"@)
            ==> sweep_spec(args) == Err::<SweepState, Seq<char>>("--range is required (format: start:end:step)"@)),
{
    lemma_sweep_loop_goal(args, 0, sweep_init());
    if !args.contains("--format"@) {
        assert forall|j: int| 0 <= j < args.len() implies args[j] != "--format"@ by {
            if args[j] == "--format"@ {
                assert(args.contains("--format"@));
            }
        }
    }
    if !args.contains("--range"@) {
        assert forall|j: int| 0 <= j < args.len() implies args[j] != "--range"@ by {
            if args[j] == "--range"@ {
                assert(args.contains("--range"@));
            }
        }
    }
    assert("minimize"@ != "maximize"@) by {
        reveal_strlit("minimize");
        reveal_strlit("maximize");
        assert("minimize"@[1] != "maximize"@[1]);
    }
    if !args.contains("--goal"@) {
        assert forall|j: int| 0 <= j < args.len() implies args[j] != "--goal"@ by {
            if args[j] == "--goal"@ {
                assert(args.contains("--goal"@));
            }
        }
    }
}

} // verus!
