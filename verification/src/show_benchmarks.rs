//! `mc model show-benchmarks`: argument parsing.
use crate::text::{err_debug, has_prefix, lit, starts_with_dashes, str_debug, str_eq};
use vstd::prelude::*;

verus! {

/// A fully-parsed `mc model show-benchmarks` invocation.
#[derive(Debug)]
pub struct ShowBenchmarksCommand {
    pub path: String,
    pub metric: Option<String>,
    pub format: OutputFormat,
}

/// Output format of `show-benchmarks`.
#[derive(Clone, Copy, Debug, PartialEq, Eq, Structural)]
pub enum OutputFormat {
    Text,
    Json,
}

impl ShowBenchmarksCommand {
    pub open spec fn model(&self) -> ShowState {
        ShowState { path: Some(self.path@), metric: self.metric.deep_view(), format: self.format }
    }
}

/// What the argument loop has gathered so far.
pub struct ShowState {
    pub path: Option<Seq<char>>,
    pub metric: Option<Seq<char>>,
    pub format: OutputFormat,
}

/// The argument loop from position `i` on.
pub open spec fn show_loop(args: Seq<Seq<char>>, i: nat, st: ShowState) -> Result<ShowState, Seq<char>>
    decreases args.len() - i,
{
    if i >= args.len() {
        Ok(st)
    } else {
        let a = args[i as int];
        let has_v = i + 1 < args.len();
        let v = args[i + 1 as int];
        if a == "--metric"@ {
            if !has_v {
                Err("--metric requires a metric name"@)
            } else {
                show_loop(args, i + 2, ShowState { metric: Some(v), ..st })
            }
        } else if a == "--format"@ {
            if !has_v {
                Err("--format requires an argument"@)
            } else if v == "json"@ {
                show_loop(args, i + 2, ShowState { format: OutputFormat::Json, ..st })
            } else if v == "text"@ {
                show_loop(args, i + 2, ShowState { format: OutputFormat::Text, ..st })
            } else {
                Err("--format must be text or json; got "@ + str_debug(v))
            }
        } else if !has_prefix(a, seq!['-', '-']) && st.path is None {
            show_loop(args, i + 1, ShowState { path: Some(a), ..st })
        } else {
            Err("unknown argument: "@ + str_debug(a))
        }
    }
}

/// The check made once every argument is read.
pub open spec fn show_finish(r: Result<ShowState, Seq<char>>) -> Result<ShowState, Seq<char>> {
    match r {
        Err(e) => Err(e),
        Ok(st) => if st.path is None {
            Err("`mc model show-benchmarks` requires a model directory path"@)
        } else {
            Ok(st)
        },
    }
}

/// The state before any argument is read.
pub open spec fn show_init() -> ShowState {
    ShowState {
        path: None,
        metric: None,
        format: OutputFormat::Text,
    }
}

/// The outcome of parsing `show-benchmarks` arguments.
pub open spec fn show_spec(args: Seq<Seq<char>>) -> Result<ShowState, Seq<char>> {
    if args.len() == 0 {
        Err("`mc model show-benchmarks` requires a model directory path"@)
    } else {
        show_finish(show_loop(args, 0, show_init()))
    }
}

/// Parse `mc model show-benchmarks` arguments.
pub fn parse(args: &[String]) -> (r: Result<ShowBenchmarksCommand, String>)
    ensures
        match r {
            Ok(c) => show_spec(args.deep_view()) == Ok::<ShowState, Seq<char>>(c.model()),
            Err(e) => show_spec(args.deep_view()) == Err::<ShowState, Seq<char>>(e@),
        },
{
    let ghost av = args.deep_view();
    if args.len() == 0 {
        return Err(lit("`mc model show-benchmarks` requires a model directory path"));
    }
    let mut path: Option<String> = None;
    let mut metric: Option<String> = None;
    let mut format: OutputFormat = OutputFormat::Text;
    let mut i: usize = 0;
    while i < args.len()
        invariant
            i <= args@.len(),
            av == args.deep_view(),
            show_spec(av) == show_finish(show_loop(av, i as nat, ShowState {
                path: path.deep_view(),
                metric: metric.deep_view(),
                format: format,
            })),
        decreases args@.len() - i,
    {
        let arg = args[i].as_str();
        assert(av[i as int] == arg@);
        let has_v = i + 1 < args.len();
        if has_v {
            assert(av[i + 1] == args@[i + 1]@);
        }
        if str_eq(arg, "--metric") {
            if !has_v {
                return Err(lit("--metric requires a metric name"));
            }
            metric = Some(args[i + 1].clone());
            i += 2;
        } else if str_eq(arg, "--format") {
            if !has_v {
                return Err(lit("--format requires an argument"));
            }
            let v = args[i + 1].as_str();
            if str_eq(v, "json") {
                format = OutputFormat::Json;
            } else if str_eq(v, "text") {
                format = OutputFormat::Text;
            } else {
                return Err(err_debug("--format must be text or json; got ", v));
            }
            i += 2;
        } else if !starts_with_dashes(arg) && path.is_none() {
            path = Some(args[i].clone());
            i += 1;
        } else {
            return Err(err_debug("unknown argument: ", arg));
        }
    }
    let path = match path {
        None => {
            return Err(lit("`mc model show-benchmarks` requires a model directory path"));
        },
        Some(p) => p,
    };
    Ok(ShowBenchmarksCommand { path, metric, format })
}

} // verus!
