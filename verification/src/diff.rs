//! `mc model diff`: argument parsing.
use crate::query::OutputFormat;
use crate::text::{
    err_debug, has_prefix, lit, parse_usize, parse_usize_spec, starts_with_dashes, str_debug,
    str_eq,
};
use vstd::prelude::*;

verus! {

/// A fully-parsed `mc model diff` invocation.
#[derive(Debug)]
pub struct DiffCommand {
    pub path: String,
    pub format: OutputFormat,
    pub left: Option<String>,
    pub right: Option<String>,
    pub limit: usize,
    pub time_anchor: Option<String>,
    /// Enrich text output with measure descriptions.
    pub verbose: bool,
}

impl DiffCommand {
    pub open spec fn model(&self) -> DiffState {
        DiffState {
            path: Some(self.path@),
            format: self.format,
            left: self.left.deep_view(),
            right: self.right.deep_view(),
            limit: self.limit,
            time_anchor: self.time_anchor.deep_view(),
            verbose: self.verbose,
        }
    }
}

/// What the argument loop has gathered so far.
pub struct DiffState {
    pub path: Option<Seq<char>>,
    pub format: OutputFormat,
    pub left: Option<Seq<char>>,
    pub right: Option<Seq<char>>,
    pub limit: usize,
    pub time_anchor: Option<Seq<char>>,
    pub verbose: bool,
}

/// The argument loop from position `i` on.
pub open spec fn diff_loop(args: Seq<Seq<char>>, i: nat, st: DiffState) -> Result<DiffState, Seq<char>>
    decreases args.len() - i,
{
    if i >= args.len() {
        Ok(st)
    } else {
        let a = args[i as int];
        let has_v = i + 1 < args.len();
        let v = args[i + 1 as int];
        if a == "--format"@ {
            if !has_v {
                Err("--format requires an argument"@)
            } else if v == "text"@ {
                diff_loop(args, i + 2, DiffState { format: OutputFormat::Text, ..st })
            } else if v == "json"@ {
                diff_loop(args, i + 2, DiffState { format: OutputFormat::Json, ..st })
            } else if v == "csv"@ {
                diff_loop(args, i + 2, DiffState { format: OutputFormat::Csv, ..st })
            } else {
                Err("--format must be text|json|csv, got "@ + str_debug(v))
            }
        } else if a == "--left"@ {
            if !has_v {
                Err("--left requires a filter expression"@)
            } else {
                diff_loop(args, i + 2, DiffState { left: Some(v), ..st })
            }
        } else if a == "--right"@ {
            if !has_v {
                Err("--right requires a filter expression"@)
            } else {
                diff_loop(args, i + 2, DiffState { right: Some(v), ..st })
            }
        } else if a == "--limit"@ {
            if !has_v {
                Err("--limit requires a number"@)
            } else {
                match parse_usize_spec(v) {
                    Some(n) => diff_loop(args, i + 2, DiffState { limit: n, ..st }),
                    None => Err("--limit must be a number, got "@ + str_debug(v)),
                }
            }
        } else if a == "--time-anchor"@ {
            if !has_v {
                Err("--time-anchor requires an element name"@)
            } else {
                diff_loop(args, i + 2, DiffState { time_anchor: Some(v), ..st })
            }
        } else if a == "--verbose"@ || a == "-v"@ {
            diff_loop(args, i + 1, DiffState { verbose: true, ..st })
        } else if !has_prefix(a, seq!['-', '-']) && st.path is None {
            diff_loop(args, i + 1, DiffState { path: Some(a), ..st })
        } else {
            Err("unknown argument: "@ + str_debug(a))
        }
    }
}

/// The checks made once every argument is read.
pub open spec fn diff_finish(r: Result<DiffState, Seq<char>>) -> Result<DiffState, Seq<char>> {
    match r {
        Err(e) => Err(e),
        Ok(st) => if st.path is None {
            Err("`mc model diff` requires a YAML model path"@)
        } else if st.left is None || st.right is None {
            Err("--left and --right are both required for diff"@)
        } else {
            Ok(st)
        },
    }
}

/// The state before any argument is read.
pub open spec fn diff_init() -> DiffState {
    DiffState {
        path: None,
        format: OutputFormat::Text,
        left: None,
        right: None,
        limit: 50,
        time_anchor: None,
        verbose: false,
    }
}

/// The outcome of parsing `diff` arguments.
pub open spec fn diff_spec(args: Seq<Seq<char>>) -> Result<DiffState, Seq<char>> {
    diff_finish(diff_loop(args, 0, diff_init()))
}

/// Parse `mc model diff` arguments.
pub fn parse(args: &[String]) -> (r: Result<DiffCommand, String>)
    ensures
        match r {
            Ok(c) => diff_spec(args.deep_view()) == Ok::<DiffState, Seq<char>>(c.model()),
            Err(e) => diff_spec(args.deep_view()) == Err::<DiffState, Seq<char>>(e@),
        },
{
    let ghost av = args.deep_view();
    let mut path: Option<String> = None;
    let mut format: OutputFormat = OutputFormat::Text;
    let mut left: Option<String> = None;
    let mut right: Option<String> = None;
    let mut limit: usize = 50;
    let mut time_anchor: Option<String> = None;
    let mut verbose: bool = false;
    let mut i: usize = 0;
    while i < args.len()
        invariant
            i <= args@.len(),
            av == args.deep_view(),
            diff_spec(av) == diff_finish(diff_loop(av, i as nat, DiffState {
                path: path.deep_view(),
                format: format,
                left: left.deep_view(),
                right: right.deep_view(),
                limit: limit,
                time_anchor: time_anchor.deep_view(),
                verbose: verbose,
            })),
        decreases args@.len() - i,
    {
        let arg = args[i].as_str();
        assert(av[i as int] == arg@);
        let has_v = i + 1 < args.len();
        if has_v {
            assert(av[i + 1] == args@[i + 1]@);
        }
        if str_eq(arg, "--format") {
            if !has_v {
                return Err(lit("--format requires an argument"));
            }
            let v = args[i + 1].as_str();
            if str_eq(v, "text") {
                format = OutputFormat::Text;
            } else if str_eq(v, "json") {
                format = OutputFormat::Json;
            } else if str_eq(v, "csv") {
                format = OutputFormat::Csv;
            } else {
                return Err(err_debug("--format must be text|json|csv, got ", v));
            }
            i += 2;
        } else if str_eq(arg, "--left") {
            if !has_v {
                return Err(lit("--left requires a filter expression"));
            }
            left = Some(args[i + 1].clone());
            i += 2;
        } else if str_eq(arg, "--right") {
            if !has_v {
                return Err(lit("--right requires a filter expression"));
            }
            right = Some(args[i + 1].clone());
            i += 2;
        } else if str_eq(arg, "--limit") {
            if !has_v {
                return Err(lit("--limit requires a number"));
            }
            let v = args[i + 1].as_str();
            match parse_usize(v) {
                Some(n) => limit = n,
                None => {
                    return Err(err_debug("--limit must be a number, got ", v));
                },
            }
            i += 2;
        } else if str_eq(arg, "--time-anchor") {
            if !has_v {
                return Err(lit("--time-anchor requires an element name"));
            }
            time_anchor = Some(args[i + 1].clone());
            i += 2;
        } else if str_eq(arg, "--verbose") || str_eq(arg, "-v") {
            verbose = true;
            i += 1;
        } else if !starts_with_dashes(arg) && path.is_none() {
            path = Some(args[i].clone());
            i += 1;
        } else {
            return Err(err_debug("unknown argument: ", arg));
        }
    }
    let path = match path {
        None => {
            return Err(lit("`mc model diff` requires a YAML model path"));
        },
        Some(p) => p,
    };
    if left.is_none() || right.is_none() {
        return Err(lit("--left and --right are both required for diff"));
    }
    Ok(DiffCommand { path, format, left, right, limit, time_anchor, verbose })
}

/// No argument from position `i` on is `flag`.
pub open spec fn absent_from(args: Seq<Seq<char>>, i: int, flag: Seq<char>) -> bool {
    forall|j: int| i <= j < args.len() ==> args[j] != flag
}

proof fn lemma_diff_loop_keeps(args: Seq<Seq<char>>, i: nat, st: DiffState)
    ensures
        diff_loop(args, i, st) matches Ok(s2) ==> {
            &&& (absent_from(args, i as int, "--limit"@) ==> s2.limit == st.limit)
            &&& (absent_from(args, i as int, "--format"@) ==> s2.format == st.format)
            &&& (absent_from(args, i as int, "--right"@) ==> s2.right == st.right)
        },
    decreases args.len() - i,
{
    if i < args.len() {
        let a = args[i as int];
        let has_v = i + 1 < args.len();
        let v = args[i + 1 as int];
        if a == "--format"@ {
            if has_v {
                if v == "text"@ {
                    lemma_diff_loop_keeps(args, i + 2, DiffState { format: OutputFormat::Text, ..st });
                } else if v == "json"@ {
                    lemma_diff_loop_keeps(args, i + 2, DiffState { format: OutputFormat::Json, ..st });
                } else if v == "csv"@ {
                    lemma_diff_loop_keeps(args, i + 2, DiffState { format: OutputFormat::Csv, ..st });
                }
            }
        } else if a == "--left"@ {
            if has_v {
                lemma_diff_loop_keeps(args, i + 2, DiffState { left: Some(v), ..st });
            }
        } else if a == "--right"@ {
            if has_v {
                lemma_diff_loop_keeps(args, i + 2, DiffState { right: Some(v), ..st });
            }
        } else if a == "--limit"@ {
            if has_v {
                if let Some(n) = parse_usize_spec(v) {
                    lemma_diff_loop_keeps(args, i + 2, DiffState { limit: n, ..st });
                }
            }
        } else if a == "--time-anchor"@ {
            if has_v {
                lemma_diff_loop_keeps(args, i + 2, DiffState { time_anchor: Some(v), ..st });
            }
        } else if a == "--verbose"@ || a == "-v"@ {
            lemma_diff_loop_keeps(args, i + 1, DiffState { verbose: true, ..st });
        } else if !has_prefix(a, seq!['-', '-']) && st.path is None {
            lemma_diff_loop_keeps(args, i + 1, DiffState { path: Some(a), ..st });
        }
    }
}

/// A parsed `diff` names a model and both sides; without `--limit` it
/// reports at most 50 changes, and without `--format` it writes text.
/// Arguments that name a model but no `--right` side are refused with
/// "both required".
pub proof fn law_diff_arguments(args: Seq<Seq<char>>)
    ensures
        diff_spec(args) matches Ok(c) ==> {
            &&& c.path is Some && c.left is Some && c.right is Some
            &&& (!args.contains("--limit"@) ==> c.limit == 50)
            &&& (!args.contains("--format"@) ==> c.format == OutputFormat::Text)
        },
        diff_loop(args, 0, diff_init()) matches Ok(st) ==> (st.path is None ==> diff_spec(args) == Err::<
            DiffState,
            Seq<char>,
        >("`mc model diff` requires a YAML model path"@)),
        diff_loop(args, 0, diff_init()) matches Ok(st) ==> (st.path is Some && !args.contains("--right"@)
            ==> diff_spec(args) == Err::<DiffState, Seq<char>>("--left and --right are both required for diff"@)),
{
    lemma_diff_loop_keeps(args, 0, diff_init());
    if !args.contains("--right"@) {
        assert(absent_from(args, 0, "--right"@)) by {
            assert forall|j: int| 0 <= j < args.len() implies args[j] != "--right"@ by {
                if args[j] == "--right"@ {
                    assert(args.contains("--right"@));
                }
            }
        }
    }
    if !args.contains("--limit"@) {
        assert(absent_from(args, 0, "--limit"@)) by {
            assert forall|j: int| 0 <= j < args.len() implies args[j] != "--limit"@ by {
                if args[j] == "--limit"@ {
                    assert(args.contains("--limit"@));
                }
            }
        }
    }
    if !args.contains("--format"@) {
        assert(absent_from(args, 0, "--format"@)) by {
            assert forall|j: int| 0 <= j < args.len() implies args[j] != "--format"@ by {
                if args[j] == "--format"@ {
                    assert(args.contains("--format"@));
                }
            }
        }
    }
}

} // verus!
