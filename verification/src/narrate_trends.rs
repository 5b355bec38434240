//! `mc model narrate-trends`: argument parsing.
use crate::narrate::NarrateFormat;
use crate::text::{debug_str, has_prefix, lit, push_str, starts_with_dashes, str_debug, str_eq};
use vstd::prelude::*;

verus! {

/// A fully-parsed `mc model narrate-trends` invocation.
#[derive(Debug)]
pub struct NarrateTrendsCommand {
    pub path: String,
    pub format: NarrateFormat,
    pub templates_dir: Option<String>,
    /// Load a specific ledger file instead of auto-discovering.
    pub mock_ledger: Option<String>,
    /// Only show trend template outputs (not regular templates).
    pub trends_only: bool,
}

/// The values a parse accumulates; `path` is still optional.
pub struct TrendsState {
    pub path: Option<Seq<char>>,
    pub format: NarrateFormat,
    pub templates_dir: Option<Seq<char>>,
    pub mock_ledger: Option<Seq<char>>,
    pub trends_only: bool,
}

impl NarrateTrendsCommand {
    pub open spec fn model(&self) -> TrendsState {
        TrendsState {
            path: Some(self.path@),
            format: self.format,
            templates_dir: self.templates_dir.deep_view(),
            mock_ledger: self.mock_ledger.deep_view(),
            trends_only: self.trends_only,
        }
    }
}

pub open spec fn trends_loop(args: Seq<Seq<char>>, i: nat, st: TrendsState) -> Result<
    TrendsState,
    Seq<char>,
>
    decreases args.len() - i,
{
    if i >= args.len() {
        Ok(st)
    } else {
        let a = args[i as int];
        if a == "--format"@ {
            if i + 1 < args.len() {
                let v = args[i + 1 as int];
                if v == "text"@ {
                    trends_loop(args, i + 2, TrendsState { format: NarrateFormat::Text, ..st })
                } else if v == "json"@ {
                    trends_loop(args, i + 2, TrendsState { format: NarrateFormat::Json, ..st })
                } else if v == "markdown"@ || v == "md"@ {
                    trends_loop(args, i + 2, TrendsState { format: NarrateFormat::Markdown, ..st })
                } else {
                    Err("--format must be text, json, or markdown; got "@ + str_debug(v))
                }
            } else {
                Err("--format requires an argument"@)
            }
        } else if a == "--templates"@ {
            if i + 1 < args.len() {
                trends_loop(args, i + 2, TrendsState { templates_dir: Some(args[i + 1 as int]), ..st })
            } else {
                Err("--templates requires a directory path"@)
            }
        } else if a == "--mock-ledger"@ {
            if i + 1 < args.len() {
                trends_loop(args, i + 2, TrendsState { mock_ledger: Some(args[i + 1 as int]), ..st })
            } else {
                Err("--mock-ledger requires a file path"@)
            }
        } else if a == "--trends-only"@ {
            trends_loop(args, i + 1, TrendsState { trends_only: true, ..st })
        } else if !has_prefix(a, seq!['-', '-']) && st.path is None {
            trends_loop(args, i + 1, TrendsState { path: Some(a), ..st })
        } else {
            Err("unknown argument: "@ + str_debug(a))
        }
    }
}

pub open spec fn trends_finish(r: Result<TrendsState, Seq<char>>) -> Result<TrendsState, Seq<char>> {
    match r {
        Err(e) => Err(e),
        Ok(st) => if st.path is None {
            Err("`mc model narrate-trends` requires a YAML model path"@)
        } else {
            Ok(st)
        },
    }
}

/// The outcome of parsing `narrate-trends` arguments.
pub open spec fn trends_spec(args: Seq<Seq<char>>) -> Result<TrendsState, Seq<char>> {
    if args.len() == 0 {
        Err("`mc model narrate-trends` requires a YAML model path"@)
    } else {
        trends_finish(
            trends_loop(
                args,
                0,
                TrendsState {
                    path: None,
                    format: NarrateFormat::Text,
                    templates_dir: None,
                    mock_ledger: None,
                    trends_only: false,
                },
            ),
        )
    }
}

/// Parse `mc model narrate-trends` arguments.
pub fn parse(args: &[String]) -> (r: Result<NarrateTrendsCommand, String>)
    ensures
        match r {
            Ok(c) => trends_spec(args.deep_view()) == Ok::<TrendsState, Seq<char>>(c.model()),
            Err(e) => trends_spec(args.deep_view()) == Err::<TrendsState, Seq<char>>(e@),
        },
{
    let ghost av = args.deep_view();
    if args.len() == 0 {
        return Err(lit("`mc model narrate-trends` requires a YAML model path"));
    }
    let mut path: Option<String> = None;
    let mut format = NarrateFormat::Text;
    let mut templates_dir: Option<String> = None;
    let mut mock_ledger: Option<String> = None;
    let mut trends_only = false;
    let mut i: usize = 0;
    while i < args.len()
        invariant
            i <= args@.len(),
            av == args.deep_view(),
            trends_spec(av) == trends_finish(
                trends_loop(
                    av,
                    i as nat,
                    TrendsState {
                        path: path.deep_view(),
                        format: format,
                        templates_dir: templates_dir.deep_view(),
                        mock_ledger: mock_ledger.deep_view(),
                        trends_only: trends_only,
                    },
                ),
            ),
        decreases args@.len() - i,
    {
        let arg = &args[i];
        assert(av[i as int] == arg@);
        if str_eq(arg.as_str(), "--format") {
            if i + 1 < args.len() {
                let v = &args[i + 1];
                assert(av[i + 1] == v@);
                if str_eq(v.as_str(), "text") {
                    format = NarrateFormat::Text;
                } else if str_eq(v.as_str(), "json") {
                    format = NarrateFormat::Json;
                } else if str_eq(v.as_str(), "markdown") || str_eq(v.as_str(), "md") {
                    format = NarrateFormat::Markdown;
                } else {
                    let mut m = lit("--format must be text, json, or markdown; got ");
                    let d = debug_str(v.as_str());
                    push_str(&mut m, d.as_str());
                    return Err(m);
                }
                i += 2;
            } else {
                return Err(lit("--format requires an argument"));
            }
        } else if str_eq(arg.as_str(), "--templates") {
            if i + 1 < args.len() {
                assert(av[i + 1] == args@[i + 1]@);
                templates_dir = Some(args[i + 1].clone());
                i += 2;
            } else {
                return Err(lit("--templates requires a directory path"));
            }
        } else if str_eq(arg.as_str(), "--mock-ledger") {
            if i + 1 < args.len() {
                assert(av[i + 1] == args@[i + 1]@);
                mock_ledger = Some(args[i + 1].clone());
                i += 2;
            } else {
                return Err(lit("--mock-ledger requires a file path"));
            }
        } else if str_eq(arg.as_str(), "--trends-only") {
            trends_only = true;
            i += 1;
        } else if !starts_with_dashes(arg.as_str()) && path.is_none() {
            path = Some(arg.clone());
            i += 1;
        } else {
            let mut m = lit("unknown argument: ");
            let d = debug_str(arg.as_str());
            push_str(&mut m, d.as_str());
            return Err(m);
        }
    }
    match path {
        None => Err(lit("`mc model narrate-trends` requires a YAML model path")),
        Some(p) => Ok(NarrateTrendsCommand { path: p, format, templates_dir, mock_ledger, trends_only }),
    }
}

} // verus!
