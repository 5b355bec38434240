//! `mc model build-benchmarks`: argument parsing.
use crate::text::{debug_str, has_prefix, lit, push_str, starts_with_dashes, str_debug, str_eq};
use vstd::prelude::*;

verus! {

/// A fully-parsed `mc model build-benchmarks` invocation.
#[derive(Debug)]
pub struct BuildBenchmarksCommand {
    pub path: String,
    pub since: Option<String>,
}

/// The values a parse accumulates; `path` is still optional.
pub struct BuildState {
    pub path: Option<Seq<char>>,
    pub since: Option<Seq<char>>,
}

impl BuildBenchmarksCommand {
    pub open spec fn model(&self) -> BuildState {
        BuildState { path: Some(self.path@), since: self.since.deep_view() }
    }
}

pub open spec fn build_loop(args: Seq<Seq<char>>, i: nat, st: BuildState) -> Result<
    BuildState,
    Seq<char>,
>
    decreases args.len() - i,
{
    if i >= args.len() {
        Ok(st)
    } else {
        let a = args[i as int];
        if a == "--since"@ {
            if i + 1 < args.len() {
                build_loop(args, i + 2, BuildState { since: Some(args[i + 1 as int]), ..st })
            } else {
                Err("--since requires a period argument (e.g. 2025-11)"@)
            }
        } else if !has_prefix(a, seq!['-', '-']) && st.path is None {
            build_loop(args, i + 1, BuildState { path: Some(a), ..st })
        } else {
            Err("unknown argument: "@ + str_debug(a))
        }
    }
}

pub open spec fn build_finish(r: Result<BuildState, Seq<char>>) -> Result<BuildState, Seq<char>> {
    match r {
        Err(e) => Err(e),
        Ok(st) => if st.path is None {
            Err("`mc model build-benchmarks` requires a model directory path"@)
        } else {
            Ok(st)
        },
    }
}

/// The outcome of parsing `build-benchmarks` arguments.
pub open spec fn build_spec(args: Seq<Seq<char>>) -> Result<BuildState, Seq<char>> {
    if args.len() == 0 {
        Err("`mc model build-benchmarks` requires a model directory path"@)
    } else {
        build_finish(build_loop(args, 0, BuildState { path: None, since: None }))
    }
}

/// Parse `mc model build-benchmarks` arguments.
pub fn parse(args: &[String]) -> (r: Result<BuildBenchmarksCommand, String>)
    ensures
        match r {
            Ok(c) => build_spec(args.deep_view()) == Ok::<BuildState, Seq<char>>(c.model()),
            Err(e) => build_spec(args.deep_view()) == Err::<BuildState, Seq<char>>(e@),
        },
{
    let ghost av = args.deep_view();
    if args.len() == 0 {
        return Err(lit("`mc model build-benchmarks` requires a model directory path"));
    }
    let mut path: Option<String> = None;
    let mut since: Option<String> = None;
    let mut i: usize = 0;
    while i < args.len()
        invariant
            i <= args@.len(),
            av == args.deep_view(),
            build_spec(av) == build_finish(
                build_loop(av, i as nat, BuildState { path: path.deep_view(), since: since.deep_view() }),
            ),
        decreases args@.len() - i,
    {
        let arg = &args[i];
        assert(av[i as int] == arg@);
        if str_eq(arg.as_str(), "--since") {
            if i + 1 < args.len() {
                assert(av[i + 1] == args@[i + 1]@);
                since = Some(args[i + 1].clone());
                i += 2;
            } else {
                return Err(lit("--since requires a period argument (e.g. 2025-11)"));
            }
        } else if !starts_with_dashes(arg.as_str()) && path.is_none() {
            path = Some(arg.clone());
            i += 1;
        } else {
            let mut m = lit("unknown argument: ");
            let d = debug_str(arg.as_str());
            push_str(&mut m, d.as_str());
            return Err(m);
        }
    }
    match path {
        None => Err(lit("`mc model build-benchmarks` requires a model directory path")),
        Some(p) => Ok(BuildBenchmarksCommand { path: p, since }),
    }
}

} // verus!
