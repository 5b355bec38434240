//! The top-level `mc` command line: the `demo`, `start` and legacy
//! `model` verb arguments, and small text helpers of the report printers.
use crate::escape::{push_quoted, quoted, EscapeSet};
use crate::text::{
    chars_of, err_debug, has_prefix, lit, nat_decimal, parse_u16_spec, push_char, push_str, starts_with_dashes, str_debug, str_eq, u64_to_string,
};
use vstd::prelude::*;

verus! {

/// What a subcommand's argument list asks for: its usage text (`--help`),
/// or a run with the parsed command.
#[derive(Debug)]
pub enum Parsed<T> {
    Help,
    Run(T),
}

// ---------------------------------------------------------------------------
// mc demo / mc start
// ---------------------------------------------------------------------------

/// The `--model <path>` loop of `mc demo`.
pub open spec fn demo_loop(args: Seq<Seq<char>>, i: nat, model: Option<Seq<char>>) -> Result<
    Option<Seq<char>>,
    Seq<char>,
>
    decreases args.len() - i,
{
    if i >= args.len() {
        Ok(model)
    } else if args[i as int] == "--model"@ {
        if i + 1 < args.len() {
            demo_loop(args, i + 2, Some(args[i + 1 as int]))
        } else {
            Err("--model requires a path argument"@)
        }
    } else {
        Err("unknown argument: "@ + str_debug(args[i as int]))
    }
}

/// Parse `mc demo` arguments: the optional model path.
pub fn parse_demo_args(args: &[String]) -> (r: Result<Option<String>, String>)
    ensures
        match r {
            Ok(m) => demo_loop(args.deep_view(), 0, None) == Ok::<Option<Seq<char>>, Seq<char>>(
                m.deep_view(),
            ),
            Err(e) => demo_loop(args.deep_view(), 0, None) == Err::<Option<Seq<char>>, Seq<char>>(
                e@,
            ),
        },
{
    let ghost av = args.deep_view();
    let mut model_path: Option<String> = None;
    let mut i: usize = 0;
    while i < args.len()
        invariant
            i <= args@.len(),
            av == args.deep_view(),
            demo_loop(av, 0, None) == demo_loop(av, i as nat, model_path.deep_view()),
        decreases args@.len() - i,
    {
        let arg = args[i].as_str();
        assert(av[i as int] == arg@);
        if str_eq(arg, "--model") {
            if i + 1 < args.len() {
                assert(av[i + 1] == args@[i + 1]@);
                model_path = Some(args[i + 1].clone());
                i += 2;
            } else {
                return Err(lit("--model requires a path argument"));
            }
        } else {
            return Err(err_debug("unknown argument: ", arg));
        }
    }
    Ok(model_path)
}

/// The `--port` / `--static` loop of `mc start`.
pub open spec fn start_loop(args: Seq<Seq<char>>, i: nat, port: u16, dir: Option<Seq<char>>) -> Result<
    (u16, Option<Seq<char>>),
    Seq<char>,
>
    decreases args.len() - i,
{
    if i >= args.len() {
        Ok((port, dir))
    } else {
        let a = args[i as int];
        let has_v = i + 1 < args.len();
        let v = args[i + 1 as int];
        if a == "--port"@ {
            if !has_v {
                Err("--port requires a number"@)
            } else {
                match parse_u16_spec(v) {
                    Some(p) => start_loop(args, i + 2, p, dir),
                    None => Err("invalid port: "@ + v),
                }
            }
        } else if a == "--static"@ {
            if !has_v {
                Err("--static requires a directory path"@)
            } else {
                start_loop(args, i + 2, port, Some(v))
            }
        } else {
            Err("unknown argument to `mc start`: "@ + str_debug(a))
        }
    }
}

/// Parse `mc start` arguments: the port (8080 by default) and the
/// optional static directory.
pub fn parse_start_args(args: &[String]) -> (r: Result<(u16, Option<String>), String>)
    ensures
        match r {
            Ok((p, d)) => start_loop(args.deep_view(), 0, 8080, None) == Ok::<
                (u16, Option<Seq<char>>),
                Seq<char>,
            >((p, d.deep_view())),
            Err(e) => start_loop(args.deep_view(), 0, 8080, None) == Err::<
                (u16, Option<Seq<char>>),
                Seq<char>,
            >(e@),
        },
{
    let ghost av = args.deep_view();
    let mut port: u16 = 8080;
    let mut static_dir: Option<String> = None;
    let mut i: usize = 0;
    while i < args.len()
        invariant
            i <= args@.len(),
            av == args.deep_view(),
            start_loop(av, 0, 8080, None) == start_loop(av, i as nat, port, static_dir.deep_view()),
        decreases args@.len() - i,
    {
        let arg = args[i].as_str();
        assert(av[i as int] == arg@);
        let has_v = i + 1 < args.len();
        if has_v {
            assert(av[i + 1] == args@[i + 1]@);
        }
        if str_eq(arg, "--port") {
            if !has_v {
                return Err(lit("--port requires a number"));
            }
            let v = args[i + 1].as_str();
            match crate::text::parse_u16(v) {
                Some(p) => port = p,
                None => {
                    let mut m = lit("invalid port: ");
                    push_str(&mut m, v);
                    return Err(m);
                },
            }
            i += 2;
        } else if str_eq(arg, "--static") {
            if !has_v {
                return Err(lit("--static requires a directory path"));
            }
            static_dir = Some(args[i + 1].clone());
            i += 2;
        } else {
            return Err(err_debug("unknown argument to `mc start`: ", arg));
        }
    }
    Ok((port, static_dir))
}

// ---------------------------------------------------------------------------
// mc model validate|inspect|lint|test
// ---------------------------------------------------------------------------

/// The legacy `mc model` verbs.
#[derive(Clone, Copy, Debug, PartialEq, Eq, Structural)]
pub enum ModelVerb {
    Validate,
    Inspect,
    Lint,
    Test,
}

/// Output format of the legacy `mc model` verbs.
#[derive(Clone, Copy, Debug, PartialEq, Eq, Structural)]
pub enum OutputFormat {
    Text,
    Json,
}

/// A parsed legacy `mc model` invocation.
#[derive(Debug)]
pub struct ModelCommand {
    pub verb: ModelVerb,
    pub path: String,
    pub format: OutputFormat,
    pub deny_warnings: bool,
    /// Only goldens of this fixture run (`test`).
    pub fixture_filter: Option<String>,
    /// Overrides the model's time anchor (`test`).
    pub time_anchor: Option<String>,
}

/// What the argument loop has gathered so far.
pub struct ModelState {
    pub path: Option<Seq<char>>,
    pub format: OutputFormat,
    pub deny_warnings: bool,
    pub fixture_filter: Option<Seq<char>>,
    pub time_anchor: Option<Seq<char>>,
}

impl ModelCommand {
    pub open spec fn model(&self) -> (ModelVerb, ModelState) {
        (
            self.verb,
            ModelState {
                path: Some(self.path@),
                format: self.format,
                deny_warnings: self.deny_warnings,
                fixture_filter: self.fixture_filter.deep_view(),
                time_anchor: self.time_anchor.deep_view(),
            },
        )
    }
}

/// The `Debug` name of a verb.
pub open spec fn verb_name(v: ModelVerb) -> Seq<char> {
    match v {
        ModelVerb::Validate => "Validate"@,
        ModelVerb::Inspect => "Inspect"@,
        ModelVerb::Lint => "Lint"@,
        ModelVerb::Test => "Test"@,
    }
}

/// The options after the verb, from position `i` on.
pub open spec fn model_loop(args: Seq<Seq<char>>, i: nat, verb: ModelVerb, st: ModelState) -> Result<
    ModelState,
    Seq<char>,
>
    decreases args.len() - i,
{
    if i >= args.len() {
        Ok(st)
    } else {
        let a = args[i as int];
        let has_v = i + 1 < args.len();
        let v = args[i + 1 as int];
        if a == "--format"@ {
            if !has_v {
                Err("--format requires an argument"@)
            } else if v == "text"@ {
                model_loop(args, i + 2, verb, ModelState { format: OutputFormat::Text, ..st })
            } else if v == "json"@ {
                model_loop(args, i + 2, verb, ModelState { format: OutputFormat::Json, ..st })
            } else {
                Err("--format must be `text` or `json`, got "@ + str_debug(v))
            }
        } else if a == "--deny-warnings"@ {
            if verb != ModelVerb::Lint {
                Err("--deny-warnings is only valid for `mc model lint`"@)
            } else {
                model_loop(args, i + 1, verb, ModelState { deny_warnings: true, ..st })
            }
        } else if a == "--fixture"@ {
            if verb != ModelVerb::Test {
                Err("--fixture is only valid for `mc model test`"@)
            } else if !has_v {
                Err("--fixture requires a name argument"@)
            } else {
                model_loop(args, i + 2, verb, ModelState { fixture_filter: Some(v), ..st })
            }
        } else if a == "--time-anchor"@ {
            if verb != ModelVerb::Test {
                Err("--time-anchor is only valid for `mc model test`"@)
            } else if !has_v {
                Err("--time-anchor requires an element name argument"@)
            } else {
                model_loop(args, i + 2, verb, ModelState { time_anchor: Some(v), ..st })
            }
        } else if !has_prefix(a, seq!['-', '-']) && st.path is None {
            model_loop(args, i + 1, verb, ModelState { path: Some(a), ..st })
        } else {
            Err("unknown argument: "@ + str_debug(a))
        }
    }
}

/// The outcome of parsing legacy `mc model` arguments.
pub open spec fn model_spec(args: Seq<Seq<char>>) -> Result<(ModelVerb, ModelState), Seq<char>> {
    if args.len() == 0 {
        Err("`mc model` requires a verb (validate|inspect|lint|test)"@)
    } else {
        let w = args[0];
        let verb = if w == "validate"@ {
            Some(ModelVerb::Validate)
        } else if w == "inspect"@ {
            Some(ModelVerb::Inspect)
        } else if w == "lint"@ {
            Some(ModelVerb::Lint)
        } else if w == "test"@ {
            Some(ModelVerb::Test)
        } else {
            None
        };
        match verb {
            None => Err("unknown model verb: "@ + str_debug(w)),
            Some(v) => match model_loop(
                args,
                1,
                v,
                ModelState {
                    path: None,
                    format: OutputFormat::Text,
                    deny_warnings: false,
                    fixture_filter: None,
                    time_anchor: None,
                },
            ) {
                Err(e) => Err(e),
                Ok(st) => if st.path is None {
                    Err("`mc model "@ + verb_name(v) + "` requires a YAML path"@)
                } else {
                    Ok((v, st))
                },
            },
        }
    }
}

impl ModelVerb {
    /// The `Debug` name of the verb.
    pub fn name(self) -> (r: &'static str)
        ensures
            r@ == verb_name(self),
    {
        match self {
            ModelVerb::Validate => "Validate",
            ModelVerb::Inspect => "Inspect",
            ModelVerb::Lint => "Lint",
            ModelVerb::Test => "Test",
        }
    }
}

/// Parse legacy `mc model <verb>` arguments.
pub fn parse_model_args(args: &[String]) -> (r: Result<ModelCommand, String>)
    ensures
        match r {
            Ok(c) => model_spec(args.deep_view()) == Ok::<(ModelVerb, ModelState), Seq<char>>(
                c.model(),
            ),
            Err(e) => model_spec(args.deep_view()) == Err::<(ModelVerb, ModelState), Seq<char>>(e@),
        },
{
    if args.len() == 0 {
        return Err(lit("`mc model` requires a verb (validate|inspect|lint|test)"));
    }
    let ghost av = args.deep_view();
    let w = args[0].as_str();
    assert(av[0] == w@);
    let verb = if str_eq(w, "validate") {
        ModelVerb::Validate
    } else if str_eq(w, "inspect") {
        ModelVerb::Inspect
    } else if str_eq(w, "lint") {
        ModelVerb::Lint
    } else if str_eq(w, "test") {
        ModelVerb::Test
    } else {
        return Err(err_debug("unknown model verb: ", w));
    };
    let mut path: Option<String> = None;
    let mut format = OutputFormat::Text;
    let mut deny_warnings = false;
    let mut fixture_filter: Option<String> = None;
    let mut time_anchor: Option<String> = None;
    let mut i: usize = 1;
    while i < args.len()
        invariant
            1 <= i <= args@.len(),
            av == args.deep_view(),
            model_spec(av) == (match model_loop(
                av,
                i as nat,
                verb,
                ModelState {
                    path: path.deep_view(),
                    format: format,
                    deny_warnings: deny_warnings,
                    fixture_filter: fixture_filter.deep_view(),
                    time_anchor: time_anchor.deep_view(),
                },
            ) {
                Err(e) => Err(e),
                Ok(st) => if st.path is None {
                    Err("`mc model "@ + verb_name(verb) + "` requires a YAML path"@)
                } else {
                    Ok((verb, st))
                },
            }),
        decreases args@.len() - i,
    {
        let arg = args[i].as_str();
        assert(av[i as int] == arg@);
        let has_v = i + 1 < args.len();
        if has_v {
            assert(av[i + 1] == args@[i + 1]@);
        }
        if str_eq(arg, "--format") {
            if !has_v {
                return Err(lit("--format requires an argument"));
            }
            let v = args[i + 1].as_str();
            if str_eq(v, "text") {
                format = OutputFormat::Text;
            } else if str_eq(v, "json") {
                format = OutputFormat::Json;
            } else {
                return Err(err_debug("--format must be `text` or `json`, got ", v));
            }
            i += 2;
        } else if str_eq(arg, "--deny-warnings") {
            if verb != ModelVerb::Lint {
                return Err(lit("--deny-warnings is only valid for `mc model lint`"));
            }
            deny_warnings = true;
            i += 1;
        } else if str_eq(arg, "--fixture") {
            if verb != ModelVerb::Test {
                return Err(lit("--fixture is only valid for `mc model test`"));
            }
            if !has_v {
                return Err(lit("--fixture requires a name argument"));
            }
            fixture_filter = Some(args[i + 1].clone());
            i += 2;
        } else if str_eq(arg, "--time-anchor") {
            if verb != ModelVerb::Test {
                return Err(lit("--time-anchor is only valid for `mc model test`"));
            }
            if !has_v {
                return Err(lit("--time-anchor requires an element name argument"));
            }
            time_anchor = Some(args[i + 1].clone());
            i += 2;
        } else if !starts_with_dashes(arg) && path.is_none() {
            path = Some(args[i].clone());
            i += 1;
        } else {
            return Err(err_debug("unknown argument: ", arg));
        }
    }
    match path {
        None => {
            let mut m = lit("`mc model ");
            push_str(&mut m, verb.name());
            push_str(&mut m, "` requires a YAML path");
            Err(m)
        },
        Some(p) => Ok(
            ModelCommand { verb, path: p, format, deny_warnings, fixture_filter, time_anchor },
        ),
    }
}

// ---------------------------------------------------------------------------
// Report text helpers
// ---------------------------------------------------------------------------

/// The outcome of one golden check.
#[derive(Clone, Copy, Debug, PartialEq, Eq, Structural)]
pub enum GoldenStatus {
    Pass,
    Fail,
    Error,
}

impl GoldenStatus {
    /// The status word printed in reports.
    pub fn label(self) -> (r: &'static str)
        ensures
            r@ == match self {
                GoldenStatus::Pass => "Pass"@,
                GoldenStatus::Fail => "Fail"@,
                GoldenStatus::Error => "Error"@,
            },
    {
        match self {
            GoldenStatus::Pass => "Pass",
            GoldenStatus::Fail => "Fail",
            GoldenStatus::Error => "Error",
        }
    }
}

/// Appends the JSON string literal for `s` (quotes, `"`, `\`, newline,
/// carriage return and tab escaped, other control characters as
/// `\u00XX`).
pub fn write_json_str(out: &mut String, s: &str)
    ensures
        final(out)@ == old(out)@ + quoted(EscapeSet::Common, s@),
{
    push_quoted(out, EscapeSet::Common, s);
}

/// Decimal digits grouped in threes from the right with `_`.
pub open spec fn group_thousands(d: Seq<char>) -> Seq<char>
    decreases d.len(),
{
    if d.len() <= 3 {
        d
    } else {
        group_thousands(d.subrange(0, d.len() - 3)) + seq!['_'] + d.subrange(
            d.len() - 3,
            d.len() as int,
        )
    }
}

/// `n` written with `_` between groups of three digits; `0` for zero and
/// nothing at all for a negative number.
pub open spec fn underscored(n: int) -> Seq<char> {
    if n == 0 {
        seq!['0']
    } else if n < 0 {
        Seq::empty()
    } else {
        group_thousands(nat_decimal(n as nat))
    }
}

/// Appends `d[..k]` grouped in threes from the right.
fn push_grouped(out: &mut String, d: &Vec<char>, k: usize)
    requires
        k <= d@.len(),
    ensures
        final(out)@ == old(out)@ + group_thousands(d@.subrange(0, k as int)),
    decreases k,
{
    if k <= 3 {
        let mut i: usize = 0;
        while i < k
            invariant
                i <= k <= d@.len(),
                out@ == old(out)@ + d@.subrange(0, i as int),
            decreases k - i,
        {
            push_char(out, d[i]);
            i += 1;
            assert(out@ =~= old(out)@ + d@.subrange(0, i as int));
        }
    } else {
        push_grouped(out, d, k - 3);
        push_char(out, '_');
        push_char(out, d[k - 3]);
        push_char(out, d[k - 2]);
        push_char(out, d[k - 1]);
        let ghost p = d@.subrange(0, k as int);
        assert(p.subrange(0, p.len() - 3) =~= d@.subrange(0, k - 3));
        assert(p.subrange(p.len() - 3, p.len() as int) =~= seq![d@[k - 3], d@[k - 2], d@[k - 1]]);
        assert(out@ =~= old(out)@ + group_thousands(p));
    }
}

/// `n` with `_` between groups of three digits (`1_234_567`).
pub fn with_underscores(n: i64) -> (r: String)
    ensures
        r@ == underscored(n as int),
{
    if n == 0 {
        proof {
            reveal_strlit("0");
        }
        return lit("0");
    }
    if n < 0 {
        return String::new();
    }
    let s = u64_to_string(n as u64);
    let d = chars_of(s.as_str());
    let mut out = String::new();
    push_grouped(&mut out, &d, d.len());
    assert(d@.subrange(0, d@.len() as int) =~= d@);
    out
}

} // verus!
