//! `mc model query`: argument parsing, the model-load error classes,
//! coordinate strings (`Dim=Elem,...`) and their JSON rendering, and the
//! `fn(arg)` stripping used by `--aggregate` and sweep metrics.
use crate::coord_map::{sorted_insert, CoordMap};
use crate::escape::{push_quoted, quoted, EscapeSet};
use crate::text::{
    chars_of, debug_str, find_char, find_char_exec, has_prefix, has_suffix, lemma_find_char_found,
    lit, parse_usize, parse_usize_spec, push_char, push_str, slice_chars, split_chars, split_on,
    starts_with_chars, starts_with_dashes, str_debug, str_eq, string_of, trim, trim_chars,
};
use vstd::prelude::*;

pub mod filter;
pub mod output;
pub mod coord_text;

verus! {

/// Output format shared by `query`, `sweep` and `diff`.
#[derive(Clone, Copy, Debug, PartialEq, Eq, Structural)]
pub enum OutputFormat {
    Text,
    Json,
    Csv,
}

/// A fully-parsed `mc model query` invocation.
#[derive(Debug)]
pub struct QueryCommand {
    pub path: String,
    pub format: OutputFormat,
    pub where_expr: Option<String>,
    pub show: Option<Vec<String>>,
    pub coord: Option<String>,
    pub aggregate: Option<Vec<String>>,
    pub output: Option<String>,
    pub limit: Option<usize>,
    pub time_anchor: Option<String>,
}

/// The values a parse accumulates; `path` is still optional.
pub struct QueryState {
    pub path: Option<Seq<char>>,
    pub format: OutputFormat,
    pub where_expr: Option<Seq<char>>,
    pub show: Option<Seq<Seq<char>>>,
    pub coord: Option<Seq<char>>,
    pub aggregate: Option<Seq<Seq<char>>>,
    pub output: Option<Seq<char>>,
    pub limit: Option<usize>,
    pub time_anchor: Option<Seq<char>>,
}

impl QueryCommand {
    pub open spec fn model(&self) -> QueryState {
        QueryState {
            path: Some(self.path@),
            format: self.format,
            where_expr: self.where_expr.deep_view(),
            show: self.show.deep_view(),
            coord: self.coord.deep_view(),
            aggregate: self.aggregate.deep_view(),
            output: self.output.deep_view(),
            limit: self.limit,
            time_anchor: self.time_anchor.deep_view(),
        }
    }
}

/// The trimmed comma-separated pieces of a list argument.
pub open spec fn comma_list(v: Seq<char>) -> Seq<Seq<char>> {
    split_on(v, ',').map_values(|p: Seq<char>| trim(p))
}

pub open spec fn query_loop(args: Seq<Seq<char>>, i: nat, st: QueryState) -> Result<
    QueryState,
    Seq<char>,
>
    decreases args.len() - i,
{
    if i >= args.len() {
        Ok(st)
    } else {
        let a = args[i as int];
        let has_v = i + 1 < args.len();
        let v = args[i + 1 as int];
        if a == "--format"@ {
            if !has_v {
                Err("--format requires an argument"@)
            } else if v == "text"@ {
                query_loop(args, i + 2, QueryState { format: OutputFormat::Text, ..st })
            } else if v == "json"@ {
                query_loop(args, i + 2, QueryState { format: OutputFormat::Json, ..st })
            } else if v == "csv"@ {
                query_loop(args, i + 2, QueryState { format: OutputFormat::Csv, ..st })
            } else {
                Err("--format must be text|json|csv, got "@ + str_debug(v))
            }
        } else if a == "--where"@ {
            if !has_v {
                Err("--where requires an expression argument"@)
            } else {
                query_loop(args, i + 2, QueryState { where_expr: Some(v), ..st })
            }
        } else if a == "--show"@ {
            if !has_v {
                Err("--show requires a comma-separated list"@)
            } else {
                query_loop(args, i + 2, QueryState { show: Some(comma_list(v)), ..st })
            }
        } else if a == "--coord"@ {
            if !has_v {
                Err("--coord requires a coordinate string"@)
            } else {
                query_loop(args, i + 2, QueryState { coord: Some(v), ..st })
            }
        } else if a == "--aggregate"@ {
            if !has_v {
                Err("--aggregate requires a function list"@)
            } else {
                query_loop(args, i + 2, QueryState { aggregate: Some(comma_list(v)), ..st })
            }
        } else if a == "--output"@ {
            if !has_v {
                Err("--output requires a file path"@)
            } else {
                query_loop(args, i + 2, QueryState { output: Some(v), ..st })
            }
        } else if a == "--limit"@ {
            if !has_v {
                Err("--limit requires a number"@)
            } else {
                match parse_usize_spec(v) {
                    Some(n) => query_loop(args, i + 2, QueryState { limit: Some(n), ..st }),
                    None => Err("--limit must be a number, got "@ + str_debug(v)),
                }
            }
        } else if a == "--time-anchor"@ {
            if !has_v {
                Err("--time-anchor requires an element name"@)
            } else {
                query_loop(args, i + 2, QueryState { time_anchor: Some(v), ..st })
            }
        } else if !has_prefix(a, seq!['-', '-']) && st.path is None {
            query_loop(args, i + 1, QueryState { path: Some(a), ..st })
        } else {
            Err("unknown argument: "@ + str_debug(a))
        }
    }
}

pub open spec fn query_finish(r: Result<QueryState, Seq<char>>) -> Result<QueryState, Seq<char>> {
    match r {
        Err(e) => Err(e),
        Ok(st) => if st.path is None {
            Err("`mc model query` requires a YAML model path"@)
        } else {
            Ok(st)
        },
    }
}

/// The outcome of parsing `query` arguments.
pub open spec fn query_spec(args: Seq<Seq<char>>) -> Result<QueryState, Seq<char>> {
    if args.len() == 0 {
        Err("`mc model query` requires a YAML model path"@)
    } else {
        query_finish(
            query_loop(
                args,
                0,
                QueryState {
                    path: None,
                    format: OutputFormat::Text,
                    where_expr: None,
                    show: None,
                    coord: None,
                    aggregate: None,
                    output: None,
                    limit: None,
                    time_anchor: None,
                },
            ),
        )
    }
}

/// The trimmed comma-separated pieces of `v`.
pub fn split_comma_list(v: &str) -> (r: Vec<String>)
    ensures
        r.deep_view() == comma_list(v@),
{
    let cs = chars_of(v);
    let pieces = split_chars(&cs, ',');
    let ghost want = comma_list(v@);
    let mut out: Vec<String> = Vec::new();
    let mut i: usize = 0;
    while i < pieces.len()
        invariant
            i <= pieces@.len(),
            pieces@.len() == split_on(cs@, ',').len(),
            forall|k: int| 0 <= k < pieces@.len() ==> (#[trigger] pieces@[k])@ == split_on(cs@, ',')[k],
            cs@ == v@,
            out@.len() == i,
            want == comma_list(v@),
            forall|k: int| 0 <= k < i ==> (#[trigger] out@[k])@ == want[k],
        decreases pieces@.len() - i,
    {
        let t = trim_chars(&pieces[i]);
        assert(want[i as int] == trim(split_on(cs@, ',')[i as int]));
        out.push(string_of(&t));
        i += 1;
    }
    assert(out.deep_view() =~= want);
    out
}

/// Parse `mc model query` arguments.
pub fn parse(args: &[String]) -> (r: Result<QueryCommand, String>)
    ensures
        match r {
            Ok(c) => query_spec(args.deep_view()) == Ok::<QueryState, Seq<char>>(c.model()),
            Err(e) => query_spec(args.deep_view()) == Err::<QueryState, Seq<char>>(e@),
        },
{
    let ghost av = args.deep_view();
    if args.len() == 0 {
        return Err(lit("`mc model query` requires a YAML model path"));
    }
    let mut path: Option<String> = None;
    let mut format = OutputFormat::Text;
    let mut where_expr: Option<String> = None;
    let mut show: Option<Vec<String>> = None;
    let mut coord: Option<String> = None;
    let mut aggregate: Option<Vec<String>> = None;
    let mut output: Option<String> = None;
    let mut limit: Option<usize> = None;
    let mut time_anchor: Option<String> = None;
    let mut i: usize = 0;
    while i < args.len()
        invariant
            i <= args@.len(),
            av == args.deep_view(),
            query_spec(av) == query_finish(
                query_loop(
                    av,
                    i as nat,
                    QueryState {
                        path: path.deep_view(),
                        format: format,
                        where_expr: where_expr.deep_view(),
                        show: show.deep_view(),
                        coord: coord.deep_view(),
                        aggregate: aggregate.deep_view(),
                        output: output.deep_view(),
                        limit: limit,
                        time_anchor: time_anchor.deep_view(),
                    },
                ),
            ),
        decreases args@.len() - i,
    {
        let arg = args[i].as_str();
        assert(av[i as int] == arg@);
        let has_v = i + 1 < args.len();
        if has_v {
            assert(av[i + 1] == args@[i + 1]@);
        }
        if str_eq(arg, "--format") {
            if !has_v {
                return Err(lit("--format requires an argument"));
            }
            let v = args[i + 1].as_str();
            if str_eq(v, "text") {
                format = OutputFormat::Text;
            } else if str_eq(v, "json") {
                format = OutputFormat::Json;
            } else if str_eq(v, "csv") {
                format = OutputFormat::Csv;
            } else {
                let mut m = lit("--format must be text|json|csv, got ");
                let d = debug_str(v);
                push_str(&mut m, d.as_str());
                return Err(m);
            }
            i += 2;
        } else if str_eq(arg, "--where") {
            if !has_v {
                return Err(lit("--where requires an expression argument"));
            }
            where_expr = Some(args[i + 1].clone());
            i += 2;
        } else if str_eq(arg, "--show") {
            if !has_v {
                return Err(lit("--show requires a comma-separated list"));
            }
            show = Some(split_comma_list(args[i + 1].as_str()));
            i += 2;
        } else if str_eq(arg, "--coord") {
            if !has_v {
                return Err(lit("--coord requires a coordinate string"));
            }
            coord = Some(args[i + 1].clone());
            i += 2;
        } else if str_eq(arg, "--aggregate") {
            if !has_v {
                return Err(lit("--aggregate requires a function list"));
            }
            aggregate = Some(split_comma_list(args[i + 1].as_str()));
            i += 2;
        } else if str_eq(arg, "--output") {
            if !has_v {
                return Err(lit("--output requires a file path"));
            }
            output = Some(args[i + 1].clone());
            i += 2;
        } else if str_eq(arg, "--limit") {
            if !has_v {
                return Err(lit("--limit requires a number"));
            }
            let v = args[i + 1].as_str();
            match parse_usize(v) {
                Some(n) => limit = Some(n),
                None => {
                    let mut m = lit("--limit must be a number, got ");
                    let d = debug_str(v);
                    push_str(&mut m, d.as_str());
                    return Err(m);
                },
            }
            i += 2;
        } else if str_eq(arg, "--time-anchor") {
            if !has_v {
                return Err(lit("--time-anchor requires an element name"));
            }
            time_anchor = Some(args[i + 1].clone());
            i += 2;
        } else if !starts_with_dashes(arg) && path.is_none() {
            path = Some(args[i].clone());
            i += 1;
        } else {
            let mut m = lit("unknown argument: ");
            let d = debug_str(arg);
            push_str(&mut m, d.as_str());
            return Err(m);
        }
    }
    match path {
        None => Err(lit("`mc model query` requires a YAML model path")),
        Some(p) => Ok(
            QueryCommand {
                path: p,
                format,
                where_expr,
                show,
                coord,
                aggregate,
                output,
                limit,
                time_anchor,
            },
        ),
    }
}

/// Reason a model load failed: I/O (exit code 3) or the model itself
/// (parse / validate / compile, exit code 1).
#[derive(Debug)]
pub enum LoadModelError {
    /// File system / I/O error reading the model file.
    Io(String),
    /// Parse, validate, resolve_inputs, or compile error.
    Model(String),
}

impl LoadModelError {
    /// The canonical CLI exit code: 3 for I/O, 1 for the model.
    pub fn exit_code(&self) -> (r: i32)
        ensures
            r == match self {
                LoadModelError::Io(_) => 3i32,
                LoadModelError::Model(_) => 1i32,
            },
    {
        match self {
            LoadModelError::Io(_) => 3,
            LoadModelError::Model(_) => 1,
        }
    }

    /// The human-readable message.
    pub fn message(&self) -> (r: &str)
        ensures
            r@ == match self {
                LoadModelError::Io(m) => m@,
                LoadModelError::Model(m) => m@,
            },
    {
        match self {
            LoadModelError::Io(m) | LoadModelError::Model(m) => m.as_str(),
        }
    }
}

// ---------------------------------------------------------------------------
// Coordinate strings
// ---------------------------------------------------------------------------

/// The entries of `Dim1=Elem1,Dim2=Elem2,...` after the first `n`
/// comma-separated pieces: each trimmed piece holding `=` sets its
/// trimmed key to its trimmed value (a later piece overrides an earlier
/// one); pieces without `=` are ignored.
pub open spec fn coord_pieces(pieces: Seq<Seq<char>>, n: nat) -> Seq<(Seq<char>, Seq<char>)>
    decreases n,
{
    if n == 0 || n > pieces.len() {
        Seq::empty()
    } else {
        let acc = coord_pieces(pieces, (n - 1) as nat);
        let p = trim(pieces[n - 1]);
        match find_char(p, '=') {
            Some(e) => sorted_insert(acc, trim(p.subrange(0, e)), trim(p.subrange(e + 1, p.len() as int))),
            None => acc,
        }
    }
}

/// The entries a coordinate string sets, ascending by key.
pub open spec fn coord_entries(s: Seq<char>) -> Seq<(Seq<char>, Seq<char>)> {
    coord_pieces(split_on(s, ','), split_on(s, ',').len())
}

/// Parse `"Dim1=Elem1,Dim2=Elem2,..."` into a name-keyed map.
pub fn parse_coord_string(s: &str) -> (r: CoordMap)
    ensures
        r.view() == coord_entries(s@),
{
    let cs = chars_of(s);
    let pieces = split_chars(&cs, ',');
    let ghost ps = split_on(s@, ',');
    let mut map = CoordMap::new();
    let mut i: usize = 0;
    assert(map.view() == coord_pieces(ps, 0));
    while i < pieces.len()
        invariant
            i <= pieces@.len(),
            cs@ == s@,
            pieces@.len() == ps.len(),
            forall|k: int| 0 <= k < pieces@.len() ==> (#[trigger] pieces@[k])@ == ps[k],
            map.view() == coord_pieces(ps, i as nat),
        decreases pieces@.len() - i,
    {
        let part = trim_chars(&pieces[i]);
        match find_char_exec(&part, '=') {
            Some(e) => {
                proof {
                    lemma_find_char_found(part@, '=');
                }
                assert(e < part@.len());
                assert(part@.len() == part.len());
                let kr = slice_chars(&part, 0, e);
                let vr = slice_chars(&part, e + 1, part.len());
                let k = trim_chars(&kr);
                let v = trim_chars(&vr);
                map.insert(string_of(&k), string_of(&v));
            },
            None => {},
        }
        i += 1;
    }
    map
}

/// The JSON object for a coordinate map: `{"k":"v",...}` in key order,
/// strings quoted with the minimal escape set.
pub open spec fn coord_json_body(e: Seq<(Seq<char>, Seq<char>)>) -> Seq<char>
    decreases e.len(),
{
    if e.len() == 0 {
        Seq::empty()
    } else {
        let prev = coord_json_body(e.drop_last());
        let item = quoted(EscapeSet::Minimal, e.last().0) + seq![':'] + quoted(
            EscapeSet::Minimal,
            e.last().1,
        );
        if e.len() == 1 {
            item
        } else {
            prev + seq![','] + item
        }
    }
}

/// Render a coordinate map as a compact JSON object.
pub fn format_coord_json(coord: &CoordMap) -> (r: String)
    ensures
        r@ == seq!['{'] + coord_json_body(coord.view()) + seq!['}'],
{
    let mut out = String::new();
    push_char(&mut out, '{');
    let mut i: usize = 0;
    while i < coord.len()
        invariant
            i <= coord.view().len(),
            out@ == seq!['{'] + coord_json_body(coord.view().take(i as int)),
        decreases coord.view().len() - i,
    {
        let (k, v) = coord.entry(i);
        if i > 0 {
            push_char(&mut out, ',');
        }
        push_json_str(&mut out, k.as_str());
        push_char(&mut out, ':');
        push_json_str(&mut out, v.as_str());
        proof {
            let t = coord.view().take(i + 1);
            assert(t.drop_last() =~= coord.view().take(i as int));
            assert(t.last() == coord.view()[i as int]);
            if i == 0 {
                assert(coord.view().take(0) =~= Seq::<(Seq<char>, Seq<char>)>::empty());
            }
            assert(out@ =~= seq!['{'] + coord_json_body(t));
        }
        i += 1;
    }
    assert(coord.view().take(coord.view().len() as int) =~= coord.view());
    push_char(&mut out, '}');
    out
}

/// Append `s` as a JSON string literal, escaping `"`, `\` and newline,
/// and other control characters as `\u00XX`.
pub fn push_json_str(out: &mut String, s: &str)
    ensures
        final(out)@ == old(out)@ + quoted(EscapeSet::Minimal, s@),
{
    push_quoted(out, EscapeSet::Minimal, s);
}

/// The argument of `name(arg)` when the trimmed expression has exactly
/// that shape.
pub open spec fn strip_fn_spec(name: Seq<char>, expr: Seq<char>) -> Option<Seq<char>> {
    let t = trim(expr);
    if has_prefix(t, name) && has_prefix(t.subrange(name.len() as int, t.len() as int), seq!['('])
        && has_suffix(t, seq![')']) {
        Some(t.subrange(name.len() + 1 as int, t.len() - 1))
    } else {
        None
    }
}

/// The argument of `name(...)` in `expr`, if `expr` (trimmed) has that
/// shape.
pub fn strip_fn(name: &str, expr: &str) -> (r: Option<String>)
    ensures
        r.deep_view() == strip_fn_spec(name@, expr@),
{
    let e = chars_of(expr);
    let t = trim_chars(&e);
    let n = chars_of(name);
    if !starts_with_chars(&t, &n) {
        return None;
    }
    if !(n.len() < t.len() && t[n.len()] == '(') {
        proof {
            let r = t@.subrange(n@.len() as int, t@.len() as int);
            if has_prefix(r, seq!['(']) {
                assert(r.subrange(0, 1)[0] == r[0]);
            }
        }
        return None;
    }
    assert(has_prefix(t@.subrange(n@.len() as int, t@.len() as int), seq!['('])) by {
        assert(t@.subrange(n@.len() as int, t@.len() as int).subrange(0, 1) =~= seq!['(']);
    }
    if !(t[t.len() - 1] == ')') {
        proof {
            if has_suffix(t@, seq![')']) {
                assert(t@.subrange(t@.len() - 1, t@.len() as int)[0] == t@[t@.len() - 1]);
            }
        }
        return None;
    }
    assert(has_suffix(t@, seq![')'])) by {
        assert(t@.subrange(t@.len() - 1, t@.len() as int) =~= seq![')']);
    }
    assert(n@.len() + 1 <= t@.len() - 1);
    let inner = slice_chars(&t, n.len() + 1, t.len() - 1);
    Some(string_of(&inner))
}

} // verus!
