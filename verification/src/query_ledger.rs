//! `mc model query-ledger`: argument parsing.
use crate::text::{
    chars_of, err_debug, find_char, find_char_exec, has_prefix, lemma_find_char_found, lit,
    parse_usize, parse_usize_spec, slice_chars, starts_with_dashes, str_debug, str_eq, string_of,
};
use vstd::prelude::*;

verus! {

/// A fully-parsed `mc model query-ledger` invocation.
#[derive(Debug)]
pub struct QueryLedgerCommand {
    /// Directory holding `.mosaic/analysis-ledger.jsonl`.
    pub model_dir: String,
    /// Keep entries of this severity (info|success|warning|critical).
    pub severity: Option<String>,
    /// Keep entries of this template.
    pub template_id: Option<String>,
    /// Keep entries whose report period is at or after this one.
    pub since: Option<String>,
    /// Keep entries whose scope holds each of these key/value pairs.
    pub scope_filters: Vec<(String, String)>,
    /// Keep entries whose template fired in this many consecutive periods.
    pub repeated: Option<usize>,
    pub format: QueryLedgerFormat,
}

/// Output format of `query-ledger`.
#[derive(Clone, Copy, Debug, PartialEq, Eq, Structural)]
pub enum QueryLedgerFormat {
    Json,
    Text,
}

impl QueryLedgerCommand {
    pub open spec fn model(&self) -> LedgerQueryState {
        LedgerQueryState {
            model_dir: Some(self.model_dir@),
            severity: self.severity.deep_view(),
            template_id: self.template_id.deep_view(),
            since: self.since.deep_view(),
            scope_filters: self.scope_filters@.map_values(|p: (String, String)| (p.0@, p.1@)),
            repeated: self.repeated,
            format: self.format,
        }
    }
}

/// What the argument loop has gathered so far.
pub struct LedgerQueryState {
    pub model_dir: Option<Seq<char>>,
    pub severity: Option<Seq<char>>,
    pub template_id: Option<Seq<char>>,
    pub since: Option<Seq<char>>,
    pub scope_filters: Seq<(Seq<char>, Seq<char>)>,
    pub repeated: Option<usize>,
    pub format: QueryLedgerFormat,
}

/// The argument loop from position `i` on.
pub open spec fn ledger_query_loop(args: Seq<Seq<char>>, i: nat, st: LedgerQueryState) -> Result<LedgerQueryState, Seq<char>>
    decreases args.len() - i,
{
    if i >= args.len() {
        Ok(st)
    } else {
        let a = args[i as int];
        let has_v = i + 1 < args.len();
        let v = args[i + 1 as int];
        if a == "--severity"@ {
            if !has_v {
                Err("--severity requires an argument"@)
            } else if v == "info"@ || v == "success"@ || v == "warning"@ || v == "critical"@ {
                ledger_query_loop(args, i + 2, LedgerQueryState { severity: Some(v), ..st })
            } else {
                Err(
                    "--severity must be one of [\"info\", \"success\", \"warning\", \"critical\"]; got "@
                        + str_debug(v),
                )
            }
        } else if a == "--template"@ {
            if !has_v {
                Err("--template requires an argument"@)
            } else {
                ledger_query_loop(args, i + 2, LedgerQueryState { template_id: Some(v), ..st })
            }
        } else if a == "--since"@ {
            if !has_v {
                Err("--since requires a period argument (e.g., 2026-01)"@)
            } else {
                ledger_query_loop(args, i + 2, LedgerQueryState { since: Some(v), ..st })
            }
        } else if a == "--scope"@ {
            if !has_v {
                Err("--scope requires a key=value argument"@)
            } else {
                match find_char(v, '=') {
                    Some(k) => ledger_query_loop(
                        args,
                        i + 2,
                        LedgerQueryState {
                            scope_filters: st.scope_filters.push(
                                (v.subrange(0, k), v.subrange(k + 1, v.len() as int)),
                            ),
                            ..st
                        },
                    ),
                    None => Err("--scope must be key=value; got "@ + str_debug(v)),
                }
            }
        } else if a == "--repeated"@ {
            if !has_v {
                Err("--repeated requires a number"@)
            } else {
                match parse_usize_spec(v) {
                    Some(n) => if n == 0 {
                        Err("--repeated requires a positive integer"@)
                    } else {
                        ledger_query_loop(args, i + 2, LedgerQueryState { repeated: Some(n), ..st })
                    },
                    None => Err("--repeated requires a positive integer; got "@ + str_debug(v)),
                }
            }
        } else if a == "--format"@ {
            if !has_v {
                Err("--format requires an argument"@)
            } else if v == "json"@ {
                ledger_query_loop(args, i + 2, LedgerQueryState { format: QueryLedgerFormat::Json, ..st })
            } else if v == "text"@ {
                ledger_query_loop(args, i + 2, LedgerQueryState { format: QueryLedgerFormat::Text, ..st })
            } else {
                Err("--format must be text or json; got "@ + str_debug(v))
            }
        } else if !has_prefix(a, seq!['-', '-']) && st.model_dir is None {
            ledger_query_loop(args, i + 1, LedgerQueryState { model_dir: Some(a), ..st })
        } else {
            Err("unknown argument: "@ + str_debug(a))
        }
    }
}

/// The check made once every argument is read.
pub open spec fn ledger_query_finish(r: Result<LedgerQueryState, Seq<char>>) -> Result<
    LedgerQueryState,
    Seq<char>,
> {
    match r {
        Err(e) => Err(e),
        Ok(st) => if st.model_dir is None {
            Err("`mc model query-ledger` requires a model directory path"@)
        } else {
            Ok(st)
        },
    }
}

/// The state before any argument is read.
pub open spec fn ledger_query_init() -> LedgerQueryState {
    LedgerQueryState {
        model_dir: None,
        severity: None,
        template_id: None,
        since: None,
        scope_filters: Seq::empty(),
        repeated: None,
        format: QueryLedgerFormat::Text,
    }
}

/// The outcome of parsing `query-ledger` arguments.
pub open spec fn ledger_query_spec(args: Seq<Seq<char>>) -> Result<LedgerQueryState, Seq<char>> {
    if args.len() == 0 {
        Err("`mc model query-ledger` requires a model directory path"@)
    } else {
        ledger_query_finish(ledger_query_loop(args, 0, ledger_query_init()))
    }
}

/// Parse `mc model query-ledger` arguments.
pub fn parse(args: &[String]) -> (r: Result<QueryLedgerCommand, String>)
    ensures
        match r {
            Ok(c) => ledger_query_spec(args.deep_view()) == Ok::<LedgerQueryState, Seq<char>>(
                c.model(),
            ),
            Err(e) => ledger_query_spec(args.deep_view()) == Err::<LedgerQueryState, Seq<char>>(
                e@,
            ),
        },
{
    let ghost av = args.deep_view();
    if args.len() == 0 {
        return Err(lit("`mc model query-ledger` requires a model directory path"));
    }
    let mut model_dir: Option<String> = None;
    let mut severity: Option<String> = None;
    let mut template_id: Option<String> = None;
    let mut since: Option<String> = None;
    let mut scope_filters: Vec<(String, String)> = Vec::new();
    let mut repeated: Option<usize> = None;
    let mut format: QueryLedgerFormat = QueryLedgerFormat::Text;
    assert(scope_filters@.map_values(|p: (String, String)| (p.0@, p.1@)) =~= Seq::<
        (Seq<char>, Seq<char>),
    >::empty());
    let mut i: usize = 0;
    while i < args.len()
        invariant
            i <= args@.len(),
            av == args.deep_view(),
            ledger_query_spec(av) == ledger_query_finish(ledger_query_loop(av, i as nat, LedgerQueryState {
                model_dir: model_dir.deep_view(),
                severity: severity.deep_view(),
                template_id: template_id.deep_view(),
                since: since.deep_view(),
                scope_filters: scope_filters@.map_values(|p: (String, String)| (p.0@, p.1@)),
                repeated: repeated,
                format: format,
            })),
        decreases args@.len() - i,
    {
        let arg = args[i].as_str();
        assert(av[i as int] == arg@);
        let has_v = i + 1 < args.len();
        if has_v {
            assert(av[i + 1] == args@[i + 1]@);
        }
        if str_eq(arg, "--severity") {
            if !has_v {
                return Err(lit("--severity requires an argument"));
            }
            let v = args[i + 1].as_str();
            if str_eq(v, "info") || str_eq(v, "success") || str_eq(v, "warning") || str_eq(
                v,
                "critical",
            ) {
                severity = Some(args[i + 1].clone());
            } else {
                return Err(
                    err_debug(
                        "--severity must be one of [\"info\", \"success\", \"warning\", \"critical\"]; got ",
                        v,
                    ),
                );
            }
            i += 2;
        } else if str_eq(arg, "--template") {
            if !has_v {
                return Err(lit("--template requires an argument"));
            }
            template_id = Some(args[i + 1].clone());
            i += 2;
        } else if str_eq(arg, "--since") {
            if !has_v {
                return Err(lit("--since requires a period argument (e.g., 2026-01)"));
            }
            since = Some(args[i + 1].clone());
            i += 2;
        } else if str_eq(arg, "--scope") {
            if !has_v {
                return Err(lit("--scope requires a key=value argument"));
            }
            let v = args[i + 1].as_str();
            let cs = chars_of(v);
            proof {
                lemma_find_char_found(cs@, '=');
            }
            match find_char_exec(&cs, '=') {
                Some(k) => {
                    let key = string_of(&slice_chars(&cs, 0, k));
                    let val = string_of(&slice_chars(&cs, k + 1, cs.len()));
                    let ghost prev = scope_filters@;
                    scope_filters.push((key, val));
                    assert(scope_filters@.map_values(|p: (String, String)| (p.0@, p.1@))
                        =~= prev.map_values(|p: (String, String)| (p.0@, p.1@)).push(
                        (v@.subrange(0, k as int), v@.subrange(k + 1, v@.len() as int)),
                    ));
                },
                None => {
                    return Err(err_debug("--scope must be key=value; got ", v));
                },
            }
            i += 2;
        } else if str_eq(arg, "--repeated") {
            if !has_v {
                return Err(lit("--repeated requires a number"));
            }
            let v = args[i + 1].as_str();
            match parse_usize(v) {
                Some(n) => {
                    if n == 0 {
                        return Err(lit("--repeated requires a positive integer"));
                    }
                    repeated = Some(n);
                },
                None => {
                    return Err(err_debug("--repeated requires a positive integer; got ", v));
                },
            }
            i += 2;
        } else if str_eq(arg, "--format") {
            if !has_v {
                return Err(lit("--format requires an argument"));
            }
            let v = args[i + 1].as_str();
            if str_eq(v, "json") {
                format = QueryLedgerFormat::Json;
            } else if str_eq(v, "text") {
                format = QueryLedgerFormat::Text;
            } else {
                return Err(err_debug("--format must be text or json; got ", v));
            }
            i += 2;
        } else if !starts_with_dashes(arg) && model_dir.is_none() {
            model_dir = Some(args[i].clone());
            i += 1;
        } else {
            return Err(err_debug("unknown argument: ", arg));
        }
    }
    let model_dir = match model_dir {
        None => {
            return Err(lit("`mc model query-ledger` requires a model directory path"));
        },
        Some(p) => p,
    };
    Ok(
        QueryLedgerCommand {
            model_dir,
            severity,
            template_id,
            since,
            scope_filters,
            repeated,
            format,
        },
    )
}

/// The invariants of the gathered options: a known severity, a positive
/// repeat count, and scope keys split at their first `=`.
pub open spec fn ledger_query_sound(st: LedgerQueryState) -> bool {
    &&& (st.severity matches Some(s) ==> (s == "info"@ || s == "success"@ || s == "warning"@ || s
        == "critical"@))
    &&& (st.repeated matches Some(n) ==> n >= 1)
    &&& forall|e: int| 0 <= e < st.scope_filters.len() ==> !(#[trigger] st.scope_filters[e]).0.contains('=')
}

/// Some argument from position `i` on is `--scope`, followed by the
/// pair's key, `=` and its value.
pub open spec fn scope_given(args: Seq<Seq<char>>, i: int, p: (Seq<char>, Seq<char>)) -> bool {
    exists|j: int| i <= j && j + 1 < args.len() && #[trigger] args[j] == "--scope"@ && args[j + 1] == p.0 + seq!['='] + p.1
}

proof fn lemma_ledger_query_loop_sound(args: Seq<Seq<char>>, i: nat, st: LedgerQueryState)
    requires
        ledger_query_sound(st),
    ensures
        ledger_query_loop(args, i, st) matches Ok(s2) ==> ledger_query_sound(s2),
        ledger_query_loop(args, i, st) matches Ok(s2) ==> {
            &&& st.scope_filters.len() <= s2.scope_filters.len()
            &&& forall|e: int| 0 <= e < st.scope_filters.len() ==> s2.scope_filters[e] == st.scope_filters[e]
            &&& forall|e: int|
                st.scope_filters.len() <= e < s2.scope_filters.len() ==> scope_given(
                    args,
                    i as int,
                    #[trigger] s2.scope_filters[e],
                )
        },
    decreases args.len() - i,
{
    if i < args.len() {
        let a = args[i as int];
        let has_v = i + 1 < args.len();
        let v = args[i + 1 as int];
        if !has_v {
            if !has_prefix(a, seq!['-', '-']) && st.model_dir is None && a != "--severity"@ && a
                != "--template"@ && a != "--since"@ && a != "--scope"@ && a != "--repeated"@ && a
                != "--format"@ {
                lemma_ledger_query_loop_sound(args, i + 1, LedgerQueryState { model_dir: Some(a), ..st });
            }
        } else if a == "--severity"@ {
            if v == "info"@ || v == "success"@ || v == "warning"@ || v == "critical"@ {
                lemma_ledger_query_loop_sound(args, i + 2, LedgerQueryState { severity: Some(v), ..st });
            }
        } else if a == "--template"@ {
            lemma_ledger_query_loop_sound(args, i + 2, LedgerQueryState { template_id: Some(v), ..st });
        } else if a == "--since"@ {
            lemma_ledger_query_loop_sound(args, i + 2, LedgerQueryState { since: Some(v), ..st });
        } else if a == "--scope"@ {
            if let Some(k) = find_char(v, '=') {
                lemma_find_char_found(v, '=');
                let key = v.subrange(0, k);
                let sf = st.scope_filters.push((key, v.subrange(k + 1, v.len() as int)));
                assert(!key.contains('=')) by {
                    if key.contains('=') {
                        let w = choose|w: int| 0 <= w < key.len() && key[w] == '=';
                        assert(v[w] == '=');
                    }
                }
                assert forall|e: int| 0 <= e < sf.len() implies !(#[trigger] sf[e]).0.contains('=') by {
                    if e < st.scope_filters.len() {
                        assert(sf[e] == st.scope_filters[e]);
                    }
                }
                assert(v =~= key + seq!['='] + v.subrange(k + 1, v.len() as int));
                assert(scope_given(args, i as int, sf[st.scope_filters.len() as int]));
                lemma_ledger_query_loop_sound(args, i + 2, LedgerQueryState { scope_filters: sf, ..st });
            }
        } else if a == "--repeated"@ {
            if let Some(n) = parse_usize_spec(v) {
                if n != 0 {
                    lemma_ledger_query_loop_sound(args, i + 2, LedgerQueryState { repeated: Some(n), ..st });
                }
            }
        } else if a == "--format"@ {
            if v == "json"@ {
                lemma_ledger_query_loop_sound(
                    args,
                    i + 2,
                    LedgerQueryState { format: QueryLedgerFormat::Json, ..st },
                );
            } else if v == "text"@ {
                lemma_ledger_query_loop_sound(
                    args,
                    i + 2,
                    LedgerQueryState { format: QueryLedgerFormat::Text, ..st },
                );
            }
        } else if !has_prefix(a, seq!['-', '-']) && st.model_dir is None {
            lemma_ledger_query_loop_sound(args, i + 1, LedgerQueryState { model_dir: Some(a), ..st });
        }
    }
}

/// A parsed `query-ledger` names a model directory, filters on one of
/// the four severities, asks for a positive repeat count, and splits each
/// `--scope` at its first `=` (the key holds none): each scope filter is
/// a `--scope` value, its key before that `=` and its value after.
pub proof fn law_query_ledger_arguments(args: Seq<Seq<char>>)
    ensures
        ledger_query_spec(args) matches Ok(c) ==> c.model_dir is Some && ledger_query_sound(c),
        ledger_query_spec(args) matches Ok(c) ==> forall|e: int|
            0 <= e < c.scope_filters.len() ==> scope_given(args, 0, #[trigger] c.scope_filters[e]),
{
    lemma_ledger_query_loop_sound(args, 0, ledger_query_init());
}

} // verus!
