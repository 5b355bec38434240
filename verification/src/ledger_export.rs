//! `mc model ledger-export`: argument parsing, the `--since` filter, and
//! CSV field quoting.
use crate::text::{
    err_debug, has_prefix, lit, push_char, push_str, seq_less, starts_with_dashes, str_debug,
    str_eq, chars_of, chars_less,
};
use vstd::prelude::*;

verus! {

/// A fully-parsed `mc model ledger-export` invocation.
#[derive(Debug)]
pub struct LedgerExportCommand {
    /// Directory holding `.mosaic/analysis-ledger.jsonl`.
    pub model_dir: String,
    /// Export format: JSONL or CSV.
    pub format: ExportFormat,
    /// Keep entries whose report period is at or after this one.
    pub since: Option<String>,
}

/// Export format of `ledger-export`.
#[derive(Clone, Copy, Debug, PartialEq, Eq, Structural)]
pub enum ExportFormat {
    Jsonl,
    Csv,
}

impl LedgerExportCommand {
    pub open spec fn model(&self) -> ExportState {
        ExportState {
            model_dir: Some(self.model_dir@),
            format: self.format,
            since: self.since.deep_view(),
        }
    }
}

/// What the argument loop has gathered so far.
pub struct ExportState {
    pub model_dir: Option<Seq<char>>,
    pub format: ExportFormat,
    pub since: Option<Seq<char>>,
}

/// The argument loop from position `i` on.
pub open spec fn export_loop(args: Seq<Seq<char>>, i: nat, st: ExportState) -> Result<ExportState, Seq<char>>
    decreases args.len() - i,
{
    if i >= args.len() {
        Ok(st)
    } else {
        let a = args[i as int];
        let has_v = i + 1 < args.len();
        let v = args[i + 1 as int];
        if a == "--format"@ {
            if !has_v {
                Err("--format requires an argument"@)
            } else if v == "jsonl"@ {
                export_loop(args, i + 2, ExportState { format: ExportFormat::Jsonl, ..st })
            } else if v == "csv"@ {
                export_loop(args, i + 2, ExportState { format: ExportFormat::Csv, ..st })
            } else {
                Err("--format must be jsonl or csv; got "@ + str_debug(v))
            }
        } else if a == "--since"@ {
            if !has_v {
                Err("--since requires a period argument"@)
            } else {
                export_loop(args, i + 2, ExportState { since: Some(v), ..st })
            }
        } else if !has_prefix(a, seq!['-', '-']) && st.model_dir is None {
            export_loop(args, i + 1, ExportState { model_dir: Some(a), ..st })
        } else {
            Err("unknown argument: "@ + str_debug(a))
        }
    }
}

/// The check made once every argument is read.
pub open spec fn export_finish(r: Result<ExportState, Seq<char>>) -> Result<ExportState, Seq<char>> {
    match r {
        Err(e) => Err(e),
        Ok(st) => if st.model_dir is None {
            Err("`mc model ledger-export` requires a model directory path"@)
        } else {
            Ok(st)
        },
    }
}

/// The state before any argument is read.
pub open spec fn export_init() -> ExportState {
    ExportState {
        model_dir: None,
        format: ExportFormat::Jsonl,
        since: None,
    }
}

/// The outcome of parsing `ledger-export` arguments.
pub open spec fn export_spec(args: Seq<Seq<char>>) -> Result<ExportState, Seq<char>> {
    if args.len() == 0 {
        Err("`mc model ledger-export` requires a model directory path"@)
    } else {
        export_finish(export_loop(args, 0, export_init()))
    }
}

/// Parse `mc model ledger-export` arguments.
pub fn parse(args: &[String]) -> (r: Result<LedgerExportCommand, String>)
    ensures
        match r {
            Ok(c) => export_spec(args.deep_view()) == Ok::<ExportState, Seq<char>>(c.model()),
            Err(e) => export_spec(args.deep_view()) == Err::<ExportState, Seq<char>>(e@),
        },
{
    let ghost av = args.deep_view();
    if args.len() == 0 {
        return Err(lit("`mc model ledger-export` requires a model directory path"));
    }
    let mut model_dir: Option<String> = None;
    let mut format: ExportFormat = ExportFormat::Jsonl;
    let mut since: Option<String> = None;
    let mut i: usize = 0;
    while i < args.len()
        invariant
            i <= args@.len(),
            av == args.deep_view(),
            export_spec(av) == export_finish(export_loop(av, i as nat, ExportState {
                model_dir: model_dir.deep_view(),
                format: format,
                since: since.deep_view(),
            })),
        decreases args@.len() - i,
    {
        let arg = args[i].as_str();
        assert(av[i as int] == arg@);
        let has_v = i + 1 < args.len();
        if has_v {
            assert(av[i + 1] == args@[i + 1]@);
        }
        if str_eq(arg, "--format") {
            if !has_v {
                return Err(lit("--format requires an argument"));
            }
            let v = args[i + 1].as_str();
            if str_eq(v, "jsonl") {
                format = ExportFormat::Jsonl;
            } else if str_eq(v, "csv") {
                format = ExportFormat::Csv;
            } else {
                return Err(err_debug("--format must be jsonl or csv; got ", v));
            }
            i += 2;
        } else if str_eq(arg, "--since") {
            if !has_v {
                return Err(lit("--since requires a period argument"));
            }
            since = Some(args[i + 1].clone());
            i += 2;
        } else if !starts_with_dashes(arg) && model_dir.is_none() {
            model_dir = Some(args[i].clone());
            i += 1;
        } else {
            return Err(err_debug("unknown argument: ", arg));
        }
    }
    let model_dir = match model_dir {
        None => {
            return Err(lit("`mc model ledger-export` requires a model directory path"));
        },
        Some(p) => p,
    };
    Ok(LedgerExportCommand { model_dir, format, since })
}

/// Whether an entry with report period `period` passes `--since`: with no
/// filter every entry does; otherwise only entries with a period that is
/// not before the filter (comparing the strings).
pub open spec fn since_keeps(period: Option<Seq<char>>, since: Option<Seq<char>>) -> bool {
    match since {
        None => true,
        Some(s) => match period {
            Some(p) => !seq_less(p, s),
            None => false,
        },
    }
}

/// Whether an entry with this report period passes the `--since` filter.
pub fn passes_since(period: Option<&str>, since: Option<&str>) -> (r: bool)
    ensures
        r == since_keeps(
            match period {
                Some(p) => Some(p@),
                None => None,
            },
            match since {
                Some(s) => Some(s@),
                None => None,
            },
        ),
{
    match since {
        None => true,
        Some(s) => match period {
            Some(p) => {
                let pc = chars_of(p);
                let sc = chars_of(s);
                !chars_less(&pc, &sc)
            },
            None => false,
        },
    }
}

/// `s` with every `"` doubled.
pub open spec fn double_quotes(s: Seq<char>) -> Seq<char>
    decreases s.len(),
{
    if s.len() == 0 {
        Seq::empty()
    } else if s.last() == '"' {
        double_quotes(s.drop_last()) + seq!['"', '"']
    } else {
        double_quotes(s.drop_last()).push(s.last())
    }
}

/// A CSV field: quoted, with inner quotes doubled, when it holds a comma,
/// a quote or a newline; as it is otherwise.
pub open spec fn csv_field_spec(s: Seq<char>) -> Seq<char> {
    if s.contains(',') || s.contains('"') || s.contains('\n') {
        seq!['"'] + double_quotes(s) + seq!['"']
    } else {
        s
    }
}

/// Quote a CSV field where it needs quoting.
pub fn csv_field(s: &str) -> (r: String)
    ensures
        r@ == csv_field_spec(s@),
{
    let cs = chars_of(s);
    let mut needs = false;
    let mut body = String::new();
    let mut i: usize = 0;
    while i < cs.len()
        invariant
            i <= cs@.len(),
            cs@ == s@,
            body@ == double_quotes(cs@.take(i as int)),
            needs == (cs@.take(i as int).contains(',') || cs@.take(i as int).contains('"')
                || cs@.take(i as int).contains('\n')),
        decreases cs@.len() - i,
    {
        let c = cs[i];
        let ghost p = cs@.take(i as int + 1);
        assert(p.drop_last() =~= cs@.take(i as int));
        assert(p.last() == c);
        if c == '"' {
            push_char(&mut body, '"');
            push_char(&mut body, '"');
            assert(body@ =~= double_quotes(p));
        } else {
            push_char(&mut body, c);
        }
        if c == ',' || c == '"' || c == '\n' {
            needs = true;
            assert(p[i as int] == c);
        }
        proof {
            assert forall|x: char| p.contains(x) <==> (cs@.take(i as int).contains(x) || x == c) by {
                if p.contains(x) {
                    let k = choose|k: int| 0 <= k < p.len() && p[k] == x;
                    if k < i {
                        assert(cs@.take(i as int)[k] == x);
                    }
                }
                if cs@.take(i as int).contains(x) {
                    let k = choose|k: int| 0 <= k < i && cs@.take(i as int)[k] == x;
                    assert(p[k] == x);
                }
                if x == c {
                    assert(p[i as int] == x);
                }
            }
        }
        i += 1;
    }
    assert(cs@.take(cs@.len() as int) =~= cs@);
    if needs {
        let mut out = String::new();
        push_char(&mut out, '"');
        push_str(&mut out, body.as_str());
        push_char(&mut out, '"');
        assert(out@ =~= seq!['"'] + double_quotes(s@) + seq!['"']);
        out
    } else {
        lit(s)
    }
}

} // verus!
