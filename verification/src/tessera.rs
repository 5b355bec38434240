//! `mc tessera`: the verb and argument grammar of the import subcommands
//! (`apply`, `dry-run`, `history`, `rollback`, `audit`, `propose`).
use crate::text::{
    err_debug, has_prefix, lit, nat_decimal, push_str, starts_with_dashes, str_debug, str_eq,
    usize_to_string,
};
use crate::mcp::{byte_pos, lemma_byte_pos_mono, lemma_byte_pos_step, utf8_width};
use crate::text::{chars_of, push_char, slice_chars, string_of};
use vstd::prelude::*;
use vstd::utf8::encode_utf8;

pub mod propose;


verus! {

/// Output format of the tessera verbs.
#[derive(Clone, Copy, Debug, PartialEq, Eq, Structural)]
pub enum Format {
    Text,
    Json,
}

/// A parsed `mc tessera` invocation.
#[derive(Debug)]
pub enum Command {
    Apply { recipe: String, format: Format, workspace: Option<String> },
    DryRun { recipe: String, format: Format, workspace: Option<String> },
    History { model_dir: String, format: Format },
    Rollback { import_id: String, model_dir: String, format: Format },
    Audit { model_dir: String, format: Format },
    Propose { source: String, model: String },
}

/// The value a [`Command`] stands for.
pub enum CommandModel {
    Apply { recipe: Seq<char>, format: Format, workspace: Option<Seq<char>> },
    DryRun { recipe: Seq<char>, format: Format, workspace: Option<Seq<char>> },
    History { model_dir: Seq<char>, format: Format },
    Rollback { import_id: Seq<char>, model_dir: Seq<char>, format: Format },
    Audit { model_dir: Seq<char>, format: Format },
    Propose { source: Seq<char>, model: Seq<char> },
}

pub open spec fn command_model(c: Command) -> CommandModel {
    match c {
        Command::Apply { recipe, format, workspace } => CommandModel::Apply {
            recipe: recipe@,
            format,
            workspace: workspace.deep_view(),
        },
        Command::DryRun { recipe, format, workspace } => CommandModel::DryRun {
            recipe: recipe@,
            format,
            workspace: workspace.deep_view(),
        },
        Command::History { model_dir, format } => CommandModel::History {
            model_dir: model_dir@,
            format,
        },
        Command::Rollback { import_id, model_dir, format } => CommandModel::Rollback {
            import_id: import_id@,
            model_dir: model_dir@,
            format,
        },
        Command::Audit { model_dir, format } => CommandModel::Audit { model_dir: model_dir@, format },
        Command::Propose { source, model } => CommandModel::Propose {
            source: source@,
            model: model@,
        },
    }
}

/// Positional arguments, the format, and the value of one extra option.
pub struct ScanState {
    pub positional: Seq<Seq<char>>,
    pub format: Format,
    pub value: Option<Seq<char>>,
}

/// The loop shared by the verbs: `--format text|json`, the extra option
/// `flag` taking a value (when there is one), bare arguments collected as
/// positional, anything else starting with `--` refused.
pub open spec fn scan_loop(args: Seq<Seq<char>>, i: nat, flag: Option<Seq<char>>, st: ScanState) -> Result<
    ScanState,
    Seq<char>,
>
    decreases args.len() - i,
{
    if i >= args.len() {
        Ok(st)
    } else {
        let a = args[i as int];
        let has_v = i + 1 < args.len();
        let v = args[i + 1 as int];
        if a == "--format"@ {
            if !has_v {
                Err("--format requires an argument"@)
            } else if v == "text"@ {
                scan_loop(args, i + 2, flag, ScanState { format: Format::Text, ..st })
            } else if v == "json"@ {
                scan_loop(args, i + 2, flag, ScanState { format: Format::Json, ..st })
            } else {
                Err("--format must be `text` or `json`, got "@ + str_debug(v))
            }
        } else if flag == Some(a) {
            if !has_v {
                Err(a + " requires an argument"@)
            } else {
                scan_loop(args, i + 2, flag, ScanState { value: Some(v), ..st })
            }
        } else if !has_prefix(a, seq!['-', '-']) {
            scan_loop(args, i + 1, flag, ScanState { positional: st.positional.push(a), ..st })
        } else {
            Err("unknown argument: "@ + str_debug(a))
        }
    }
}

/// The scan of a whole argument list.
pub open spec fn scan_spec(args: Seq<Seq<char>>, flag: Option<Seq<char>>) -> Result<ScanState, Seq<char>> {
    scan_loop(args, 0, flag, ScanState { positional: Seq::empty(), format: Format::Text, value: None })
}

/// Scan the arguments of a verb.
fn scan_args(args: &[String], flag: Option<&str>) -> (r: Result<(Vec<String>, Format, Option<String>), String>)
    ensures
        match r {
            Ok((p, f, v)) => scan_spec(
                args.deep_view(),
                match flag {
                    Some(x) => Some(x@),
                    None => None,
                },
            ) == Ok::<ScanState, Seq<char>>(
                ScanState { positional: p.deep_view(), format: f, value: v.deep_view() },
            ),
            Err(e) => scan_spec(
                args.deep_view(),
                match flag {
                    Some(x) => Some(x@),
                    None => None,
                },
            ) == Err::<ScanState, Seq<char>>(e@),
        },
{
    let ghost av = args.deep_view();
    let ghost fl = match flag {
        Some(x) => Some(x@),
        None => None::<Seq<char>>,
    };
    let mut positional: Vec<String> = Vec::new();
    let mut format = Format::Text;
    let mut value: Option<String> = None;
    let mut i: usize = 0;
    assert(positional.deep_view() =~= Seq::<Seq<char>>::empty());
    while i < args.len()
        invariant
            i <= args@.len(),
            av == args.deep_view(),
            fl == (match flag {
                Some(x) => Some(x@),
                None => None::<Seq<char>>,
            }),
            scan_spec(av, fl) == scan_loop(
                av,
                i as nat,
                fl,
                ScanState {
                    positional: positional.deep_view(),
                    format: format,
                    value: value.deep_view(),
                },
            ),
        decreases args@.len() - i,
    {
        let arg = args[i].as_str();
        assert(av[i as int] == arg@);
        let has_v = i + 1 < args.len();
        if has_v {
            assert(av[i + 1] == args@[i + 1]@);
        }
        let is_flag = match flag {
            Some(x) => str_eq(arg, x),
            None => false,
        };
        if str_eq(arg, "--format") {
            if !has_v {
                return Err(lit("--format requires an argument"));
            }
            let v = args[i + 1].as_str();
            if str_eq(v, "text") {
                format = Format::Text;
            } else if str_eq(v, "json") {
                format = Format::Json;
            } else {
                return Err(err_debug("--format must be `text` or `json`, got ", v));
            }
            i += 2;
        } else if is_flag {
            if !has_v {
                let mut m = lit(arg);
                push_str(&mut m, " requires an argument");
                return Err(m);
            }
            value = Some(args[i + 1].clone());
            i += 2;
        } else if !starts_with_dashes(arg) {
            let ghost old_p = positional.deep_view();
            positional.push(args[i].clone());
            assert(positional.deep_view() =~= old_p.push(av[i as int]));
            i += 1;
        } else {
            return Err(err_debug("unknown argument: ", arg));
        }
    }
    Ok((positional, format, value))
}

/// The error for a wrong number of positional arguments.
pub open spec fn count_error(expected: nat, got: nat) -> Seq<char> {
    "expected "@ + nat_decimal(expected) + " positional argument(s), got "@ + nat_decimal(got)
}

/// The positional arguments and format of a verb that takes
/// `expected_positional` positional arguments and `--format`.
pub open spec fn positional_format_spec(args: Seq<Seq<char>>, expected: nat) -> Result<
    (Seq<Seq<char>>, Format),
    Seq<char>,
> {
    match scan_spec(args, None) {
        Err(e) => Err(e),
        Ok(st) => if st.positional.len() != expected {
            Err(count_error(expected, st.positional.len()))
        } else {
            Ok((st.positional, st.format))
        },
    }
}

/// The same, also taking `--workspace <path>`.
pub open spec fn positional_workspace_spec(args: Seq<Seq<char>>, expected: nat) -> Result<
    (Seq<Seq<char>>, Format, Option<Seq<char>>),
    Seq<char>,
> {
    match scan_spec(args, Some("--workspace"@)) {
        Err(e) => Err(e),
        Ok(st) => if st.positional.len() != expected {
            Err(count_error(expected, st.positional.len()))
        } else {
            Ok((st.positional, st.format, st.value))
        },
    }
}

fn count_error_text(expected: usize, got: usize) -> (r: String)
    ensures
        r@ == count_error(expected as nat, got as nat),
{
    let mut m = lit("expected ");
    let e = usize_to_string(expected);
    push_str(&mut m, e.as_str());
    push_str(&mut m, " positional argument(s), got ");
    let g = usize_to_string(got);
    push_str(&mut m, g.as_str());
    m
}

/// Parse the arguments of a verb taking `expected_positional` positional
/// arguments and `--format`.
pub fn parse_positional_with_format(args: &[String], expected_positional: usize) -> (r: Result<
    (Vec<String>, Format),
    String,
>)
    ensures
        match r {
            Ok((p, f)) => positional_format_spec(args.deep_view(), expected_positional as nat)
                == Ok::<(Seq<Seq<char>>, Format), Seq<char>>((p.deep_view(), f)),
            Err(e) => positional_format_spec(args.deep_view(), expected_positional as nat) == Err::<
                (Seq<Seq<char>>, Format),
                Seq<char>,
            >(e@),
        },
{
    let (positional, format, _v) = match scan_args(args, None) {
        Err(e) => {
            return Err(e);
        },
        Ok(x) => x,
    };
    if positional.len() != expected_positional {
        return Err(count_error_text(expected_positional, positional.len()));
    }
    Ok((positional, format))
}

/// Parse the arguments of a verb taking `expected_positional` positional
/// arguments, `--format` and `--workspace <path>`.
pub fn parse_positional_with_format_and_workspace(args: &[String], expected_positional: usize) -> (r:
    Result<(Vec<String>, Format, Option<String>), String>)
    ensures
        match r {
            Ok((p, f, w)) => positional_workspace_spec(args.deep_view(), expected_positional as nat)
                == Ok::<(Seq<Seq<char>>, Format, Option<Seq<char>>), Seq<char>>(
                (p.deep_view(), f, w.deep_view()),
            ),
            Err(e) => positional_workspace_spec(args.deep_view(), expected_positional as nat)
                == Err::<(Seq<Seq<char>>, Format, Option<Seq<char>>), Seq<char>>(e@),
        },
{
    let (positional, format, workspace) = match scan_args(args, Some("--workspace")) {
        Err(e) => {
            return Err(e);
        },
        Ok(x) => x,
    };
    if positional.len() != expected_positional {
        return Err(count_error_text(expected_positional, positional.len()));
    }
    Ok((positional, format, workspace))
}

/// `propose`'s loop: `--source` and `--model` take values; anything else
/// is refused.
pub open spec fn propose_loop(
    args: Seq<Seq<char>>,
    i: nat,
    source: Option<Seq<char>>,
    model: Option<Seq<char>>,
) -> Result<(Option<Seq<char>>, Option<Seq<char>>), Seq<char>>
    decreases args.len() - i,
{
    if i >= args.len() {
        Ok((source, model))
    } else {
        let a = args[i as int];
        let has_v = i + 1 < args.len();
        let v = args[i + 1 as int];
        if a == "--source"@ {
            if !has_v {
                Err("--source requires an argument"@)
            } else {
                propose_loop(args, i + 2, Some(v), model)
            }
        } else if a == "--model"@ {
            if !has_v {
                Err("--model requires an argument"@)
            } else {
                propose_loop(args, i + 2, source, Some(v))
            }
        } else {
            Err("unknown argument for propose: "@ + str_debug(a))
        }
    }
}

/// The outcome of parsing `mc tessera` arguments: the verb, then its own
/// arguments.
pub open spec fn tessera_spec(args: Seq<Seq<char>>) -> Result<CommandModel, Seq<char>> {
    if args.len() == 0 {
        Err("`mc tessera` requires a verb (apply|dry-run|history|rollback|audit)"@)
    } else {
        let verb = args[0];
        let rest = args.drop_first();
        if verb == "apply"@ || verb == "dry-run"@ {
            match positional_workspace_spec(rest, 1) {
                Err(e) => Err(e),
                Ok((p, format, workspace)) => Ok(
                    if verb == "apply"@ {
                        CommandModel::Apply { recipe: p[0], format, workspace }
                    } else {
                        CommandModel::DryRun { recipe: p[0], format, workspace }
                    },
                ),
            }
        } else if verb == "history"@ || verb == "audit"@ {
            match positional_format_spec(rest, 1) {
                Err(e) => Err(e),
                Ok((p, format)) => Ok(
                    if verb == "history"@ {
                        CommandModel::History { model_dir: p[0], format }
                    } else {
                        CommandModel::Audit { model_dir: p[0], format }
                    },
                ),
            }
        } else if verb == "rollback"@ {
            match scan_spec(rest, Some("--model-dir"@)) {
                Err(e) => Err(e),
                Ok(st) => if st.positional.len() != 1 {
                    Err(
                        "`mc tessera rollback <import_id> --model-dir <path>` needs exactly one import_id"@,
                    )
                } else if st.value is None {
                    Err("`mc tessera rollback` requires --model-dir"@)
                } else {
                    Ok(
                        CommandModel::Rollback {
                            import_id: st.positional[0],
                            model_dir: st.value->0,
                            format: st.format,
                        },
                    )
                },
            }
        } else if verb == "propose"@ {
            match propose_loop(rest, 0, None, None) {
                Err(e) => Err(e),
                Ok((source, model)) => if source is None {
                    Err("`mc tessera propose` requires --source <path>"@)
                } else if model is None {
                    Err("`mc tessera propose` requires --model <path>"@)
                } else {
                    Ok(CommandModel::Propose { source: source->0, model: model->0 })
                },
            }
        } else {
            Err("unknown tessera verb: "@ + str_debug(verb))
        }
    }
}

/// The arguments after the verb.
fn tail_args(args: &[String]) -> (r: Vec<String>)
    requires
        args@.len() > 0,
    ensures
        r.deep_view() == args.deep_view().drop_first(),
{
    let ghost av = args.deep_view();
    let mut r: Vec<String> = Vec::new();
    let mut i: usize = 1;
    while i < args.len()
        invariant
            1 <= i <= args@.len(),
            av == args.deep_view(),
            r.deep_view() == av.subrange(1, i as int),
        decreases args@.len() - i,
    {
        let ghost old_r = r.deep_view();
        r.push(args[i].clone());
        assert(r.deep_view() =~= old_r.push(av[i as int]));
        assert(av.subrange(1, i + 1) =~= av.subrange(1, i as int).push(av[i as int]));
        i += 1;
    }
    assert(av.subrange(1, av.len() as int) =~= av.drop_first());
    r
}

/// Parse `propose`'s arguments.
fn parse_propose(args: &[String]) -> (r: Result<(Option<String>, Option<String>), String>)
    ensures
        match r {
            Ok((s, m)) => propose_loop(args.deep_view(), 0, None, None) == Ok::<
                (Option<Seq<char>>, Option<Seq<char>>),
                Seq<char>,
            >((s.deep_view(), m.deep_view())),
            Err(e) => propose_loop(args.deep_view(), 0, None, None) == Err::<
                (Option<Seq<char>>, Option<Seq<char>>),
                Seq<char>,
            >(e@),
        },
{
    let ghost av = args.deep_view();
    let mut source: Option<String> = None;
    let mut model: Option<String> = None;
    let mut i: usize = 0;
    while i < args.len()
        invariant
            i <= args@.len(),
            av == args.deep_view(),
            propose_loop(av, 0, None, None) == propose_loop(
                av,
                i as nat,
                source.deep_view(),
                model.deep_view(),
            ),
        decreases args@.len() - i,
    {
        let arg = args[i].as_str();
        assert(av[i as int] == arg@);
        let has_v = i + 1 < args.len();
        if has_v {
            assert(av[i + 1] == args@[i + 1]@);
        }
        if str_eq(arg, "--source") {
            if !has_v {
                return Err(lit("--source requires an argument"));
            }
            source = Some(args[i + 1].clone());
            i += 2;
        } else if str_eq(arg, "--model") {
            if !has_v {
                return Err(lit("--model requires an argument"));
            }
            model = Some(args[i + 1].clone());
            i += 2;
        } else {
            return Err(err_debug("unknown argument for propose: ", arg));
        }
    }
    Ok((source, model))
}

/// Parse `mc tessera` arguments.
pub fn parse(args: &[String]) -> (r: Result<Command, String>)
    ensures
        match r {
            Ok(c) => tessera_spec(args.deep_view()) == Ok::<CommandModel, Seq<char>>(
                command_model(c),
            ),
            Err(e) => tessera_spec(args.deep_view()) == Err::<CommandModel, Seq<char>>(e@),
        },
{
    if args.len() == 0 {
        return Err(lit("`mc tessera` requires a verb (apply|dry-run|history|rollback|audit)"));
    }
    let ghost av = args.deep_view();
    let verb = args[0].as_str();
    assert(av[0] == verb@);
    let rest = tail_args(args);
    if str_eq(verb, "apply") || str_eq(verb, "dry-run") {
        let (positional, format, workspace) = match parse_positional_with_format_and_workspace(
            &rest,
            1,
        ) {
            Err(e) => {
                return Err(e);
            },
            Ok(x) => x,
        };
        assert(positional.deep_view()[0] == positional@[0]@);
        let recipe = positional[0].clone();
        if str_eq(verb, "apply") {
            Ok(Command::Apply { recipe, format, workspace })
        } else {
            Ok(Command::DryRun { recipe, format, workspace })
        }
    } else if str_eq(verb, "history") || str_eq(verb, "audit") {
        let (positional, format) = match parse_positional_with_format(&rest, 1) {
            Err(e) => {
                return Err(e);
            },
            Ok(x) => x,
        };
        assert(positional.deep_view()[0] == positional@[0]@);
        let model_dir = positional[0].clone();
        if str_eq(verb, "history") {
            Ok(Command::History { model_dir, format })
        } else {
            Ok(Command::Audit { model_dir, format })
        }
    } else if str_eq(verb, "rollback") {
        let (positional, format, model_dir) = match scan_args(&rest, Some("--model-dir")) {
            Err(e) => {
                return Err(e);
            },
            Ok(x) => x,
        };
        if positional.len() != 1 {
            return Err(
                lit(
                    "`mc tessera rollback <import_id> --model-dir <path>` needs exactly one import_id",
                ),
            );
        }
        let model_dir = match model_dir {
            None => {
                return Err(lit("`mc tessera rollback` requires --model-dir"));
            },
            Some(m) => m,
        };
        assert(positional.deep_view()[0] == positional@[0]@);
        let import_id = positional[0].clone();
        Ok(Command::Rollback { import_id, model_dir, format })
    } else if str_eq(verb, "propose") {
        let (source, model) = match parse_propose(&rest) {
            Err(e) => {
                return Err(e);
            },
            Ok(x) => x,
        };
        let source = match source {
            None => {
                return Err(lit("`mc tessera propose` requires --source <path>"));
            },
            Some(s) => s,
        };
        let model = match model {
            None => {
                return Err(lit("`mc tessera propose` requires --model <path>"));
            },
            Some(m) => m,
        };
        Ok(Command::Propose { source, model })
    } else {
        Err(err_debug("unknown tessera verb: ", verb))
    }
}

// ---------------------------------------------------------------------------
// Column text
// ---------------------------------------------------------------------------

/// `s` cut to fit `n` UTF-8 bytes: unchanged when it fits, else its
/// first `n - 1` bytes (`k` characters, ending on a character boundary)
/// followed by `…`.
pub open spec fn truncated(s: Seq<char>, n: nat, k: int) -> Seq<char> {
    if encode_utf8(s).len() <= n {
        s
    } else {
        s.take(k).push('…')
    }
}

/// Whether cutting `s` to `n` bytes stays on character boundaries: it
/// fits, or some prefix of it is exactly `n - 1` bytes long.
pub open spec fn cut_on_boundary(s: Seq<char>, n: nat) -> bool {
    encode_utf8(s).len() <= n || exists|k: int|
        0 <= k <= s.len() && #[trigger] byte_pos(s, k) == (if n == 0 { 0 } else { n - 1 })
}

/// Shorten `s` to at most `n` bytes for a table column, marking a cut
/// with `…`.
pub fn truncate(s: &str, n: usize) -> (r: String)
    requires
        cut_on_boundary(s@, n as nat),
    ensures
        encode_utf8(s@).len() <= n ==> r@ == s@,
        encode_utf8(s@).len() > n ==> exists|k: int|
            0 <= k <= s@.len() && byte_pos(s@, k) == (if n == 0 { 0 } else { n - 1 }) && r@ == s@.take(k).push('…'),
{
    let bytes = s.as_bytes();
    let total = bytes.len();
    assert(bytes@ == encode_utf8(s@));
    if total <= n {
        return string_of(&chars_of(s));
    }
    let m: usize = if n == 0 { 0 } else { n - 1 };
    let v = chars_of(s);
    proof {
        assert(v@.take(v@.len() as int) =~= v@);
        assert(v@.take(0) =~= Seq::<char>::empty());
    }
    let mut k: usize = 0;
    let mut acc: usize = 0;
    while k < v.len() && acc < m
        invariant
            v@ == s@,
            k <= v@.len(),
            acc == byte_pos(s@, k as int),
            byte_pos(s@, s@.len() as int) == total,
            acc <= m,
            m == (if n == 0 { 0 } else { n - 1 }),
            exists|kk: int| 0 <= kk <= s@.len() && #[trigger] byte_pos(s@, kk) == m,
        decreases v@.len() - k,
    {
        proof {
            lemma_byte_pos_step(s@, k as int);
            lemma_byte_pos_mono(s@, k + 1);
        }
        let w = utf8_width(v[k]);
        proof {
            if acc + w > m {
                let kk = choose|kk: int| 0 <= kk <= s@.len() && #[trigger] byte_pos(s@, kk) == m;
                lemma_pos_strict(s@, k as int, kk);
                lemma_pos_strict(s@, k + 1, kk);
            }
        }
        acc = acc + w;
        k += 1;
    }
    proof {
        let kk = choose|kk: int| 0 <= kk <= s@.len() && #[trigger] byte_pos(s@, kk) == m;
        lemma_pos_strict(s@, k as int, kk);
        assert(acc == m);
    }
    let head = slice_chars(&v, 0, k);
    let mut r = string_of(&head);
    push_char(&mut r, '…');
    assert(head@ =~= s@.take(k as int));
    assert(byte_pos(s@, k as int) == m && r@ == s@.take(k as int).push('…'));
    r
}

/// Byte offsets grow strictly with the character position.
proof fn lemma_pos_strict(s: Seq<char>, a: int, b: int)
    requires
        0 <= a <= s.len(),
        0 <= b <= s.len(),
    ensures
        a < b ==> byte_pos(s, a) < byte_pos(s, b),
        a == b ==> byte_pos(s, a) == byte_pos(s, b),
        a > b ==> byte_pos(s, a) > byte_pos(s, b),
    decreases if a < b { b - a } else { a - b },
{
    if a < b {
        lemma_byte_pos_step(s, a);
        lemma_pos_strict(s, a + 1, b);
    } else if a > b {
        lemma_byte_pos_step(s, b);
        lemma_pos_strict(s, a, b + 1);
    }
}

} // verus!
