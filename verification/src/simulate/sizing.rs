//! The stake-sizing grammar of `mc model simulate`:
//!
//! ```text
//! <rule>[:<key>=<value>,...]          rule: flat | flat_current | kelly
//!                                           | quarter_kelly | half_kelly
//! from_column:<column>[,<key>=<value>,...]
//! ```
//!
//! with keys `pct`, `fraction` (the rule's parameter), `cap`, `shrink`,
//! `min_odds`, `floor`. Values keep their text, checked to be numbers;
//! whether a required parameter is zero is a question about the number
//! and is left to the caller.
use crate::simulate::SizingKind;
use crate::text::{
    chars_of, debug_str, find_char, find_char_exec, float_text_syntax, is_float_text, lit, push_str,
    slice_chars, split_chars, split_on, str_debug, str_eq, string_of, trim, trim_chars,
    lemma_find_char_found, };
use vstd::prelude::*;

verus! {

/// A parsed sizing rule; numbers are their source text.
#[derive(Debug, Clone)]
pub struct SizingSpec {
    pub kind: SizingKind,
    /// The rule word as written (trimmed).
    pub head: String,
    /// `pct` / `fraction`, or the shorthand's own (`0.25`, `0.5`), or `0`.
    pub param: String,
    pub column: Option<String>,
    pub cap: Option<String>,
    /// `shrink`, or `0`.
    pub shrink: String,
    pub min_odds: Option<String>,
    pub floor: Option<String>,
}

pub struct SizingModel {
    pub kind: SizingKind,
    pub head: Seq<char>,
    pub param: Seq<char>,
    pub column: Option<Seq<char>>,
    pub cap: Option<Seq<char>>,
    pub shrink: Seq<char>,
    pub min_odds: Option<Seq<char>>,
    pub floor: Option<Seq<char>>,
}

pub open spec fn opt_view(o: Option<String>) -> Option<Seq<char>> {
    match o {
        Some(s) => Some(s@),
        None => None,
    }
}

impl SizingSpec {
    pub open spec fn model(&self) -> SizingModel {
        SizingModel {
            kind: self.kind,
            head: self.head@,
            param: self.param@,
            column: opt_view(self.column),
            cap: opt_view(self.cap),
            shrink: self.shrink@,
            min_odds: opt_view(self.min_odds),
            floor: opt_view(self.floor),
        }
    }
}

/// One `key=value` modifier applied to the rule so far.
pub open spec fn apply_pair(m: SizingModel, pair: Seq<char>) -> Result<SizingModel, Seq<char>> {
    match find_char(pair, '=') {
        None => Err("sizing param "@ + str_debug(pair) + " must be key=value"@),
        Some(e) => {
            let k = trim(pair.take(e));
            let v = trim(pair.skip(e + 1));
            if !float_text_syntax(v) {
                Err("sizing param "@ + k + "="@ + str_debug(v) + ": not a number"@)
            } else if k == "pct"@ || k == "fraction"@ {
                Ok(SizingModel { param: v, ..m })
            } else if k == "cap"@ {
                Ok(SizingModel { cap: Some(v), ..m })
            } else if k == "shrink"@ {
                Ok(SizingModel { shrink: v, ..m })
            } else if k == "min_odds"@ {
                Ok(SizingModel { min_odds: Some(v), ..m })
            } else if k == "floor"@ {
                Ok(SizingModel { floor: Some(v), ..m })
            } else {
                Err("unknown sizing param "@ + str_debug(k)
                    + "; valid: pct, fraction, cap, shrink, min_odds, floor"@)
            }
        },
    }
}

/// The modifiers among the comma-separated pieces from `i` on (blank
/// pieces are skipped).
pub open spec fn apply_pieces(m: SizingModel, pieces: Seq<Seq<char>>, i: int) -> Result<SizingModel, Seq<char>>
    decreases pieces.len() - i,
{
    if i < 0 || i >= pieces.len() {
        Ok(m)
    } else {
        let pair = trim(pieces[i]);
        if pair.len() == 0 {
            apply_pieces(m, pieces, i + 1)
        } else {
            match apply_pair(m, pair) {
                Err(e) => Err(e),
                Ok(m2) => apply_pieces(m2, pieces, i + 1),
            }
        }
    }
}

/// All the modifiers of `params` (none when it is blank).
pub open spec fn apply_modifiers_spec(m: SizingModel, params: Seq<char>) -> Result<SizingModel, Seq<char>> {
    if trim(params).len() == 0 {
        Ok(m)
    } else {
        apply_pieces(m, split_on(params, ','), 0)
    }
}

/// The rule a word names: its kind and its shorthand parameter.
pub open spec fn rule_word(head: Seq<char>) -> Option<(SizingKind, Seq<char>)> {
    if head == "flat"@ {
        Some((SizingKind::Flat, seq!['0']))
    } else if head == "flat_current"@ {
        Some((SizingKind::FlatCurrent, seq!['0']))
    } else if head == "kelly"@ {
        Some((SizingKind::Kelly, seq!['0']))
    } else if head == "quarter_kelly"@ {
        Some((SizingKind::Kelly, seq!['0', '.', '2', '5']))
    } else if head == "half_kelly"@ {
        Some((SizingKind::Kelly, seq!['0', '.', '5']))
    } else if head == "from_column"@ {
        Some((SizingKind::FromColumn, seq!['0']))
    } else {
        None
    }
}

/// The rule `input` spells, or the refusal.
pub open spec fn sizing_spec(input: Seq<char>) -> Result<SizingModel, Seq<char>> {
    let t = trim(input);
    let (head, params) = match find_char(t, ':') {
        Some(k) => (trim(t.take(k)), trim(t.skip(k + 1))),
        None => (t, seq![]),
    };
    match rule_word(head) {
        None => Err("unknown sizing rule "@ + str_debug(head)
            + "; valid: flat, flat_current, kelly, quarter_kelly, half_kelly, from_column"@),
        Some((kind, param)) => {
            let m = SizingModel {
                kind,
                head,
                param,
                column: None,
                cap: None,
                shrink: seq!['0'],
                min_odds: None,
                floor: None,
            };
            if kind == SizingKind::FromColumn {
                if params.len() == 0 {
                    Err("from_column requires a column name (e.g. from_column:stake_hint)"@)
                } else {
                    let (col, rest) = match find_char(params, ',') {
                        Some(c) => (trim(params.take(c)), params.skip(c + 1)),
                        None => (trim(params), seq![]),
                    };
                    if col.len() == 0 || find_char(col, '=') is Some {
                        Err("from_column requires a bare column name first (from_column:stake_hint)"@)
                    } else {
                        apply_modifiers_spec(SizingModel { column: Some(col), ..m }, rest)
                    }
                }
            } else {
                apply_modifiers_spec(m, params)
            }
        },
    }
}

fn text_of(v: &Vec<char>, lo: usize, hi: usize) -> (r: String)
    requires
        lo <= hi <= v@.len(),
    ensures
        r@ == v@.subrange(lo as int, hi as int),
{
    let p = slice_chars(v, lo, hi);
    string_of(&p)
}

fn trimmed_text(v: &Vec<char>) -> (r: String)
    ensures
        r@ == trim(v@),
{
    let t = trim_chars(v);
    string_of(&t)
}

fn copy_spec(s: &SizingSpec) -> (r: SizingSpec)
    ensures
        r.model() == s.model(),
{
    SizingSpec {
        kind: s.kind,
        head: s.head.clone(),
        param: s.param.clone(),
        column: match &s.column {
            Some(c) => Some(c.clone()),
            None => None,
        },
        cap: match &s.cap {
            Some(c) => Some(c.clone()),
            None => None,
        },
        shrink: s.shrink.clone(),
        min_odds: match &s.min_odds {
            Some(c) => Some(c.clone()),
            None => None,
        },
        floor: match &s.floor {
            Some(c) => Some(c.clone()),
            None => None,
        },
    }
}

fn apply_pair_exec(spec: SizingSpec, pair: &Vec<char>) -> (r: Result<SizingSpec, String>)
    ensures
        match r {
            Ok(s) => apply_pair(spec.model(), pair@) == Ok::<SizingModel, Seq<char>>(s.model()),
            Err(e) => apply_pair(spec.model(), pair@) == Err::<SizingModel, Seq<char>>(e@),
        },
{
    let e = match find_char_exec(pair, '=') {
        Some(e) => e,
        None => {
            let mut m = lit("sizing param ");
            let ps = string_of(pair);
            let d = debug_str(ps.as_str());
            push_str(&mut m, d.as_str());
            push_str(&mut m, " must be key=value");
            return Err(m);
        },
    };
    proof {
        lemma_find_char_found(pair@, '=');
    }
    let n = pair.len();
    let kv = slice_chars(pair, 0, e);
    let vv = slice_chars(pair, e + 1, n);
    assert(kv@ =~= pair@.take(e as int));
    assert(vv@ =~= pair@.skip(e + 1));
    let kt = trim_chars(&kv);
    let vt = trim_chars(&vv);
    let k = string_of(&kt);
    let v = string_of(&vt);
    if !is_float_text(&vt) {
        let mut m = lit("sizing param ");
        push_str(&mut m, k.as_str());
        push_str(&mut m, "=");
        let d = debug_str(v.as_str());
        push_str(&mut m, d.as_str());
        push_str(&mut m, ": not a number");
        return Err(m);
    }
    let mut out = copy_spec(&spec);
    if str_eq(k.as_str(), "pct") || str_eq(k.as_str(), "fraction") {
        out.param = v;
    } else if str_eq(k.as_str(), "cap") {
        out.cap = Some(v);
    } else if str_eq(k.as_str(), "shrink") {
        out.shrink = v;
    } else if str_eq(k.as_str(), "min_odds") {
        out.min_odds = Some(v);
    } else if str_eq(k.as_str(), "floor") {
        out.floor = Some(v);
    } else {
        let mut m = lit("unknown sizing param ");
        let d = debug_str(k.as_str());
        push_str(&mut m, d.as_str());
        push_str(&mut m, "; valid: pct, fraction, cap, shrink, min_odds, floor");
        return Err(m);
    }
    Ok(out)
}

fn apply_modifiers(spec: SizingSpec, params: &Vec<char>) -> (r: Result<SizingSpec, String>)
    ensures
        match r {
            Ok(s) => apply_modifiers_spec(spec.model(), params@) == Ok::<SizingModel, Seq<char>>(
                s.model(),
            ),
            Err(e) => apply_modifiers_spec(spec.model(), params@) == Err::<SizingModel, Seq<char>>(
                e@,
            ),
        },
{
    let t = trim_chars(params);
    if t.len() == 0 {
        return Ok(spec);
    }
    let pieces = split_chars(params, ',');
    let ghost ps = split_on(params@, ',');
    let ghost m0 = spec.model();
    let mut cur = spec;
    let mut i: usize = 0;
    while i < pieces.len()
        invariant
            i <= pieces@.len() == ps.len(),
            forall|k: int| 0 <= k < pieces@.len() ==> (#[trigger] pieces@[k])@ == ps[k],
            ps == split_on(params@, ','),
            apply_modifiers_spec(m0, params@) == apply_pieces(m0, ps, 0),
            apply_pieces(m0, ps, 0) == apply_pieces(cur.model(), ps, i as int),
            m0 == spec.model(),
        decreases pieces@.len() - i,
    {
        let pair = trim_chars(&pieces[i]);
        assert(pieces@[i as int]@ == ps[i as int]);
        assert(pair@ == trim(ps[i as int]));
        let ghost mc = cur.model();
        if pair.len() == 0 {
            i += 1;
        } else {
            match apply_pair_exec(cur, &pair) {
                Err(e) => {
                    assert(apply_pieces(mc, ps, i as int) == Err::<SizingModel, Seq<char>>(e@));
                    return Err(e);
                },
                Ok(next) => {
                    cur = next;
                    i += 1;
                },
            }
        }
    }
    Ok(cur)
}

fn rule_word_exec(head: &str) -> (r: Option<(SizingKind, String)>)
    ensures
        match r {
            Some((k, p)) => rule_word(head@) == Some((k, p@)),
            None => rule_word(head@) is None,
        },
{
    let zero = ['0'];
    let quarter = ['0', '.', '2', '5'];
    let half = ['0', '.', '5'];
    assert(zero@ =~= seq!['0']);
    assert(quarter@ =~= seq!['0', '.', '2', '5']);
    assert(half@ =~= seq!['0', '.', '5']);
    if str_eq(head, "flat") {
        Some((SizingKind::Flat, string_of(&zero)))
    } else if str_eq(head, "flat_current") {
        Some((SizingKind::FlatCurrent, string_of(&zero)))
    } else if str_eq(head, "kelly") {
        Some((SizingKind::Kelly, string_of(&zero)))
    } else if str_eq(head, "quarter_kelly") {
        Some((SizingKind::Kelly, string_of(&quarter)))
    } else if str_eq(head, "half_kelly") {
        Some((SizingKind::Kelly, string_of(&half)))
    } else if str_eq(head, "from_column") {
        Some((SizingKind::FromColumn, string_of(&zero)))
    } else {
        None
    }
}

/// Parse a `--sizing` rule.
pub fn parse_sizing(input: &str) -> (r: Result<SizingSpec, String>)
    ensures
        match r {
            Ok(s) => sizing_spec(input@) == Ok::<SizingModel, Seq<char>>(s.model()),
            Err(e) => sizing_spec(input@) == Err::<SizingModel, Seq<char>>(e@),
        },
{
    let iv = chars_of(input);
    let t = trim_chars(&iv);
    let n = t.len();
    let (head, params): (String, Vec<char>) = match find_char_exec(&t, ':') {
        Some(k) => {
            proof {
                lemma_find_char_found(t@, ':');
            }
            let hv = slice_chars(&t, 0, k);
            let pv = slice_chars(&t, k + 1, n);
            assert(hv@ =~= t@.take(k as int));
            assert(pv@ =~= t@.skip(k + 1));
            (trimmed_text(&hv), trim_chars(&pv))
        },
        None => (string_of(&t), Vec::new()),
    };
    let (kind, param) = match rule_word_exec(head.as_str()) {
        Some(x) => x,
        None => {
            let mut m = lit("unknown sizing rule ");
            let d = debug_str(head.as_str());
            push_str(&mut m, d.as_str());
            push_str(
                &mut m,
                "; valid: flat, flat_current, kelly, quarter_kelly, half_kelly, from_column",
            );
            return Err(m);
        },
    };
    let zero = ['0'];
    assert(zero@ =~= seq!['0']);
    let base = SizingSpec {
        kind,
        head,
        param,
        column: None,
        cap: None,
        shrink: string_of(&zero),
        min_odds: None,
        floor: None,
    };
    if kind == SizingKind::FromColumn {
        if params.len() == 0 {
            return Err(lit("from_column requires a column name (e.g. from_column:stake_hint)"));
        }
        let pn = params.len();
        let (col, rest): (Vec<char>, Vec<char>) = match find_char_exec(&params, ',') {
            Some(c) => {
                proof {
                    lemma_find_char_found(params@, ',');
                }
                let cv = slice_chars(&params, 0, c);
                let rv = slice_chars(&params, c + 1, pn);
                assert(cv@ =~= params@.take(c as int));
                assert(rv@ =~= params@.skip(c + 1));
                (trim_chars(&cv), rv)
            },
            None => (trim_chars(&params), Vec::new()),
        };
        if col.len() == 0 || find_char_exec(&col, '=').is_some() {
            return Err(
                lit("from_column requires a bare column name first (from_column:stake_hint)"),
            );
        }
        let with_col = SizingSpec { column: Some(string_of(&col)), ..base };
        return apply_modifiers(with_col, &rest);
    }
    apply_modifiers(base, &params)
}

proof fn lemma_pieces_keep_rule(m: SizingModel, pieces: Seq<Seq<char>>, i: int)
    ensures
        apply_pieces(m, pieces, i) matches Ok(m2) ==> m2.kind == m.kind && m2.head == m.head,
    decreases pieces.len() - i,
{
    if 0 <= i < pieces.len() {
        let pair = trim(pieces[i]);
        if pair.len() == 0 {
            lemma_pieces_keep_rule(m, pieces, i + 1);
        } else if let Ok(m2) = apply_pair(m, pair) {
            lemma_pieces_keep_rule(m2, pieces, i + 1);
        }
    }
}

/// Each rule word names its own stake rule: `flat` sizes off the start
/// bankroll, `flat_current` off the current bankroll, `kelly`,
/// `quarter_kelly` and `half_kelly` by the Kelly fraction (the two
/// shorthands with fractions 0.25 and 0.5), `from_column` from a column.
/// A bare word (no `:`) takes no modifiers: the shorthands carry their
/// fraction, the others a parameter of 0.
/// The word is the trimmed text before the first `:` (or the whole
/// trimmed rule), and a rule whose word is none of these is refused.
pub proof fn law_rule_words_name_their_kinds(input: Seq<char>)
    ensures
        sizing_spec(input) matches Ok(m) ==> {
            &&& m.head == (match find_char(trim(input), ':') {
                Some(k) => trim(trim(input).take(k)),
                None => trim(input),
            })
            &&& (m.head == "flat"@ ==> m.kind == SizingKind::Flat)
            &&& (m.head == "flat_current"@ ==> m.kind == SizingKind::FlatCurrent)
            &&& (m.head == "kelly"@ ==> m.kind == SizingKind::Kelly)
            &&& (m.head == "quarter_kelly"@ ==> m.kind == SizingKind::Kelly)
            &&& (m.head == "half_kelly"@ ==> m.kind == SizingKind::Kelly)
            &&& (m.head == "from_column"@ ==> m.kind == SizingKind::FromColumn)
            &&& (m.head == "flat"@ || m.head == "flat_current"@ || m.head == "kelly"@ || m.head == "quarter_kelly"@
                || m.head == "half_kelly"@ || m.head == "from_column"@)
            &&& (find_char(trim(input), ':') is None ==> {
                &&& (m.head == "quarter_kelly"@ ==> m.param == seq!['0', '.', '2', '5'])
                &&& (m.head == "half_kelly"@ ==> m.param == seq!['0', '.', '5'])
                &&& (m.head == "kelly"@ || m.head == "flat"@ || m.head == "flat_current"@ ==> m.param == seq!['0'])
                &&& m.cap is None && m.min_odds is None && m.floor is None && m.shrink == seq!['0']
            })
        },
{
    reveal_strlit("flat");
    reveal_strlit("flat_current");
    reveal_strlit("kelly");
    reveal_strlit("quarter_kelly");
    reveal_strlit("half_kelly");
    reveal_strlit("from_column");
    let t = trim(input);
    let (head, params) = match find_char(t, ':') {
        Some(k) => (trim(t.take(k)), trim(t.skip(k + 1))),
        None => (t, seq![]),
    };
    if let Some((kind, param)) = rule_word(head) {
        let m = SizingModel {
            kind,
            head,
            param,
            column: None,
            cap: None,
            shrink: seq!['0'],
            min_odds: None,
            floor: None,
        };
        if kind == SizingKind::FromColumn {
            if params.len() > 0 {
                let (col, rest) = match find_char(params, ',') {
                    Some(c) => (trim(params.take(c)), params.skip(c + 1)),
                    None => (trim(params), seq![]),
                };
                let mc = SizingModel { column: Some(col), ..m };
                if trim(rest).len() != 0 {
                    lemma_pieces_keep_rule(mc, split_on(rest, ','), 0);
                }
            }
        } else if trim(params).len() != 0 {
            lemma_pieces_keep_rule(m, split_on(params, ','), 0);
        }
        assert("flat"@.len() != "flat_current"@.len());
        assert("flat"@.len() != "kelly"@.len());
        assert("flat"@.len() != "quarter_kelly"@.len());
        assert("flat"@.len() != "half_kelly"@.len());
        assert("flat"@.len() != "from_column"@.len());
        assert("flat_current"@.len() != "kelly"@.len());
        assert("flat_current"@.len() != "quarter_kelly"@.len());
        assert("flat_current"@.len() != "half_kelly"@.len());
        assert("flat_current"@.len() != "from_column"@.len());
        assert("kelly"@.len() != "quarter_kelly"@.len());
        assert("kelly"@.len() != "half_kelly"@.len());
        assert("kelly"@.len() != "from_column"@.len());
        assert("quarter_kelly"@.len() != "half_kelly"@.len());
        assert("quarter_kelly"@.len() != "from_column"@.len());
        assert("half_kelly"@.len() != "from_column"@.len());
    }
}

} // verus!
