//! The `--sweep` axis grammar of `mc model backtest`:
//!
//! ```text
//! param:<name>=<spec>
//! coef:<model>.<name>=<spec>        coef:<model>.<name>=<m>x<spec>
//! input:<measure>@<k=v,...>=<spec>
//! ```
//!
//! The last `=` separates the target from the value spec, so an input
//! coordinate may hold `=`. Resolving the target against a cartridge,
//! and the value spec into numbers, is left to the caller.
use crate::text::{
    chars_of, debug_str, find_char, find_char_exec, float_text_syntax, is_float_text, lit,
    push_str, rfind_char, rfind_char_exec, slice_chars, split_chars, split_on, str_debug, string_of,
    trim, trim_chars,
};
use vstd::prelude::*;

verus! {

/// What an axis varies.
#[derive(Debug, Clone)]
pub enum AxisTarget {
    /// A scalar parameter.
    Param { name: String },
    /// A coefficient of a fitted model.
    Coef { model: String, coef: String },
    /// An input value at a coordinate (`k=v,...`, unparsed).
    Input { measure: String, coord: String },
}

/// A `--sweep` spec split into its target and its value spec.
#[derive(Debug, Clone)]
pub struct AxisSpec {
    pub target: AxisTarget,
    pub value_spec: String,
}

pub enum TargetModel {
    Param(Seq<char>),
    Coef(Seq<char>, Seq<char>),
    Input(Seq<char>, Seq<char>),
}

impl AxisTarget {
    pub open spec fn model(&self) -> TargetModel {
        match self {
            AxisTarget::Param { name } => TargetModel::Param(name@),
            AxisTarget::Coef { model, coef } => TargetModel::Coef(model@, coef@),
            AxisTarget::Input { measure, coord } => TargetModel::Input(measure@, coord@),
        }
    }
}

/// The target and value spec of `--sweep <spec>`, or the refusal.
pub open spec fn axis_spec(spec: Seq<char>) -> Result<(TargetModel, Seq<char>), Seq<char>> {
    match find_char(spec, ':') {
        None => Err("--sweep "@ + str_debug(spec) + ": missing axis kind (param:/coef:/input:)"@),
        Some(k) => {
            let kind = trim(spec.take(k));
            let rest = spec.skip(k + 1);
            match rfind_char(rest, '=') {
                None => Err("--sweep "@ + str_debug(spec) + ": missing '=<value-spec>'"@),
                Some(e) => {
                    let target = trim(rest.take(e));
                    let value = rest.skip(e + 1);
                    if kind == "param"@ {
                        Ok((TargetModel::Param(target), value))
                    } else if kind == "coef"@ {
                        match find_char(target, '.') {
                            None => Err("--sweep coef:"@ + target + ": expected coef:<model>.<name>"@),
                            Some(d) => Ok((TargetModel::Coef(target.take(d), target.skip(d + 1)), value)),
                        }
                    } else if kind == "input"@ {
                        match find_char(target, '@') {
                            None => Err("--sweep input:"@ + target
                                + ": expected input:<measure>@<k=v,...>"@),
                            Some(a) => Ok(
                                (TargetModel::Input(trim(target.take(a)), target.skip(a + 1)), value),
                            ),
                        }
                    } else {
                        Err("--sweep "@ + str_debug(spec) + ": unknown axis kind "@ + str_debug(kind)
                            + " (expected param, coef, or input)"@)
                    }
                },
            }
        },
    }
}

/// The label of an axis in reports.
pub open spec fn axis_label(t: TargetModel) -> Seq<char> {
    match t {
        TargetModel::Param(n) => "param:"@ + n,
        TargetModel::Coef(m, c) => "coef:"@ + m + "."@ + c,
        TargetModel::Input(m, _) => "input:"@ + m,
    }
}

/// The points spec of a coefficient axis and whether it is the
/// multiplier form `<nominal>x<spec>` (the nominal must be a number).
pub open spec fn coef_points_spec(target: Seq<char>, value: Seq<char>) -> Result<(Seq<char>, bool), Seq<char>> {
    match find_char(value, 'x') {
        None => Ok((value, false)),
        Some(x) => {
            let nominal = value.take(x);
            if float_text_syntax(trim(nominal)) {
                Ok((value.skip(x + 1), true))
            } else {
                Err("--sweep coef:"@ + target + ": multiplier form is <nominal>x<lo>:<hi>:<step>; "@
                    + str_debug(nominal) + " before 'x' is not a number"@)
            }
        },
    }
}

fn piece(v: &Vec<char>, lo: usize, hi: usize) -> (r: String)
    requires
        lo <= hi <= v@.len(),
    ensures
        r@ == v@.subrange(lo as int, hi as int),
{
    let p = slice_chars(v, lo, hi);
    string_of(&p)
}

fn trimmed(v: &Vec<char>, lo: usize, hi: usize) -> (r: String)
    requires
        lo <= hi <= v@.len(),
    ensures
        r@ == trim(v@.subrange(lo as int, hi as int)),
{
    let p = slice_chars(v, lo, hi);
    let t = trim_chars(&p);
    string_of(&t)
}

fn is_word(s: &str, w: &str) -> (r: bool)
    ensures
        r == (s@ == w@),
{
    crate::text::str_eq(s, w)
}

impl AxisSpec {
    /// Split a `--sweep` spec into its target and value spec.
    pub fn parse(spec: &str) -> (r: Result<AxisSpec, String>)
        ensures
            match r {
                Ok(a) => axis_spec(spec@) == Ok::<(TargetModel, Seq<char>), Seq<char>>(
                    (a.target.model(), a.value_spec@),
                ),
                Err(e) => axis_spec(spec@) == Err::<(TargetModel, Seq<char>), Seq<char>>(e@),
            },
    {
        let v = chars_of(spec);
        let k = match find_char_exec(&v, ':') {
            Some(k) => k,
            None => {
                let mut m = lit("--sweep ");
                let d = debug_str(spec);
                push_str(&mut m, d.as_str());
                push_str(&mut m, ": missing axis kind (param:/coef:/input:)");
                return Err(m);
            },
        };
        proof {
            crate::text::lemma_find_char_found(v@, ':');
        }
        let kind = trimmed(&v, 0, k);
        assert(v@.subrange(0, k as int) =~= v@.take(k as int));
        let rest = slice_chars(&v, k + 1, v.len());
        assert(rest@ =~= v@.skip(k + 1));
        let e = match rfind_char_exec(&rest, '=') {
            Some(e) => e,
            None => {
                let mut m = lit("--sweep ");
                let d = debug_str(spec);
                push_str(&mut m, d.as_str());
                push_str(&mut m, ": missing '=<value-spec>'");
                return Err(m);
            },
        };
        let target = trimmed(&rest, 0, e);
        assert(rest@.subrange(0, e as int) =~= rest@.take(e as int));
        let value_spec = piece(&rest, e + 1, rest.len());
        assert(rest@.subrange(e + 1, rest@.len() as int) =~= rest@.skip(e + 1));
        if is_word(kind.as_str(), "param") {
            Ok(AxisSpec { target: AxisTarget::Param { name: target }, value_spec })
        } else if is_word(kind.as_str(), "coef") {
            let tv = chars_of(target.as_str());
            match find_char_exec(&tv, '.') {
                None => {
                    let mut m = lit("--sweep coef:");
                    push_str(&mut m, target.as_str());
                    push_str(&mut m, ": expected coef:<model>.<name>");
                    Err(m)
                },
                Some(d) => {
                    proof {
                        crate::text::lemma_find_char_found(tv@, '.');
                        assert(find_char(tv@, '.') == Some(d as int));
                    }
                    let model = piece(&tv, 0, d);
                    let n = tv.len();
                    let coef = piece(&tv, d + 1, n);
                    assert(tv@.subrange(0, d as int) =~= tv@.take(d as int));
                    assert(tv@.subrange(d + 1, tv@.len() as int) =~= tv@.skip(d + 1));
                    Ok(AxisSpec { target: AxisTarget::Coef { model, coef }, value_spec })
                },
            }
        } else if is_word(kind.as_str(), "input") {
            let tv = chars_of(target.as_str());
            match find_char_exec(&tv, '@') {
                None => {
                    let mut m = lit("--sweep input:");
                    push_str(&mut m, target.as_str());
                    push_str(&mut m, ": expected input:<measure>@<k=v,...>");
                    Err(m)
                },
                Some(a) => {
                    proof {
                        crate::text::lemma_find_char_found(tv@, '@');
                        assert(find_char(tv@, '@') == Some(a as int));
                    }
                    let measure = trimmed(&tv, 0, a);
                    let n = tv.len();
                    let coord = piece(&tv, a + 1, n);
                    assert(tv@.subrange(0, a as int) =~= tv@.take(a as int));
                    assert(tv@.subrange(a + 1, tv@.len() as int) =~= tv@.skip(a + 1));
                    Ok(AxisSpec { target: AxisTarget::Input { measure, coord }, value_spec })
                },
            }
        } else {
            let mut m = lit("--sweep ");
            let d = debug_str(spec);
            push_str(&mut m, d.as_str());
            push_str(&mut m, ": unknown axis kind ");
            let dk = debug_str(kind.as_str());
            push_str(&mut m, dk.as_str());
            push_str(&mut m, " (expected param, coef, or input)");
            Err(m)
        }
    }

    /// The label of this axis in reports.
    pub fn label(&self) -> (r: String)
        ensures
            r@ == axis_label(self.target.model()),
    {
        match &self.target {
            AxisTarget::Param { name } => {
                let mut m = lit("param:");
                push_str(&mut m, name.as_str());
                m
            },
            AxisTarget::Coef { model, coef } => {
                let mut m = lit("coef:");
                push_str(&mut m, model.as_str());
                push_str(&mut m, ".");
                push_str(&mut m, coef.as_str());
                m
            },
            AxisTarget::Input { measure, .. } => {
                let mut m = lit("input:");
                push_str(&mut m, measure.as_str());
                m
            },
        }
    }
}

/// The points spec of a coefficient axis `coef:<target>=<value>` and
/// whether it is the multiplier form.
pub fn coef_points(target: &str, value: &str) -> (r: Result<(String, bool), String>)
    ensures
        match r {
            Ok((p, m)) => coef_points_spec(target@, value@) == Ok::<(Seq<char>, bool), Seq<char>>((p@, m)),
            Err(e) => coef_points_spec(target@, value@) == Err::<(Seq<char>, bool), Seq<char>>(e@),
        },
{
    let v = chars_of(value);
    match find_char_exec(&v, 'x') {
        None => Ok((lit(value), false)),
        Some(x) => {
            proof {
                crate::text::lemma_find_char_found(v@, 'x');
                assert(find_char(v@, 'x') == Some(x as int));
            }
            let nominal = slice_chars(&v, 0, x);
            assert(nominal@ =~= v@.take(x as int));
            let t = trim_chars(&nominal);
            if is_float_text(&t) {
                let n = v.len();
                let rest = piece(&v, x + 1, n);
                assert(v@.subrange(x + 1, v@.len() as int) =~= v@.skip(x + 1));
                Ok((rest, true))
            } else {
                let mut m = lit("--sweep coef:");
                push_str(&mut m, target);
                push_str(&mut m, ": multiplier form is <nominal>x<lo>:<hi>:<step>; ");
                let ns = string_of(&nominal);
                let d = debug_str(ns.as_str());
                push_str(&mut m, d.as_str());
                push_str(&mut m, " before 'x' is not a number");
                Err(m)
            }
        },
    }
}

// ---------------------------------------------------------------------------
// Value specs
// ---------------------------------------------------------------------------

/// A value spec's points: an enumerated list, or a range
/// `start:stop:step`. Numbers are their trimmed text.
#[derive(Debug, Clone)]
pub enum PointsSpec {
    List(Vec<String>),
    Range(String, String, String),
}

pub enum PointsModel {
    List(Seq<Seq<char>>),
    Range(Seq<char>, Seq<char>, Seq<char>),
}

impl PointsSpec {
    pub open spec fn model(&self) -> PointsModel {
        match self {
            PointsSpec::List(v) => PointsModel::List(v.deep_view()),
            PointsSpec::Range(a, b, c) => PointsModel::Range(a@, b@, c@),
        }
    }
}

/// The first `n` list pieces as numbers, or the first piece that is not.
pub open spec fn list_values(parts: Seq<Seq<char>>, n: nat) -> Result<Seq<Seq<char>>, Seq<char>>
    decreases n,
{
    if n == 0 || n > parts.len() {
        Ok(Seq::empty())
    } else {
        match list_values(parts, (n - 1) as nat) {
            Err(e) => Err(e),
            Ok(vs) => {
                let p = parts[n - 1];
                if float_text_syntax(trim(p)) {
                    Ok(vs.push(trim(p)))
                } else {
                    Err("invalid value "@ + str_debug(p) + " in list (expected a number)"@)
                }
            },
        }
    }
}

/// Whether the trimmed spec is a bracketed list.
pub open spec fn bracketed(s: Seq<char>) -> bool {
    s.len() >= 2 && s[0] == '[' && s[s.len() - 1] == ']'
}

/// The grammar of a value spec (`[v1,v2,...]` or `start:stop:step`, each
/// number in `f64` syntax). What the numbers must further satisfy (a
/// positive step, a stop not below the start) is checked on their values
/// after this, and the range points are generated from them.
pub open spec fn points_spec(spec: Seq<char>) -> Result<PointsModel, Seq<char>> {
    let s = trim(spec);
    if bracketed(s) {
        let parts = split_on(s.subrange(1, s.len() - 1), ',');
        match list_values(parts, parts.len()) {
            Err(e) => Err(e),
            Ok(vs) => if vs.len() == 0 {
                Err("value list [...] is empty"@)
            } else {
                Ok(PointsModel::List(vs))
            },
        }
    } else {
        let parts = split_on(s, ':');
        if parts.len() != 3 {
            Err("value-spec "@ + str_debug(s) + " must be a range start:stop:step or a list [v1,v2,v3]"@)
        } else if !float_text_syntax(trim(parts[0])) {
            Err("invalid range start "@ + str_debug(parts[0]))
        } else if !float_text_syntax(trim(parts[1])) {
            Err("invalid range stop "@ + str_debug(parts[1]))
        } else if !float_text_syntax(trim(parts[2])) {
            Err("invalid range step "@ + str_debug(parts[2]))
        } else {
            Ok(PointsModel::Range(trim(parts[0]), trim(parts[1]), trim(parts[2])))
        }
    }
}

proof fn lemma_list_err_sticks(parts: Seq<Seq<char>>, k: nat, n: nat, e: Seq<char>)
    requires
        k <= n <= parts.len(),
        list_values(parts, k) == Err::<Seq<Seq<char>>, Seq<char>>(e),
    ensures
        list_values(parts, n) == Err::<Seq<Seq<char>>, Seq<char>>(e),
    decreases n - k,
{
    if k < n {
        lemma_list_err_sticks(parts, k, (n - 1) as nat, e);
    }
}

/// Read a value spec's grammar.
pub fn points_syntax(spec: &str) -> (r: Result<PointsSpec, String>)
    ensures
        match r {
            Ok(p) => points_spec(spec@) == Ok::<PointsModel, Seq<char>>(p.model()),
            Err(e) => points_spec(spec@) == Err::<PointsModel, Seq<char>>(e@),
        },
{
    let cs = chars_of(spec);
    let s = trim_chars(&cs);
    let n = s.len();
    if n >= 2 && s[0] == '[' && s[n - 1] == ']' {
        let inner = slice_chars(&s, 1, n - 1);
        let parts = split_chars(&inner, ',');
        let ghost ps = split_on(s@.subrange(1, n - 1), ',');
        let mut vals: Vec<String> = Vec::new();
        let mut i: usize = 0;
        assert(vals.deep_view() =~= Seq::<Seq<char>>::empty());
        while i < parts.len()
            invariant
                s@ == trim(spec@),
                n == s@.len(),
                n >= 2,
                bracketed(s@),
                i <= parts@.len() == ps.len(),
                ps == split_on(s@.subrange(1, n - 1), ','),
                forall|k: int| 0 <= k < parts@.len() ==> (#[trigger] parts@[k])@ == ps[k],
                list_values(ps, i as nat) == Ok::<Seq<Seq<char>>, Seq<char>>(vals.deep_view()),
            decreases parts@.len() - i,
        {
            let t = trim_chars(&parts[i]);
            if !is_float_text(&t) {
                let shown = string_of(&parts[i]);
                let mut m = lit("invalid value ");
                let d = debug_str(shown.as_str());
                push_str(&mut m, d.as_str());
                push_str(&mut m, " in list (expected a number)");
                proof {
                    lemma_list_err_sticks(ps, (i + 1) as nat, ps.len(), m@);
                }
                return Err(m);
            }
            let ghost before = vals.deep_view();
            vals.push(string_of(&t));
            assert(vals.deep_view() =~= before.push(t@));
            i += 1;
        }
        if vals.len() == 0 {
            return Err(lit("value list [...] is empty"));
        }
        return Ok(PointsSpec::List(vals));
    }
    let parts = split_chars(&s, ':');
    if parts.len() != 3 {
        let shown = string_of(&s);
        let mut m = lit("value-spec ");
        let d = debug_str(shown.as_str());
        push_str(&mut m, d.as_str());
        push_str(&mut m, " must be a range start:stop:step or a list [v1,v2,v3]");
        return Err(m);
    }
    let a = trim_chars(&parts[0]);
    if !is_float_text(&a) {
        let shown = string_of(&parts[0]);
        let mut m = lit("invalid range start ");
        let d = debug_str(shown.as_str());
        push_str(&mut m, d.as_str());
        return Err(m);
    }
    let b = trim_chars(&parts[1]);
    if !is_float_text(&b) {
        let shown = string_of(&parts[1]);
        let mut m = lit("invalid range stop ");
        let d = debug_str(shown.as_str());
        push_str(&mut m, d.as_str());
        return Err(m);
    }
    let c = trim_chars(&parts[2]);
    if !is_float_text(&c) {
        let shown = string_of(&parts[2]);
        let mut m = lit("invalid range step ");
        let d = debug_str(shown.as_str());
        push_str(&mut m, d.as_str());
        return Err(m);
    }
    Ok(PointsSpec::Range(string_of(&a), string_of(&b), string_of(&c)))
}

} // verus!
