//! The holdout-evaluation vocabulary shared by `grade` and `backtest`:
//! the closed set of reductions and the metric-expression grammar
//! `name=reduction(ingredient[,ingredient])`.
use crate::text::{
    float_text_syntax, is_float_text,
    chars_of, debug_str, find_char, find_char_exec, has_suffix, is_digit, lemma_find_char_found,
    lit, nat_decimal, push_str, slice_chars, split_chars, split_on, str_debug, str_eq, string_of,
    trim, trim_chars, usize_to_string,
};
use crate::query::filter::{AtomModel, Filter, FilterAtom, FilterModel, FilterValue, ValueModel, filter_model};
use crate::simulate::CmpOp;
use vstd::prelude::*;

pub mod segments;

verus! {

/// One reduction in the closed metric vocabulary.
#[derive(Debug, Clone, Copy, PartialEq, Eq, Structural)]
pub enum Reduction {
    Count,
    Mean,
    Sum,
    Ratio,
    Std,
    Min,
    Max,
    WilsonLower,
    WilsonUpper,
    /// `rmse(m)` = `sqrt(mean(m))` over a per-unit squared-error measure.
    Rmse,
}

/// The canonical spelling of each reduction.
pub open spec fn reduction_name(r: Reduction) -> Seq<char> {
    match r {
        Reduction::Count => "count"@,
        Reduction::Mean => "mean"@,
        Reduction::Sum => "sum"@,
        Reduction::Ratio => "ratio"@,
        Reduction::Std => "std"@,
        Reduction::Min => "min"@,
        Reduction::Max => "max"@,
        Reduction::WilsonLower => "wilson_lower"@,
        Reduction::WilsonUpper => "wilson_upper"@,
        Reduction::Rmse => "rmse"@,
    }
}

/// The reduction a spelling names, if any.
pub open spec fn reduction_from(s: Seq<char>) -> Option<Reduction> {
    if s == "count"@ {
        Some(Reduction::Count)
    } else if s == "mean"@ {
        Some(Reduction::Mean)
    } else if s == "sum"@ {
        Some(Reduction::Sum)
    } else if s == "ratio"@ {
        Some(Reduction::Ratio)
    } else if s == "std"@ {
        Some(Reduction::Std)
    } else if s == "min"@ {
        Some(Reduction::Min)
    } else if s == "max"@ {
        Some(Reduction::Max)
    } else if s == "wilson_lower"@ {
        Some(Reduction::WilsonLower)
    } else if s == "wilson_upper"@ {
        Some(Reduction::WilsonUpper)
    } else if s == "rmse"@ {
        Some(Reduction::Rmse)
    } else {
        None
    }
}

/// Number of ingredient measures a reduction consumes.
pub open spec fn reduction_arity(r: Reduction) -> nat {
    match r {
        Reduction::Ratio => 2,
        _ => 1,
    }
}

impl Reduction {
    /// The canonical spelling used in `--metric` expressions.
    pub fn name(self) -> (r: &'static str)
        ensures
            r@ == reduction_name(self),
    {
        match self {
            Reduction::Count => "count",
            Reduction::Mean => "mean",
            Reduction::Sum => "sum",
            Reduction::Ratio => "ratio",
            Reduction::Std => "std",
            Reduction::Min => "min",
            Reduction::Max => "max",
            Reduction::WilsonLower => "wilson_lower",
            Reduction::WilsonUpper => "wilson_upper",
            Reduction::Rmse => "rmse",
        }
    }

    /// Number of ingredient measures: `ratio` takes 2, all others 1.
    pub fn arity(self) -> (r: usize)
        ensures
            r == reduction_arity(self),
    {
        match self {
            Reduction::Ratio => 2,
            _ => 1,
        }
    }

    /// The reduction named by `s`, if it is one of the ten spellings.
    pub fn from_str(s: &str) -> (r: Option<Reduction>)
        ensures
            r == reduction_from(s@),
    {
        if str_eq(s, "count") {
            Some(Reduction::Count)
        } else if str_eq(s, "mean") {
            Some(Reduction::Mean)
        } else if str_eq(s, "sum") {
            Some(Reduction::Sum)
        } else if str_eq(s, "ratio") {
            Some(Reduction::Ratio)
        } else if str_eq(s, "std") {
            Some(Reduction::Std)
        } else if str_eq(s, "min") {
            Some(Reduction::Min)
        } else if str_eq(s, "max") {
            Some(Reduction::Max)
        } else if str_eq(s, "wilson_lower") {
            Some(Reduction::WilsonLower)
        } else if str_eq(s, "wilson_upper") {
            Some(Reduction::WilsonUpper)
        } else if str_eq(s, "rmse") {
            Some(Reduction::Rmse)
        } else {
            None
        }
    }
}

/// A parsed `name=reduction(ingredient[,ingredient])` metric.
#[derive(Debug, Clone)]
pub struct MetricExpr {
    pub name: String,
    pub reduction: Reduction,
    pub ingredients: Vec<String>,
}

/// The value a [`MetricExpr`] stands for.
pub struct MetricModel {
    pub name: Seq<char>,
    pub reduction: Reduction,
    pub ingredients: Seq<Seq<char>>,
}

impl MetricExpr {
    pub open spec fn model(&self) -> MetricModel {
        MetricModel {
            name: self.name@,
            reduction: self.reduction,
            ingredients: self.ingredients.deep_view(),
        }
    }
}

/// The reduction spellings, comma-separated, as error messages list them.
pub const REDUCTION_LIST: &'static str =
    "count, mean, sum, ratio, std, min, max, wilson_lower, wilson_upper, rmse";

pub open spec fn is_ascii_alpha(c: char) -> bool {
    ('a' <= c <= 'z') || ('A' <= c <= 'Z')
}

pub open spec fn is_ident_char(c: char) -> bool {
    is_ascii_alpha(c) || is_digit(c) || c == '_'
}

/// Non-empty, ASCII alphanumeric or `_`, not starting with a digit.
pub open spec fn bare_ident(s: Seq<char>) -> bool {
    &&& s.len() > 0
    &&& (is_ascii_alpha(s[0]) || s[0] == '_')
    &&& forall|i: int| 0 <= i < s.len() ==> is_ident_char(#[trigger] s[i])
}

/// Index of the first piece that is empty, if any.
pub open spec fn first_empty(s: Seq<Seq<char>>) -> Option<int>
    decreases s.len(),
{
    if s.len() == 0 {
        None
    } else {
        match first_empty(s.drop_last()) {
            Some(i) => Some(i),
            None => if s.last().len() == 0 { Some(s.len() - 1) } else { None },
        }
    }
}

/// Index of the first piece that is not a bare identifier, if any.
pub open spec fn first_non_ident(s: Seq<Seq<char>>) -> Option<int>
    decreases s.len(),
{
    if s.len() == 0 {
        None
    } else {
        match first_non_ident(s.drop_last()) {
            Some(i) => Some(i),
            None => if !bare_ident(s.last()) { Some(s.len() - 1) } else { None },
        }
    }
}

pub open spec fn plural_suffix(n: nat) -> Seq<char> {
    if n == 1 {
        Seq::<char>::empty()
    } else {
        seq!['s']
    }
}

/// The outcome of parsing a metric expression: the model of the parsed
/// metric, or the exact error message.
pub open spec fn metric_expr_spec(input: Seq<char>) -> Result<MetricModel, Seq<char>> {
    let t = trim(input);
    let q = str_debug(input);
    match find_char(t, '=') {
        None => Err("metric "@ + q + " must be 'name=reduction(ingredient[,ingredient])'"@),
        Some(eq) => {
            let name = trim(t.subrange(0, eq));
            let rest = trim(t.subrange(eq + 1, t.len() as int));
            if name.len() == 0 {
                Err("metric "@ + q + " is missing a name before '='"@)
            } else if !bare_ident(name) {
                Err(
                    "metric name "@ + str_debug(name)
                        + " must be a bare identifier (letters, digits, underscore)"@,
                )
            } else {
                match find_char(rest, '(') {
                    None => Err("metric "@ + q + ": expected 'reduction(...)' after '='"@),
                    Some(open) => {
                        if !has_suffix(rest, seq![')']) {
                            Err("metric "@ + q + ": missing closing ')'"@)
                        } else {
                            let rname = trim(rest.subrange(0, open));
                            match reduction_from(rname) {
                                None => Err(
                                    "unknown reduction "@ + str_debug(rname)
                                        + "; expected one of: "@ + REDUCTION_LIST@,
                                ),
                                Some(red) => {
                                    let args = rest.subrange(open + 1, rest.len() - 1);
                                    let ings = split_on(args, ',').map_values(
                                        |a: Seq<char>| trim(a),
                                    );
                                    if first_empty(ings) is Some {
                                        Err(
                                            "metric "@ + q
                                                + ": empty ingredient (check for a stray comma)"@,
                                        )
                                    } else if first_non_ident(ings) is Some {
                                        Err(
                                            "metric "@ + q + ": ingredient "@ + str_debug(
                                                ings[first_non_ident(ings)->0],
                                            ) + " must be a bare measure name"@,
                                        )
                                    } else if ings.len() != reduction_arity(red) {
                                        Err(
                                            reduction_name(red) + "() takes exactly "@
                                                + nat_decimal(reduction_arity(red))
                                                + " ingredient"@ + plural_suffix(
                                                reduction_arity(red),
                                            ) + ", got "@ + nat_decimal(ings.len()) + " in "@
                                                + q,
                                        )
                                    } else {
                                        Ok(
                                            MetricModel {
                                                name: name,
                                                reduction: red,
                                                ingredients: ings,
                                            },
                                        )
                                    }
                                },
                            }
                        }
                    },
                }
            }
        },
    }
}

/// Bare-identifier rule shared by metric names and ingredients.
pub fn is_bare_ident(s: &[char]) -> (r: bool)
    ensures
        r == bare_ident(s@),
{
    if s.len() == 0 {
        return false;
    }
    let c0 = s[0];
    if !(('a' <= c0 && c0 <= 'z') || ('A' <= c0 && c0 <= 'Z') || c0 == '_') {
        return false;
    }
    let mut i: usize = 0;
    while i < s.len()
        invariant
            i <= s@.len(),
            forall|j: int| 0 <= j < i ==> is_ident_char(#[trigger] s@[j]),
        decreases s@.len() - i,
    {
        let c = s[i];
        if !(('a' <= c && c <= 'z') || ('A' <= c && c <= 'Z') || ('0' <= c && c <= '9') || c
            == '_') {
            return false;
        }
        i += 1;
    }
    true
}

fn debug_chars(v: &[char]) -> (r: String)
    ensures
        r@ == str_debug(v@),
{
    let s = string_of(v);
    debug_str(s.as_str())
}

/// Parse one metric expression per the grammar
/// `IDENT '=' REDUCTION '(' ingredient (',' ingredient)* ')'`, with
/// whitespace tolerated around `=`, `,` and the parentheses.
#[verifier::loop_isolation(false)]
pub fn parse_metric_expr(input: &str) -> (r: Result<MetricExpr, String>)
    ensures
        match r {
            Ok(m) => metric_expr_spec(input@) matches Ok(mm) && m.model() == mm,
            Err(e) => metric_expr_spec(input@) == Err::<MetricModel, Seq<char>>(e@),
        },
{
    let all = chars_of(input);
    let t = trim_chars(&all);
    let q = debug_str(input);
    let eq = match find_char_exec(&t, '=') {
        None => {
            let mut m = lit("metric ");
            push_str(&mut m, q.as_str());
            push_str(&mut m, " must be 'name=reduction(ingredient[,ingredient])'");
            return Err(m);
        },
        Some(e) => e,
    };
    proof {
        lemma_find_char_found(t@, '=');
    }
    assert(eq < t@.len() == t.len());
    let name_raw = slice_chars(&t, 0, eq);
    let name = trim_chars(&name_raw);
    let rest_raw = slice_chars(&t, eq + 1, t.len());
    let rest = trim_chars(&rest_raw);
    if name.len() == 0 {
        let mut m = lit("metric ");
        push_str(&mut m, q.as_str());
        push_str(&mut m, " is missing a name before '='");
        return Err(m);
    }
    if !is_bare_ident(&name) {
        let mut m = lit("metric name ");
        let d = debug_chars(&name);
        push_str(&mut m, d.as_str());
        push_str(&mut m, " must be a bare identifier (letters, digits, underscore)");
        return Err(m);
    }
    let open = match find_char_exec(&rest, '(') {
        None => {
            let mut m = lit("metric ");
            push_str(&mut m, q.as_str());
            push_str(&mut m, ": expected 'reduction(...)' after '='");
            return Err(m);
        },
        Some(o) => o,
    };
    proof {
        lemma_find_char_found(rest@, '(');
    }
    if !(rest.len() > 0 && rest[rest.len() - 1] == ')') {
        proof {
            if has_suffix(rest@, seq![')']) {
                assert(rest@.subrange(rest@.len() - 1, rest@.len() as int)[0] == ')');
            }
        }
        let mut m = lit("metric ");
        push_str(&mut m, q.as_str());
        push_str(&mut m, ": missing closing ')'");
        return Err(m);
    }
    assert(has_suffix(rest@, seq![')'])) by {
        assert(rest@.subrange(rest@.len() - 1, rest@.len() as int) =~= seq![')']);
    }
    let rname_raw = slice_chars(&rest, 0, open);
    let rname_v = trim_chars(&rname_raw);
    let rname = string_of(&rname_v);
    let red = match Reduction::from_str(rname.as_str()) {
        None => {
            let mut m = lit("unknown reduction ");
            let d = debug_str(rname.as_str());
            push_str(&mut m, d.as_str());
            push_str(&mut m, "; expected one of: ");
            push_str(&mut m, REDUCTION_LIST);
            return Err(m);
        },
        Some(x) => x,
    };
    let args = slice_chars(&rest, open + 1, rest.len() - 1);
    let pieces = split_chars(&args, ',');
    let ghost ings_spec = split_on(args@, ',').map_values(|a: Seq<char>| trim(a));
    let mut ings: Vec<String> = Vec::new();
    let mut i: usize = 0;
    while i < pieces.len()
        invariant
            i <= pieces@.len(),
            pieces@.len() == ings_spec.len(),
            forall|k: int| 0 <= k < pieces@.len() ==> trim((#[trigger] pieces@[k])@) == ings_spec[k],
            ings@.len() == i,
            forall|k: int| 0 <= k < i ==> (#[trigger] ings@[k])@ == ings_spec[k],
        decreases pieces@.len() - i,
    {
        let tr = trim_chars(&pieces[i]);
        ings.push(string_of(&tr));
        i += 1;
    }
    assert(ings.deep_view() =~= ings_spec);
    // empty ingredient check
    let mut k: usize = 0;
    while k < ings.len()
        invariant
            k <= ings@.len(),
            ings.deep_view() == ings_spec,
            first_empty(ings_spec.take(k as int)) is None,
        decreases ings@.len() - k,
    {
        assert(ings_spec.take(k as int + 1).drop_last() == ings_spec.take(k as int));
        if string_is_empty(&ings[k]) {
            proof {
                assert(ings.deep_view()[k as int] == ings@[k as int]@);
                assert(ings_spec.take(k as int + 1).last() == ings_spec[k as int]);
                assert(first_empty(ings_spec.take(k as int + 1)) is Some);
                lemma_first_empty_prefix(ings_spec, k as int + 1);
            }
            let mut m = lit("metric ");
            push_str(&mut m, q.as_str());
            push_str(&mut m, ": empty ingredient (check for a stray comma)");
            return Err(m);
        }
        k += 1;
    }
    assert(ings_spec.take(ings@.len() as int) == ings_spec);
    let mut k: usize = 0;
    while k < ings.len()
        invariant
            k <= ings@.len(),
            ings.deep_view() == ings_spec,
            first_empty(ings_spec) is None,
            first_non_ident(ings_spec.take(k as int)) is None,
        decreases ings@.len() - k,
    {
        assert(ings_spec.take(k as int + 1).drop_last() == ings_spec.take(k as int));
        let cv = chars_of(ings[k].as_str());
        if !is_bare_ident(&cv) {
            proof {
                assert(ings.deep_view()[k as int] == ings@[k as int]@);
                assert(ings_spec.take(k as int + 1).last() == ings_spec[k as int]);
                assert(first_non_ident(ings_spec.take(k as int + 1)) == Some(k as int));
                lemma_first_non_ident_prefix(ings_spec, k as int + 1);
                assert(first_empty(ings_spec) is None);
            }
            let mut m = lit("metric ");
            push_str(&mut m, q.as_str());
            push_str(&mut m, ": ingredient ");
            let d = debug_str(ings[k].as_str());
            push_str(&mut m, d.as_str());
            push_str(&mut m, " must be a bare measure name");
            return Err(m);
        }
        k += 1;
    }
    assert(ings_spec.take(ings@.len() as int) == ings_spec);
    let want = red.arity();
    if ings.len() != want {
        let mut m = lit(red.name());
        push_str(&mut m, "() takes exactly ");
        let w = usize_to_string(want);
        push_str(&mut m, w.as_str());
        push_str(&mut m, " ingredient");
        if want != 1 {
            push_str(&mut m, "s");
        }
        push_str(&mut m, ", got ");
        let g = usize_to_string(ings.len());
        push_str(&mut m, g.as_str());
        push_str(&mut m, " in ");
        push_str(&mut m, q.as_str());
        proof {
            reveal_strlit("s");
            assert(plural_suffix(want as nat) == (if want != 1 { "s"@ } else { Seq::<char>::empty() }));
        }
        return Err(m);
    }
    let name_s = string_of(&name);
    Ok(MetricExpr { name: name_s, reduction: red, ingredients: ings })
}

/// Whether a string is empty.
fn string_is_empty(s: &String) -> (r: bool)
    ensures
        r == (s@.len() == 0),
{
    s.as_str().is_empty()
}

proof fn lemma_first_empty_prefix(s: Seq<Seq<char>>, k: int)
    requires
        0 <= k <= s.len(),
        first_empty(s.take(k)) is Some,
    ensures
        first_empty(s) is Some,
    decreases s.len() - k,
{
    if k < s.len() {
        assert(s.take(k + 1).drop_last() == s.take(k));
        lemma_first_empty_prefix(s, k + 1);
    } else {
        assert(s.take(k) == s);
    }
}

proof fn lemma_first_non_ident_prefix(s: Seq<Seq<char>>, k: int)
    requires
        0 <= k <= s.len(),
        first_non_ident(s.take(k)) is Some,
    ensures
        first_non_ident(s) == first_non_ident(s.take(k)),
    decreases s.len() - k,
{
    if k < s.len() {
        assert(s.take(k + 1).drop_last() == s.take(k));
        lemma_first_non_ident_prefix(s, k + 1);
    } else {
        assert(s.take(k) == s);
    }
}

/// No piece is flagged: every piece is a bare identifier.
proof fn lemma_first_non_ident_none(s: Seq<Seq<char>>)
    requires
        first_non_ident(s) is None,
    ensures
        forall|i: int| 0 <= i < s.len() ==> bare_ident(#[trigger] s[i]),
    decreases s.len(),
{
    if s.len() > 0 {
        lemma_first_non_ident_none(s.drop_last());
        assert forall|i: int| 0 <= i < s.len() implies bare_ident(#[trigger] s[i]) by {
            if i < s.len() - 1 {
                assert(s.drop_last()[i] == s[i]);
            }
        }
    }
}

/// An accepted metric has a bare-identifier name and exactly as many
/// ingredients as its reduction takes (two for `ratio`, one for every
/// other), each a bare measure name.
pub proof fn law_parsed_metric_well_formed(input: Seq<char>)
    ensures
        match metric_expr_spec(input) {
            Ok(m) => {
                &&& bare_ident(m.name)
                &&& m.ingredients.len() == reduction_arity(m.reduction)
                &&& m.ingredients.len() == (if m.reduction == Reduction::Ratio {
                    2nat
                } else {
                    1nat
                })
                &&& forall|i: int|
                    0 <= i < m.ingredients.len() ==> bare_ident(#[trigger] m.ingredients[i])
            },
            Err(_) => true,
        },
{
    let t = trim(input);
    if let Some(eq) = find_char(t, '=') {
        let rest = trim(t.subrange(eq + 1, t.len() as int));
        if let Some(open) = find_char(rest, '(') {
            let args = rest.subrange(open + 1, rest.len() - 1);
            let ings = split_on(args, ',').map_values(|a: Seq<char>| trim(a));
            if first_non_ident(ings) is None {
                lemma_first_non_ident_none(ings);
            }
        }
    }
}

/// The metrics of a list of `--metric` arguments, parsed in order; the
/// first malformed one decides the error.
pub open spec fn metrics_spec(strs: Seq<Seq<char>>) -> Result<Seq<MetricModel>, Seq<char>>
    decreases strs.len(),
{
    if strs.len() == 0 {
        Ok(Seq::<MetricModel>::empty())
    } else {
        match metrics_spec(strs.drop_last()) {
            Err(e) => Err(e),
            Ok(ms) => match metric_expr_spec(strs.last()) {
                Err(e) => Err(e),
                Ok(m) => Ok(ms.push(m)),
            },
        }
    }
}

/// A list of metric texts is read in order: when every text reads, the
/// result holds each one's metric at its place; otherwise the first text
/// that does not read gives the error.
pub proof fn law_metrics_read_in_order(strs: Seq<Seq<char>>)
    ensures
        (forall|j: int| 0 <= j < strs.len() ==> #[trigger] metric_expr_spec(strs[j]) is Ok) ==> (metrics_spec(strs)
            matches Ok(ms) && ms.len() == strs.len() && forall|j: int|
            0 <= j < strs.len() ==> metric_expr_spec(strs[j]) == Ok::<MetricModel, Seq<char>>(#[trigger] ms[j])),
        forall|k: int|
            0 <= k < strs.len() && (forall|j: int| 0 <= j < k ==> #[trigger] metric_expr_spec(strs[j]) is Ok)
                && #[trigger] metric_expr_spec(strs[k]) is Err ==> metrics_spec(strs) == Err::<Seq<MetricModel>, Seq<char>>(
                metric_expr_spec(strs[k])->Err_0,
            ),
    decreases strs.len(),
{
    if strs.len() > 0 {
        let p = strs.drop_last();
        law_metrics_read_in_order(p);
        assert forall|j: int| 0 <= j < p.len() implies p[j] == strs[j] by {}
        if forall|j: int| 0 <= j < strs.len() ==> #[trigger] metric_expr_spec(strs[j]) is Ok {
            assert(forall|j: int| 0 <= j < p.len() ==> #[trigger] metric_expr_spec(p[j]) is Ok) by {
                assert forall|j: int| 0 <= j < p.len() implies #[trigger] metric_expr_spec(p[j]) is Ok by {
                    assert(metric_expr_spec(strs[j]) is Ok);
                }
            }
            assert(metric_expr_spec(strs[strs.len() - 1]) is Ok);
        }
        assert forall|k: int|
            0 <= k < strs.len() && (forall|j: int| 0 <= j < k ==> #[trigger] metric_expr_spec(strs[j]) is Ok)
                && #[trigger] metric_expr_spec(strs[k]) is Err implies metrics_spec(strs) == Err::<
            Seq<MetricModel>,
            Seq<char>,
        >(metric_expr_spec(strs[k])->Err_0) by {
            if k < p.len() {
                assert(metric_expr_spec(p[k]) is Err);
                assert(forall|j: int| 0 <= j < k ==> #[trigger] metric_expr_spec(p[j]) is Ok) by {
                    assert forall|j: int| 0 <= j < k implies #[trigger] metric_expr_spec(p[j]) is Ok by {
                        assert(metric_expr_spec(strs[j]) is Ok);
                    }
                }
            } else {
                assert(forall|j: int| 0 <= j < p.len() ==> #[trigger] metric_expr_spec(p[j]) is Ok) by {
                    assert forall|j: int| 0 <= j < p.len() implies #[trigger] metric_expr_spec(p[j]) is Ok by {
                        assert(metric_expr_spec(strs[j]) is Ok);
                    }
                }
            }
        }
    }
}

/// The models of a list of parsed metrics.
pub open spec fn metric_models(ms: Seq<MetricExpr>) -> Seq<MetricModel> {
    ms.map_values(|m: MetricExpr| m.model())
}

/// An error on a prefix of the list is the error of the whole list.
pub proof fn lemma_metrics_prefix_err(s: Seq<Seq<char>>, k: int)
    requires
        0 <= k <= s.len(),
        metrics_spec(s.take(k)) is Err,
    ensures
        metrics_spec(s) == metrics_spec(s.take(k)),
    decreases s.len() - k,
{
    if k < s.len() {
        assert(s.take(k + 1).drop_last() == s.take(k));
        lemma_metrics_prefix_err(s, k + 1);
    } else {
        assert(s.take(k) == s);
    }
}

/// Parse every metric expression in order, stopping at the first error.
pub fn parse_metric_list(strs: &Vec<String>) -> (r: Result<Vec<MetricExpr>, String>)
    ensures
        match r {
            Ok(ms) => metrics_spec(strs.deep_view()) == Ok::<Seq<MetricModel>, Seq<char>>(
                metric_models(ms@),
            ),
            Err(e) => metrics_spec(strs.deep_view()) == Err::<Seq<MetricModel>, Seq<char>>(e@),
        },
{
    let ghost sv = strs.deep_view();
    let mut out: Vec<MetricExpr> = Vec::new();
    let mut i: usize = 0;
    assert(sv.take(0) =~= Seq::<Seq<char>>::empty());
    assert(metric_models(out@) =~= Seq::<MetricModel>::empty());
    while i < strs.len()
        invariant
            i <= strs@.len(),
            sv == strs.deep_view(),
            metrics_spec(sv.take(i as int)) == Ok::<Seq<MetricModel>, Seq<char>>(
                metric_models(out@),
            ),
        decreases strs@.len() - i,
    {
        assert(sv.take(i as int + 1).drop_last() == sv.take(i as int));
        assert(sv.take(i as int + 1).last() == strs@[i as int]@);
        let ghost prev = out@;
        match parse_metric_expr(strs[i].as_str()) {
            Ok(m) => {
                out.push(m);
                assert(out@.drop_last() == prev);
                assert(metric_models(out@) =~= metric_models(prev).push(out@.last().model()));
            },
            Err(e) => {
                proof {
                    lemma_metrics_prefix_err(sv, i as int + 1);
                }
                return Err(e);
            },
        }
        i += 1;
    }
    assert(sv.take(sv.len() as int) == sv);
    Ok(out)
}

/// Per-segment status in an evaluation report.
#[derive(Debug, Clone, Copy, PartialEq, Eq, Structural)]
pub enum SegmentStatus {
    Okay,
    BelowMinN,
    OutOfRange,
}

impl SegmentStatus {
    /// The status keyword written into reports.
    pub fn as_str(self) -> (r: &'static str)
        ensures
            r@ == match self {
                SegmentStatus::Okay => "ok"@,
                SegmentStatus::BelowMinN => "below_min_n"@,
                SegmentStatus::OutOfRange => "out_of_range"@,
            },
    {
        match self {
            SegmentStatus::Okay => "ok",
            SegmentStatus::BelowMinN => "below_min_n",
            SegmentStatus::OutOfRange => "out_of_range",
        }
    }
}

/// Policy for Wilson reductions when the indicator has Null values in a
/// segment: a hard error (the default) or dropping the Null units.
#[derive(Debug, Clone, Copy, PartialEq, Eq, Structural)]
pub enum WilsonNullPolicy {
    Error,
    Drop,
}

// ---------------------------------------------------------------------------
// Bucket edges
// ---------------------------------------------------------------------------

/// The first of the pieces from `i` on that is not a number once trimmed.
pub open spec fn first_bad_edge(pieces: Seq<Seq<char>>, i: int) -> Option<Seq<char>>
    decreases pieces.len() - i,
{
    if i < 0 || i >= pieces.len() {
        None
    } else if !float_text_syntax(trim(pieces[i])) {
        Some(pieces[i])
    } else {
        first_bad_edge(pieces, i + 1)
    }
}

/// The textual checks of bucket edges `e0:e1:...`: every piece a number,
/// at least two pieces.
pub open spec fn edges_syntax(s: Seq<char>) -> Result<(), Seq<char>> {
    let pieces = split_on(s, ':');
    match first_bad_edge(pieces, 0) {
        Some(p) => Err("invalid edge "@ + str_debug(p) + " (expected a number)"@),
        None => if pieces.len() < 2 {
            Err("need at least 2 edges to define a band"@)
        } else {
            Ok(())
        },
    }
}

/// The checks of bucket edges: the text first, then strict ascent.
/// `descent` is the caller's reading of the edges as numbers: the first
/// consecutive pair that does not strictly ascend, as `<a> then <b>` with
/// each number as it prints, or `None`.
pub open spec fn edges_spec(s: Seq<char>, descent: Option<Seq<char>>) -> Result<(), Seq<char>> {
    match edges_syntax(s) {
        Err(e) => Err(e),
        Ok(_) => match descent {
            Some(p) => Err("edges must be strictly ascending, got "@ + p),
            None => Ok(()),
        },
    }
}

/// The caller's ascent reading of argument `i`, if there is one.
pub open spec fn descent_at(rd: Seq<Option<Seq<char>>>, i: int) -> Option<Seq<char>> {
    if 0 <= i < rd.len() {
        rd[i]
    } else {
        None
    }
}

pub open spec fn descents_model(v: Seq<Option<String>>) -> Seq<Option<Seq<char>>> {
    v.map_values(|o: Option<String>| o.deep_view())
}

/// A copy of the ascent reading of argument `i`.
pub fn descent_of(v: &[Option<String>], i: usize) -> (r: Option<String>)
    ensures
        r.deep_view() == descent_at(descents_model(v@), i as int),
{
    if i < v.len() {
        match &v[i] {
            Some(p) => Some(p.clone()),
            None => None,
        }
    } else {
        None
    }
}

/// Check bucket edges: numbers separated by `:`, at least two of them,
/// strictly ascending by the caller's reading `descent`.
pub fn check_bucket_edges(s: &str, descent: &Option<String>) -> (r: Result<(), String>)
    ensures
        match r {
            Ok(_) => edges_spec(s@, descent.deep_view()) == Ok::<(), Seq<char>>(()),
            Err(e) => edges_spec(s@, descent.deep_view()) == Err::<(), Seq<char>>(e@),
        },
{
    let v = chars_of(s);
    let pieces = split_chars(&v, ':');
    let ghost ps = split_on(s@, ':');
    let mut i: usize = 0;
    while i < pieces.len()
        invariant
            v@ == s@,
            ps == split_on(s@, ':'),
            i <= pieces@.len() == ps.len(),
            forall|k: int| 0 <= k < pieces@.len() ==> (#[trigger] pieces@[k])@ == ps[k],
            first_bad_edge(ps, 0) == first_bad_edge(ps, i as int),
        decreases pieces@.len() - i,
    {
        assert(pieces@[i as int]@ == ps[i as int]);
        let t = trim_chars(&pieces[i]);
        if !is_float_text(&t) {
            let mut m = lit("invalid edge ");
            let d = debug_chars(&pieces[i]);
            push_str(&mut m, d.as_str());
            push_str(&mut m, " (expected a number)");
            return Err(m);
        }
        i += 1;
    }
    if pieces.len() < 2 {
        return Err(lit("need at least 2 edges to define a band"));
    }
    match descent {
        Some(p) => {
            let mut m = lit("edges must be strictly ascending, got ");
            push_str(&mut m, p.as_str());
            Err(m)
        },
        None => Ok(()),
    }
}

// ---------------------------------------------------------------------------
// Holdout float-equality guard
// ---------------------------------------------------------------------------

/// The refusal of a bare equality against a number on measure `name`.
pub open spec fn float_equality_message(name: Seq<char>) -> Seq<char> {
    "holdout filter uses bare equality on F64 measure "@ + str_debug(name)
        + ": float `==` is hazardous and no discrete-marking exists. Use a range ("@ + name
        + " >= LO and "@ + name + " <= HI) or an explicit tolerance instead."@
}

/// The first comparison, left to right, that tests a measure for
/// equality or inequality with a number literal, as its refusal.
pub open spec fn guard_spec(f: FilterModel) -> Result<(), Seq<char>>
    decreases f,
{
    match f {
        FilterModel::And(l, r) => match guard_spec(*l) {
            Err(e) => Err(e),
            Ok(_) => guard_spec(*r),
        },
        FilterModel::Or(l, r) => match guard_spec(*l) {
            Err(e) => Err(e),
            Ok(_) => guard_spec(*r),
        },
        FilterModel::Not(i) => guard_spec(*i),
        FilterModel::Compare(atom, op, value) => match (atom, value) {
            (AtomModel::Measure(name), ValueModel::Number(_)) => if op is Eq || op is Neq {
                Err(float_equality_message(name))
            } else {
                Ok(())
            },
            _ => Ok(()),
        },
    }
}

/// Some comparison in the filter tests a measure for equality or
/// inequality with a number literal.
pub open spec fn has_bare_equality(f: FilterModel) -> bool
    decreases f,
{
    match f {
        FilterModel::And(l, r) => has_bare_equality(*l) || has_bare_equality(*r),
        FilterModel::Or(l, r) => has_bare_equality(*l) || has_bare_equality(*r),
        FilterModel::Not(i) => has_bare_equality(*i),
        FilterModel::Compare(atom, op, value) => atom is Measure && value is Number && (op is Eq
            || op is Neq),
    }
}

/// The measure of the first such comparison, left to right.
pub open spec fn first_bare_measure(f: FilterModel) -> Option<Seq<char>>
    decreases f,
{
    match f {
        FilterModel::And(l, r) => match first_bare_measure(*l) {
            Some(n) => Some(n),
            None => first_bare_measure(*r),
        },
        FilterModel::Or(l, r) => match first_bare_measure(*l) {
            Some(n) => Some(n),
            None => first_bare_measure(*r),
        },
        FilterModel::Not(i) => first_bare_measure(*i),
        FilterModel::Compare(atom, op, value) => match (atom, value) {
            (AtomModel::Measure(name), ValueModel::Number(_)) => if op is Eq || op is Neq {
                Some(name)
            } else {
                None
            },
            _ => None,
        },
    }
}

/// The holdout guard refuses a filter if and only if some comparison in
/// it (under any `and`, `or` or `not`) tests a measure for equality or
/// inequality with a number; the refusal names the first such measure,
/// left to right, and says it is a bare equality.
pub proof fn law_guard_refuses_bare_equality(f: FilterModel)
    ensures
        (guard_spec(f) is Err) <==> has_bare_equality(f),
        has_bare_equality(f) <==> first_bare_measure(f) is Some,
        guard_spec(f) matches Err(e) ==> e == float_equality_message(first_bare_measure(f)->0),
    decreases f,
{
    match f {
        FilterModel::And(l, r) => {
            law_guard_refuses_bare_equality(*l);
            law_guard_refuses_bare_equality(*r);
        },
        FilterModel::Or(l, r) => {
            law_guard_refuses_bare_equality(*l);
            law_guard_refuses_bare_equality(*r);
        },
        FilterModel::Not(i) => {
            law_guard_refuses_bare_equality(*i);
        },
        FilterModel::Compare(_, _, _) => {},
    }
}

/// Reject bare equality or inequality against a number literal on a
/// measure atom: every measure is treated as continuous, so `line == 9.0`
/// is refused, while dimension pins, string comparisons and ranges pass.
pub fn guard_filter_f64_equality(filter: &Filter) -> (r: Result<(), String>)
    ensures
        match r {
            Ok(_) => guard_spec(filter_model(*filter)) == Ok::<(), Seq<char>>(()),
            Err(e) => guard_spec(filter_model(*filter)) == Err::<(), Seq<char>>(e@),
        },
    decreases filter,
{
    match filter {
        Filter::And(l, r) | Filter::Or(l, r) => {
            match guard_filter_f64_equality(l) {
                Err(e) => Err(e),
                Ok(_) => guard_filter_f64_equality(r),
            }
        },
        Filter::Not(inner) => guard_filter_f64_equality(inner),
        Filter::Compare(atom, op, value) => {
            let is_eq = matches!(op, CmpOp::Eq | CmpOp::Neq);
            match (atom, value) {
                (FilterAtom::Measure(name), FilterValue::Number(_)) => {
                    if is_eq {
                        let mut m = lit("holdout filter uses bare equality on F64 measure ");
                        let d = debug_str(name.as_str());
                        push_str(&mut m, d.as_str());
                        push_str(
                            &mut m,
                            ": float `==` is hazardous and no discrete-marking exists. Use a range (",
                        );
                        push_str(&mut m, name.as_str());
                        push_str(&mut m, " >= LO and ");
                        push_str(&mut m, name.as_str());
                        push_str(&mut m, " <= HI) or an explicit tolerance instead.");
                        Err(m)
                    } else {
                        Ok(())
                    }
                },
                _ => Ok(()),
            }
        },
    }
}

} // verus!
