//! The `--flag-if "<metric> <op> <value>"` predicate of `mc model grade`.
//! The threshold keeps its source text; it is checked to be a number.
use crate::simulate::CmpOp;
use crate::text::{
    chars_of, debug_str, float_text_syntax, is_float_text, join, lit, push_joined, push_str,
    split_whitespace, str_debug, str_eq, words,
};
use vstd::prelude::*;

verus! {

/// A parsed `--flag-if` predicate: which metric, how, against what.
#[derive(Debug, Clone)]
pub struct FlagPredicate {
    pub metric_index: usize,
    pub op: CmpOp,
    pub threshold: String,
}

/// The operator a word names.
pub open spec fn flag_op(w: Seq<char>) -> Option<CmpOp> {
    if w == "<"@ {
        Some(CmpOp::Lt)
    } else if w == "<="@ {
        Some(CmpOp::Lte)
    } else if w == ">"@ {
        Some(CmpOp::Gt)
    } else if w == ">="@ {
        Some(CmpOp::Gte)
    } else if w == "=="@ {
        Some(CmpOp::Eq)
    } else if w == "!="@ {
        Some(CmpOp::Neq)
    } else {
        None
    }
}

/// The position of the first occurrence of `x` in `v`.
pub open spec fn first_index(v: Seq<Seq<char>>, x: Seq<char>) -> int
    decreases v.len(),
{
    if v.len() == 0 {
        0
    } else if v[0] == x {
        0
    } else {
        1 + first_index(v.drop_first(), x)
    }
}

/// The predicate `s` spells over the metrics `names`, or the refusal.
pub open spec fn flag_spec(s: Seq<char>, names: Seq<Seq<char>>) -> Result<(int, CmpOp, Seq<char>), Seq<char>> {
    let w = words(s);
    if w.len() != 3 {
        Err(
            "--flag-if "@ + str_debug(s) + " must be '<metric> <op> <value>' (e.g. 'wr_lower_95 < 0.50')"@,
        )
    } else if !names.contains(w[0]) {
        Err("--flag-if references unknown metric "@ + str_debug(w[0]) + "; defined metrics: "@ + join(
            names,
            ", "@,
        ))
    } else {
        match flag_op(w[1]) {
            None => Err("--flag-if operator "@ + str_debug(w[1])
                + " must be one of <, <=, >, >=, ==, !="@),
            Some(op) => if float_text_syntax(w[2]) {
                Ok((first_index(names, w[0]), op, w[2]))
            } else {
                Err("--flag-if threshold "@ + str_debug(w[2]) + " is not a number"@)
            },
        }
    }
}

proof fn lemma_first_index(v: Seq<Seq<char>>, x: Seq<char>, k: int)
    requires
        0 <= k < v.len(),
        v[k] == x,
        forall|j: int| 0 <= j < k ==> v[j] != x,
    ensures
        first_index(v, x) == k,
    decreases k,
{
    if k > 0 {
        assert(v[0] != x);
        assert forall|j: int| 0 <= j < k - 1 implies v.drop_first()[j] != x by {
            assert(v.drop_first()[j] == v[j + 1]);
        }
        lemma_first_index(v.drop_first(), x, k - 1);
    }
}

fn op_of(w: &str) -> (r: Option<CmpOp>)
    ensures
        r == flag_op(w@),
{
    if str_eq(w, "<") {
        Some(CmpOp::Lt)
    } else if str_eq(w, "<=") {
        Some(CmpOp::Lte)
    } else if str_eq(w, ">") {
        Some(CmpOp::Gt)
    } else if str_eq(w, ">=") {
        Some(CmpOp::Gte)
    } else if str_eq(w, "==") {
        Some(CmpOp::Eq)
    } else if str_eq(w, "!=") {
        Some(CmpOp::Neq)
    } else {
        None
    }
}

impl FlagPredicate {
    /// Parse `<metric> <op> <value>` (whitespace-separated) against the
    /// defined metric names.
    pub fn parse(s: &str, metric_names: &Vec<String>) -> (r: Result<FlagPredicate, String>)
        ensures
            match r {
                Ok(p) => flag_spec(s@, metric_names.deep_view()) == Ok::<(int, CmpOp, Seq<char>), Seq<char>>(
                    (p.metric_index as int, p.op, p.threshold@),
                ),
                Err(e) => flag_spec(s@, metric_names.deep_view()) == Err::<(int, CmpOp, Seq<char>), Seq<char>>(e@),
            },
    {
        let ghost names = metric_names.deep_view();
        let toks = split_whitespace(s);
        if toks.len() != 3 {
            let mut m = lit("--flag-if ");
            let d = debug_str(s);
            push_str(&mut m, d.as_str());
            push_str(&mut m, " must be '<metric> <op> <value>' (e.g. 'wr_lower_95 < 0.50')");
            return Err(m);
        }
        assert(toks.deep_view()[0] == toks@[0]@);
        assert(toks.deep_view()[1] == toks@[1]@);
        assert(toks.deep_view()[2] == toks@[2]@);
        let mut i: usize = 0;
        let mut found: Option<usize> = None;
        while i < metric_names.len()
            invariant
                i <= metric_names@.len(),
                toks@.len() == 3,
                names == metric_names.deep_view(),
                forall|j: int| 0 <= j < i ==> names[j] != toks@[0]@,
                match found {
                    Some(k) => k < metric_names@.len() && names[k as int] == toks@[0]@,
                    None => true,
                },
            ensures
                match found {
                    Some(k) => k < metric_names@.len() && names[k as int] == toks@[0]@ && forall|j: int|
                        0 <= j < k ==> names[j] != toks@[0]@,
                    None => forall|j: int| 0 <= j < metric_names@.len() ==> names[j] != toks@[0]@,
                },
            decreases metric_names@.len() - i,
        {
            assert(names[i as int] == metric_names@[i as int]@);
            if str_eq(metric_names[i].as_str(), toks[0].as_str()) {
                found = Some(i);
                break;
            }
            i += 1;
        }
        let metric_index = match found {
            Some(k) => {
                proof {
                    lemma_first_index(names, toks@[0]@, k as int);
                }
                k
            },
            None => {
                proof {
                    assert(!names.contains(toks@[0]@));
                }
                let mut m = lit("--flag-if references unknown metric ");
                let d = debug_str(toks[0].as_str());
                push_str(&mut m, d.as_str());
                push_str(&mut m, "; defined metrics: ");
                push_joined(&mut m, metric_names, ", ");
                return Err(m);
            },
        };
        let op = match op_of(toks[1].as_str()) {
            Some(op) => op,
            None => {
                let mut m = lit("--flag-if operator ");
                let d = debug_str(toks[1].as_str());
                push_str(&mut m, d.as_str());
                push_str(&mut m, " must be one of <, <=, >, >=, ==, !=");
                return Err(m);
            },
        };
        let tv = chars_of(toks[2].as_str());
        if !is_float_text(&tv) {
            let mut m = lit("--flag-if threshold ");
            let d = debug_str(toks[2].as_str());
            push_str(&mut m, d.as_str());
            push_str(&mut m, " is not a number");
            return Err(m);
        }
        Ok(FlagPredicate { metric_index, op, threshold: toks[2].clone() })
    }
}

} // verus!
