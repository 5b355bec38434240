//! The `--odds` grammar of `simulate`: each record's own odds, one fixed
//! decimal for every bet, or a named column. The fixed number stays text;
//! whether it reads as more than one is the caller's floating-point
//! verdict, handed in.
use crate::text::{
    chars_of, err_debug, float_text_syntax, has_prefix, is_float_text, lit, push_str, slice_chars,
    starts_with_chars, str_debug, string_of, trim, trim_chars,
};
use vstd::prelude::*;

verus! {

/// Where a replay takes each bet's decimal odds from.
#[derive(Debug, Clone)]
pub enum OddsSource {
    /// Each record's `decimal_odds`.
    Record,
    /// `fixed:<d>`: the same odds for every bet (the number's text).
    Fixed(String),
    /// `column:<name>`: odds read from a named column.
    Column(String),
}

pub enum OddsModel {
    Record,
    Fixed(Seq<char>),
    Column(Seq<char>),
}

impl OddsSource {
    pub open spec fn model(&self) -> OddsModel {
        match self {
            OddsSource::Record => OddsModel::Record,
            OddsSource::Fixed(d) => OddsModel::Fixed(d@),
            OddsSource::Column(c) => OddsModel::Column(c@),
        }
    }
}

/// The `--odds` grammar. `low` is how the fixed number prints when it
/// reads as a number of at most one (`None` otherwise).
pub open spec fn odds_spec(input: Seq<char>, low: Option<Seq<char>>) -> Result<OddsModel, Seq<char>> {
    let t = trim(input);
    if has_prefix(t, "fixed:"@) {
        let rest = t.subrange(6, t.len() as int);
        let d = trim(rest);
        if !float_text_syntax(d) {
            Err("--odds fixed: expects a number, got "@ + str_debug(rest))
        } else {
            match low {
                Some(shown) => Err("--odds fixed:"@ + shown + " must be > 1.0"@),
                None => Ok(OddsModel::Fixed(d)),
            }
        }
    } else if has_prefix(t, "column:"@) {
        let c = trim(t.subrange(7, t.len() as int));
        if c.len() == 0 {
            Err("--odds column: requires a column name"@)
        } else {
            Ok(OddsModel::Column(c))
        }
    } else {
        Err("--odds must be 'fixed:<decimal>' or 'column:<name>', got "@ + str_debug(t))
    }
}

/// Parse an `--odds` argument; `low` as in [`odds_spec`].
pub fn parse_odds(input: &str, low: &Option<String>) -> (r: Result<OddsSource, String>)
    ensures
        match r {
            Ok(o) => odds_spec(input@, low.deep_view()) == Ok::<OddsModel, Seq<char>>(o.model()),
            Err(e) => odds_spec(input@, low.deep_view()) == Err::<OddsModel, Seq<char>>(e@),
        },
{
    let cs = chars_of(input);
    let t = trim_chars(&cs);
    let fixed = chars_of("fixed:");
    let column = chars_of("column:");
    proof {
        reveal_strlit("fixed:");
        reveal_strlit("column:");
    }
    if starts_with_chars(&t, &fixed) {
        let rest = slice_chars(&t, 6, t.len());
        let d = trim_chars(&rest);
        if !is_float_text(&d) {
            let shown = string_of(&rest);
            return Err(err_debug("--odds fixed: expects a number, got ", shown.as_str()));
        }
        return match low {
            Some(shown) => {
                let mut m = lit("--odds fixed:");
                push_str(&mut m, shown.as_str());
                push_str(&mut m, " must be > 1.0");
                Err(m)
            },
            None => Ok(OddsSource::Fixed(string_of(&d))),
        };
    }
    if starts_with_chars(&t, &column) {
        let rest = slice_chars(&t, 7, t.len());
        let c = trim_chars(&rest);
        if c.len() == 0 {
            return Err(lit("--odds column: requires a column name"));
        }
        return Ok(OddsSource::Column(string_of(&c)));
    }
    let shown = string_of(&t);
    Err(err_debug("--odds must be 'fixed:<decimal>' or 'column:<name>', got ", shown.as_str()))
}

} // verus!
