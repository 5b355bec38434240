//! The record filter of `mc model simulate`: the `query --where` syntax
//! over flat record columns.
//!
//! The tokenizer classifies the input byte by byte, each byte read as the
//! Latin-1 character of that code; on text that is not ASCII it can cut a
//! word, or a two-character operator, inside a character, where slicing
//! the input panics. Those inputs are named by [`lex_spec`] (`Panics`),
//! and [`filter_input_panics`] tells them apart.
use crate::mcp::{lead_byte, lead_char};
use crate::query::filter::op_name;
use crate::simulate::CmpOp;
use crate::text::{
    ascii_lower, char_debug, chars_eq, chars_of, debug_char, debug_str, float_text_syntax,
    is_float_text, is_ws, is_ws_char, lit, push_str, slice_chars, str_debug, string_of,
    ascii_lower_chars,
};
use vstd::prelude::*;
use vstd::utf8::encode_scalar;

verus! {

// ---------------------------------------------------------------------------
// Characters, byte by byte
// ---------------------------------------------------------------------------

/// Whether the Latin-1 character of code `b` is alphanumeric
/// (`char::is_alphanumeric`).
pub open spec fn latin1_alnum(b: u8) -> bool {
    ||| (0x30 <= b <= 0x39) || (0x41 <= b <= 0x5A) || (0x61 <= b <= 0x7A)
    ||| b == 0xAA || b == 0xB2 || b == 0xB3 || b == 0xB5 || b == 0xB9 || b == 0xBA
    ||| (0xBC <= b <= 0xBE) || (0xC0 <= b <= 0xD6) || (0xD8 <= b <= 0xF6) || (0xF8 <= b)
}

fn latin1_alnum_exec(b: u8) -> (r: bool)
    ensures
        r == latin1_alnum(b),
{
    (0x30 <= b && b <= 0x39) || (0x41 <= b && b <= 0x5A) || (0x61 <= b && b <= 0x7A) || b == 0xAA
        || b == 0xB2 || b == 0xB3 || b == 0xB5 || b == 0xB9 || b == 0xBA || (0xBC <= b && b
        <= 0xBE) || (0xC0 <= b && b <= 0xD6) || (0xD8 <= b && b <= 0xF6) || (0xF8 <= b)
}

pub open spec fn is_ascii_char(c: char) -> bool {
    (c as u32) < 0x80
}

/// An ASCII character that continues a word.
pub open spec fn ascii_word(c: char) -> bool {
    ||| ('0' <= c <= '9') || ('a' <= c <= 'z') || ('A' <= c <= 'Z')
    ||| c == '_' || c == '.' || c == '-' || c == ':'
}

/// Every UTF-8 byte of `c` is alphanumeric as a Latin-1 character.
pub open spec fn all_bytes_alnum(c: char) -> bool {
    forall|j: int| 0 <= j < encode_scalar(c as u32).len() ==> latin1_alnum(#[trigger] encode_scalar(c as u32)[j])
}

/// A character that a word takes whole.
pub open spec fn wordish(c: char) -> bool {
    if is_ascii_char(c) {
        ascii_word(c)
    } else {
        all_bytes_alnum(c)
    }
}

/// A character whose first byte continues a word but a later byte does
/// not: the word would end inside it.
pub open spec fn breaks_word(c: char) -> bool {
    !is_ascii_char(c) && latin1_alnum(encode_scalar(c as u32)[0]) && !all_bytes_alnum(c)
}

/// The UTF-8 bytes of `c`.
fn char_bytes(c: char) -> (r: Vec<u8>)
    ensures
        r@ == encode_scalar(c as u32),
{
    proof {
        vstd::utf8::char_is_scalar(c);
    }
    let u = c as u32;
    let mut r: Vec<u8> = Vec::new();
    if u <= 0x7F {
        r.push((u & 0x7F) as u8);
    } else if u <= 0x7FF {
        r.push(0xC0 | ((u >> 6) & 0x1F) as u8);
        r.push(0x80 | (u & 0x3F) as u8);
    } else if u <= 0xFFFF {
        r.push(0xE0 | ((u >> 12) & 0x0F) as u8);
        r.push(0x80 | ((u >> 6) & 0x3F) as u8);
        r.push(0x80 | (u & 0x3F) as u8);
    } else {
        r.push(0xF0 | ((u >> 18) & 0x7) as u8);
        r.push(0x80 | ((u >> 12) & 0x3F) as u8);
        r.push(0x80 | ((u >> 6) & 0x3F) as u8);
        r.push(0x80 | (u & 0x3F) as u8);
    }
    assert(r@ =~= encode_scalar(c as u32));
    r
}

/// Classifies `c`: `(wordish, breaks_word)`.
fn classify(c: char) -> (r: (bool, bool))
    ensures
        r.0 == wordish(c),
        r.1 == breaks_word(c),
{
    if (c as u32) < 0x80 {
        (('0' <= c && c <= '9') || ('a' <= c && c <= 'z') || ('A' <= c && c <= 'Z') || c == '_' || c
            == '.' || c == '-' || c == ':', false)
    } else {
        let b = char_bytes(c);
        let mut all = true;
        let mut j: usize = 0;
        while j < b.len()
            invariant
                j <= b@.len(),
                b@ == encode_scalar(c as u32),
                all == forall|k: int| 0 <= k < j ==> latin1_alnum(#[trigger] b@[k]),
            decreases b@.len() - j,
        {
            let a = latin1_alnum_exec(b[j]);
            proof {
                if !a {
                    assert(!latin1_alnum(b@[j as int]));
                }
            }
            all = all && a;
            j += 1;
        }
        proof {
            vstd::utf8::char_is_scalar(c);
        }
        let first = latin1_alnum_exec(b[0]);
        (all, first && !all)
    }
}

// ---------------------------------------------------------------------------
// Tokens
// ---------------------------------------------------------------------------

/// A lexical token of the record filter.
#[derive(Debug, Clone)]
pub enum Tok {
    Ident(String),
    Num(String),
    Str(String),
    Op(CmpOp),
    And,
    Or,
    Not,
    LParen,
    RParen,
}

pub enum TokModel {
    Ident(Seq<char>),
    Num(Seq<char>),
    Str(Seq<char>),
    Op(CmpOp),
    And,
    Or,
    Not,
    LParen,
    RParen,
}

impl Tok {
    pub open spec fn model(&self) -> TokModel {
        match self {
            Tok::Ident(s) => TokModel::Ident(s@),
            Tok::Num(s) => TokModel::Num(s@),
            Tok::Str(s) => TokModel::Str(s@),
            Tok::Op(o) => TokModel::Op(*o),
            Tok::And => TokModel::And,
            Tok::Or => TokModel::Or,
            Tok::Not => TokModel::Not,
            Tok::LParen => TokModel::LParen,
            Tok::RParen => TokModel::RParen,
        }
    }
}

pub open spec fn tok_models(v: Seq<Tok>) -> Seq<TokModel> {
    v.map_values(|t: Tok| t.model())
}

/// What the tokenizer makes of an input.
pub enum Lexed {
    Tokens(Seq<TokModel>),
    Refused(Seq<char>),
    Panics,
}

pub open spec fn cons_lexed(t: TokModel, r: Lexed) -> Lexed {
    match r {
        Lexed::Tokens(ts) => Lexed::Tokens(seq![t] + ts),
        other => other,
    }
}

/// The first position at or after `j` holding `q`.
pub open spec fn find_from(s: Seq<char>, q: char, j: int) -> Option<int>
    decreases s.len() - j,
{
    if j < 0 || j >= s.len() {
        None
    } else if s[j] == q {
        Some(j)
    } else {
        find_from(s, q, j + 1)
    }
}

/// The end of the run of whole word characters starting at `j`.
pub open spec fn word_stop(s: Seq<char>, j: int) -> int
    decreases s.len() - j,
{
    if 0 <= j < s.len() && wordish(s[j]) {
        word_stop(s, j + 1)
    } else {
        j
    }
}

/// The token of a word: a keyword (any case), a number, else a column
/// name or bare value.
pub open spec fn word_tok(w: Seq<char>) -> TokModel {
    let l = ascii_lower(w);
    if l == "and"@ {
        TokModel::And
    } else if l == "or"@ {
        TokModel::Or
    } else if l == "not"@ {
        TokModel::Not
    } else if float_text_syntax(w) {
        TokModel::Num(w)
    } else {
        TokModel::Ident(w)
    }
}

/// Tokens of `s` from character position `i` on.
pub open spec fn lex_from(s: Seq<char>, i: int) -> Lexed
    decreases s.len() - i,
{
    if i < 0 || i >= s.len() {
        Lexed::Tokens(seq![])
    } else {
        let c = s[i];
        let has_next = i + 1 < s.len();
        if is_ascii_char(c) && is_ws(c) {
            lex_from(s, i + 1)
        } else if c == '(' {
            cons_lexed(TokModel::LParen, lex_from(s, i + 1))
        } else if c == ')' {
            cons_lexed(TokModel::RParen, lex_from(s, i + 1))
        } else if c == '"' || c == '\'' {
            match find_from(s, c, i + 1) {
                None => Lexed::Refused("unterminated string literal in filter: "@ + str_debug(s)),
                Some(j) => if i < j < s.len() {
                    cons_lexed(TokModel::Str(s.subrange(i + 1, j)), lex_from(s, j + 1))
                } else {
                    Lexed::Tokens(seq![])
                },
            }
        } else if c == '>' || c == '<' || c == '=' || c == '!' {
            if has_next && !is_ascii_char(s[i + 1]) {
                Lexed::Panics
            } else if has_next && s[i + 1] == '=' {
                let op = if c == '>' {
                    CmpOp::Gte
                } else if c == '<' {
                    CmpOp::Lte
                } else if c == '=' {
                    CmpOp::Eq
                } else {
                    CmpOp::Neq
                };
                cons_lexed(TokModel::Op(op), lex_from(s, i + 2))
            } else if c == '!' {
                Lexed::Refused("unexpected '!' in filter: "@ + str_debug(s))
            } else {
                let op = if c == '>' {
                    CmpOp::Gt
                } else if c == '<' {
                    CmpOp::Lt
                } else {
                    CmpOp::Eq
                };
                cons_lexed(TokModel::Op(op), lex_from(s, i + 1))
            }
        } else if breaks_word(c) {
            Lexed::Panics
        } else if !wordish(c) {
            Lexed::Refused(
                "unexpected character "@ + char_debug(lead_char(c)) + " in filter: "@ + str_debug(s),
            )
        } else {
            let e = word_stop(s, i);
            if !(i < e <= s.len()) {
                Lexed::Tokens(seq![])
            } else if e < s.len() && breaks_word(s[e]) {
                Lexed::Panics
            } else {
                cons_lexed(word_tok(s.subrange(i, e)), lex_from(s, e))
            }
        }
    }
}

/// What the tokenizer makes of a filter expression.
pub open spec fn lex_spec(s: Seq<char>) -> Lexed {
    lex_from(s, 0)
}

proof fn lemma_find_from(s: Seq<char>, q: char, j: int)
    requires
        0 <= j,
    ensures
        find_from(s, q, j) matches Some(k) ==> j <= k < s.len(),
    decreases s.len() - j,
{
    if 0 <= j < s.len() && s[j] != q {
        lemma_find_from(s, q, j + 1);
    }
}

proof fn lemma_word_stop(s: Seq<char>, j: int)
    requires
        0 <= j <= s.len(),
    ensures
        j <= word_stop(s, j) <= s.len(),
    decreases s.len() - j,
{
    if j < s.len() && wordish(s[j]) {
        lemma_word_stop(s, j + 1);
    }
}

pub open spec fn append_lexed(acc: Seq<TokModel>, r: Lexed) -> Lexed {
    match r {
        Lexed::Tokens(ts) => Lexed::Tokens(acc + ts),
        other => other,
    }
}

proof fn lemma_append_cons(acc: Seq<TokModel>, t: TokModel, r: Lexed)
    ensures
        append_lexed(acc, cons_lexed(t, r)) == append_lexed(acc.push(t), r),
{
    if let Lexed::Tokens(ts) = r {
        assert(acc + (seq![t] + ts) =~= acc.push(t) + ts);
    }
}

fn word_tok_exec(w: &Vec<char>) -> (t: Tok)
    ensures
        t.model() == word_tok(w@),
{
    let l = ascii_lower_chars(w);
    let and = ['a', 'n', 'd'];
    let or = ['o', 'r'];
    let not = ['n', 'o', 't'];
    proof {
        reveal_strlit("and");
        reveal_strlit("or");
        reveal_strlit("not");
    }
    assert(and@ =~= "and"@);
    assert(or@ =~= "or"@);
    assert(not@ =~= "not"@);
    if chars_eq(&l, &and) {
        Tok::And
    } else if chars_eq(&l, &or) {
        Tok::Or
    } else if chars_eq(&l, &not) {
        Tok::Not
    } else if is_float_text(w) {
        Tok::Num(string_of(w))
    } else {
        Tok::Ident(string_of(w))
    }
}

/// The tokenizer's outcome, executable.
enum LexOutcome {
    Tokens(Vec<Tok>),
    Refused(String),
    Panics,
}

fn lex(input: &str) -> (r: LexOutcome)
    ensures
        match r {
            LexOutcome::Tokens(v) => lex_spec(input@) == Lexed::Tokens(tok_models(v@)),
            LexOutcome::Refused(e) => lex_spec(input@) == Lexed::Refused(e@),
            LexOutcome::Panics => lex_spec(input@) == Lexed::Panics,
        },
{
    let s = chars_of(input);
    let ghost sv = s@;
    let n = s.len();
    let mut toks: Vec<Tok> = Vec::new();
    let mut i: usize = 0;
    while i < n
        invariant
            sv == s@,
            sv == input@,
            n == sv.len(),
            i <= n,
            lex_spec(sv) == append_lexed(tok_models(toks@), lex_from(sv, i as int)),
        decreases n - i,
    {
        let c = s[i];
        let ghost before = tok_models(toks@);
        if (c as u32) < 0x80 && is_ws_char(c) {
            i += 1;
        } else if c == '(' || c == ')' {
            let t = if c == '(' { Tok::LParen } else { Tok::RParen };
            proof { lemma_append_cons(before, t.model(), lex_from(sv, i + 1)); }
            toks.push(t);
            assert(tok_models(toks@) =~= before.push(t.model()));
            i += 1;
        } else if c == '"' || c == '\'' {
            let mut j: usize = i + 1;
            while j < n && s[j] != c
                invariant
                    sv == s@,
                    n == sv.len(),
                    i < n,
                    i + 1 <= j <= n,
                    find_from(sv, c, (i + 1) as int) == find_from(sv, c, j as int),
                decreases n - j,
            {
                j += 1;
            }
            if j >= n {
                let mut m = lit("unterminated string literal in filter: ");
                let d = debug_str(input);
                push_str(&mut m, d.as_str());
                return LexOutcome::Refused(m);
            }
            proof { lemma_find_from(sv, c, j as int); }
            let body = slice_chars(&s, i + 1, j);
            let t = Tok::Str(string_of(&body));
            proof { lemma_append_cons(before, t.model(), lex_from(sv, j + 1)); }
            toks.push(t);
            assert(tok_models(toks@) =~= before.push(t.model()));
            i = j + 1;
        } else if c == '>' || c == '<' || c == '=' || c == '!' {
            let has_next = i + 1 < n;
            if has_next && (s[i + 1] as u32) >= 0x80 {
                return LexOutcome::Panics;
            }
            if has_next && s[i + 1] == '=' {
                let op = if c == '>' {
                    CmpOp::Gte
                } else if c == '<' {
                    CmpOp::Lte
                } else if c == '=' {
                    CmpOp::Eq
                } else {
                    CmpOp::Neq
                };
                proof { lemma_append_cons(before, TokModel::Op(op), lex_from(sv, i + 2)); }
                toks.push(Tok::Op(op));
                assert(tok_models(toks@) =~= before.push(TokModel::Op(op)));
                i += 2;
            } else if c == '!' {
                let mut m = lit("unexpected '!' in filter: ");
                let d = debug_str(input);
                push_str(&mut m, d.as_str());
                return LexOutcome::Refused(m);
            } else {
                let op = if c == '>' {
                    CmpOp::Gt
                } else if c == '<' {
                    CmpOp::Lt
                } else {
                    CmpOp::Eq
                };
                proof { lemma_append_cons(before, TokModel::Op(op), lex_from(sv, i + 1)); }
                toks.push(Tok::Op(op));
                assert(tok_models(toks@) =~= before.push(TokModel::Op(op)));
                i += 1;
            }
        } else {
            let (w0, b0) = classify(c);
            if b0 {
                return LexOutcome::Panics;
            }
            if !w0 {
                let lb = lead_byte(c);
                proof {
                    vstd::utf8::char_is_scalar(c);
                    assert(lb as char == lead_char(c));
                }
                let shown = debug_char(lb as char);
                let mut m = lit("unexpected character ");
                push_str(&mut m, shown.as_str());
                push_str(&mut m, " in filter: ");
                let d = debug_str(input);
                push_str(&mut m, d.as_str());
                return LexOutcome::Refused(m);
            }
            let mut e: usize = i;
            let mut stop_breaks = false;
            while e < n
                invariant_except_break
                    !stop_breaks,
                invariant
                    sv == s@,
                    n == sv.len(),
                    i <= e <= n,
                    word_stop(sv, i as int) == word_stop(sv, e as int),
                ensures
                    word_stop(sv, i as int) == e as int,
                    stop_breaks == (e < n && breaks_word(sv[e as int])),
                decreases n - e,
            {
                let (w, b) = classify(s[e]);
                if !w {
                    stop_breaks = b;
                    break;
                }
                e += 1;
            }
            proof {
                lemma_word_stop(sv, i + 1);
                assert(word_stop(sv, i as int) == word_stop(sv, i + 1));
            }
            if stop_breaks {
                return LexOutcome::Panics;
            }
            let w = slice_chars(&s, i, e);
            let t = word_tok_exec(&w);
            proof { lemma_append_cons(before, t.model(), lex_from(sv, e as int)); }
            toks.push(t);
            assert(tok_models(toks@) =~= before.push(t.model()));
            i = e;
        }
    }
    assert(tok_models(toks@) + Seq::<TokModel>::empty() =~= tok_models(toks@));
    LexOutcome::Tokens(toks)
}

/// Every character is ASCII.
pub open spec fn all_ascii(s: Seq<char>) -> bool {
    forall|i: int| 0 <= i < s.len() ==> is_ascii_char(#[trigger] s[i])
}

proof fn lemma_ascii_lex_from(s: Seq<char>, i: int)
    requires
        all_ascii(s),
        0 <= i,
    ensures
        !(lex_from(s, i) is Panics),
    decreases s.len() - i,
{
    if i < s.len() {
        let c = s[i];
        assert(is_ascii_char(c));
        if i + 1 < s.len() {
            assert(is_ascii_char(s[i + 1]));
        }
        if is_ascii_char(c) && is_ws(c) {
            lemma_ascii_lex_from(s, i + 1);
        } else if c == '(' || c == ')' {
            lemma_ascii_lex_from(s, i + 1);
        } else if c == '"' || c == '\'' {
            if let Some(j) = find_from(s, c, i + 1) {
                if i < j < s.len() {
                    lemma_ascii_lex_from(s, j + 1);
                }
            }
        } else if c == '>' || c == '<' || c == '=' || c == '!' {
            lemma_ascii_lex_from(s, i + 1);
            if i + 2 <= s.len() {
                lemma_ascii_lex_from(s, i + 2);
            }
        } else if wordish(c) {
            let e = word_stop(s, i);
            lemma_word_stop(s, i + 1);
            assert(e == word_stop(s, i + 1));
            if e < s.len() {
                assert(is_ascii_char(s[e]));
            }
            if i < e <= s.len() {
                lemma_ascii_lex_from(s, e);
            }
        }
    }
}

/// A filter written in ASCII alone is never cut inside a character: its
/// tokenizing never panics.
pub proof fn law_ascii_filters_never_panic(s: Seq<char>)
    requires
        all_ascii(s),
    ensures
        !(lex_spec(s) is Panics),
{
    lemma_ascii_lex_from(s, 0);
}

// ---------------------------------------------------------------------------
// Filter trees
// ---------------------------------------------------------------------------

/// The right side of a comparison: a number (its source text) or text.
#[derive(Debug, Clone)]
pub enum FilterVal {
    Num(String),
    Text(String),
}

/// A parsed record filter.
#[derive(Debug)]
pub enum Filter {
    And(Box<Filter>, Box<Filter>),
    Or(Box<Filter>, Box<Filter>),
    Not(Box<Filter>),
    Cmp(String, CmpOp, FilterVal),
}

pub enum ValModel {
    Num(Seq<char>),
    Text(Seq<char>),
}

pub enum RecordFilterModel {
    And(Box<RecordFilterModel>, Box<RecordFilterModel>),
    Or(Box<RecordFilterModel>, Box<RecordFilterModel>),
    Not(Box<RecordFilterModel>),
    Cmp(Seq<char>, CmpOp, ValModel),
}

impl FilterVal {
    pub open spec fn model(&self) -> ValModel {
        match self {
            FilterVal::Num(s) => ValModel::Num(s@),
            FilterVal::Text(s) => ValModel::Text(s@),
        }
    }
}

pub open spec fn record_filter_model(f: Filter) -> RecordFilterModel
    decreases f,
{
    match f {
        Filter::And(a, b) => RecordFilterModel::And(
            Box::new(record_filter_model(*a)),
            Box::new(record_filter_model(*b)),
        ),
        Filter::Or(a, b) => RecordFilterModel::Or(
            Box::new(record_filter_model(*a)),
            Box::new(record_filter_model(*b)),
        ),
        Filter::Not(a) => RecordFilterModel::Not(Box::new(record_filter_model(*a))),
        Filter::Cmp(c, o, v) => RecordFilterModel::Cmp(c@, o, v.model()),
    }
}

/// An error of the record filter. Where the message ends in the `Debug`
/// form of a number token found, the number's text is kept apart: the
/// message is then the first text followed by `Some(Num(`, the value's
/// `Debug` form and `))`, which the caller renders.
#[derive(Debug)]
pub enum RecordFilterError {
    Message(String),
    AtNumber(String, String),
}

pub enum RecordErrorModel {
    Message(Seq<char>),
    AtNumber(Seq<char>, Seq<char>),
}

impl RecordFilterError {
    pub open spec fn model(&self) -> RecordErrorModel {
        match self {
            RecordFilterError::Message(m) => RecordErrorModel::Message(m@),
            RecordFilterError::AtNumber(p, n) => RecordErrorModel::AtNumber(p@, n@),
        }
    }
}

/// The `Debug` form of a token other than a number.
pub open spec fn tok_debug(t: TokModel) -> Seq<char> {
    match t {
        TokModel::Ident(s) => "Ident("@ + str_debug(s) + ")"@,
        TokModel::Num(_) => seq![],
        TokModel::Str(s) => "Str("@ + str_debug(s) + ")"@,
        TokModel::Op(o) => "Op("@ + op_name(o) + ")"@,
        TokModel::And => "And"@,
        TokModel::Or => "Or"@,
        TokModel::Not => "Not"@,
        TokModel::LParen => "LParen"@,
        TokModel::RParen => "RParen"@,
    }
}

/// `prefix` followed by the `Debug` form of what was found (an
/// `Option` of a token).
pub open spec fn found_error(prefix: Seq<char>, t: Option<TokModel>) -> RecordErrorModel {
    match t {
        None => RecordErrorModel::Message(prefix + "None"@),
        Some(TokModel::Num(n)) => RecordErrorModel::AtNumber(prefix, n),
        Some(x) => RecordErrorModel::Message(prefix + "Some("@ + tok_debug(x) + ")"@),
    }
}

pub open spec fn tok_at(t: Seq<TokModel>, pos: int) -> Option<TokModel> {
    if 0 <= pos < t.len() {
        Some(t[pos])
    } else {
        None
    }
}

// ---------------------------------------------------------------------------
// Parser model
// ---------------------------------------------------------------------------

pub open spec fn s_or(t: Seq<TokModel>, pos: int) -> Result<(RecordFilterModel, int), RecordErrorModel>
    decreases t.len() - pos, 5int,
{
    match s_and(t, pos) {
        Err(e) => Err(e),
        Ok((l, p1)) => if pos <= p1 <= t.len() {
            s_or_rest(t, l, p1)
        } else {
            Ok((l, p1))
        },
    }
}

pub open spec fn s_or_rest(t: Seq<TokModel>, left: RecordFilterModel, pos: int) -> Result<
    (RecordFilterModel, int),
    RecordErrorModel,
>
    decreases t.len() - pos, 4int,
{
    if 0 <= pos < t.len() && t[pos] is Or {
        match s_and(t, pos + 1) {
            Err(e) => Err(e),
            Ok((r, p2)) => {
                let l2 = RecordFilterModel::Or(Box::new(left), Box::new(r));
                if pos < p2 <= t.len() {
                    s_or_rest(t, l2, p2)
                } else {
                    Ok((l2, p2))
                }
            },
        }
    } else {
        Ok((left, pos))
    }
}

pub open spec fn s_and(t: Seq<TokModel>, pos: int) -> Result<(RecordFilterModel, int), RecordErrorModel>
    decreases t.len() - pos, 3int,
{
    match s_unary(t, pos) {
        Err(e) => Err(e),
        Ok((l, p1)) => if pos <= p1 <= t.len() {
            s_and_rest(t, l, p1)
        } else {
            Ok((l, p1))
        },
    }
}

pub open spec fn s_and_rest(t: Seq<TokModel>, left: RecordFilterModel, pos: int) -> Result<
    (RecordFilterModel, int),
    RecordErrorModel,
>
    decreases t.len() - pos, 2int,
{
    if 0 <= pos < t.len() && t[pos] is And {
        match s_unary(t, pos + 1) {
            Err(e) => Err(e),
            Ok((r, p2)) => {
                let l2 = RecordFilterModel::And(Box::new(left), Box::new(r));
                if pos < p2 <= t.len() {
                    s_and_rest(t, l2, p2)
                } else {
                    Ok((l2, p2))
                }
            },
        }
    } else {
        Ok((left, pos))
    }
}

pub open spec fn s_unary(t: Seq<TokModel>, pos: int) -> Result<(RecordFilterModel, int), RecordErrorModel>
    decreases t.len() - pos, 1int,
{
    if 0 <= pos < t.len() && t[pos] is Not {
        match s_unary(t, pos + 1) {
            Err(e) => Err(e),
            Ok((f, p)) => Ok((RecordFilterModel::Not(Box::new(f)), p)),
        }
    } else if 0 <= pos < t.len() && t[pos] is LParen {
        match s_or(t, pos + 1) {
            Err(e) => Err(e),
            Ok((inner, p)) => match tok_at(t, p) {
                Some(TokModel::RParen) => Ok((inner, p + 1)),
                _ => Err(RecordErrorModel::Message("expected ')' in filter"@)),
            },
        }
    } else {
        s_compare(t, pos)
    }
}

pub open spec fn s_compare(t: Seq<TokModel>, pos: int) -> Result<(RecordFilterModel, int), RecordErrorModel>
    decreases t.len() - pos, 0int,
{
    match tok_at(t, pos) {
        Some(TokModel::Ident(col)) => match tok_at(t, pos + 1) {
            Some(TokModel::Op(o)) => match tok_at(t, pos + 2) {
                Some(TokModel::Num(n)) => Ok((RecordFilterModel::Cmp(col, o, ValModel::Num(n)), pos + 3)),
                Some(TokModel::Str(x)) => Ok((RecordFilterModel::Cmp(col, o, ValModel::Text(x)), pos + 3)),
                Some(TokModel::Ident(x)) => Ok((RecordFilterModel::Cmp(col, o, ValModel::Text(x)), pos + 3)),
                other => Err(found_error("expected a value in filter, got "@, other)),
            },
            other => Err(found_error("expected a comparison operator in filter, got "@, other)),
        },
        other => Err(found_error("expected a column name in filter, got "@, other)),
    }
}

/// The filter `s` spells (for inputs on which the tokenizer does not
/// panic).
pub open spec fn record_filter_spec(s: Seq<char>) -> Result<RecordFilterModel, RecordErrorModel> {
    match lex_spec(s) {
        Lexed::Panics => Err(RecordErrorModel::Message(seq![])),
        Lexed::Refused(e) => Err(RecordErrorModel::Message(e)),
        Lexed::Tokens(t) => if t.len() == 0 {
            Err(RecordErrorModel::Message("empty filter expression"@))
        } else {
            match s_or(t, 0) {
                Err(e) => Err(e),
                Ok((f, p)) => if p != t.len() {
                    Err(RecordErrorModel::Message("trailing tokens in filter: "@ + str_debug(s)))
                } else {
                    Ok(f)
                },
            }
        },
    }
}

// ---------------------------------------------------------------------------
// Parser
// ---------------------------------------------------------------------------

fn op_text(op: CmpOp) -> (r: String)
    ensures
        r@ == op_name(op),
{
    match op {
        CmpOp::Eq => lit("Eq"),
        CmpOp::Neq => lit("Neq"),
        CmpOp::Gt => lit("Gt"),
        CmpOp::Lt => lit("Lt"),
        CmpOp::Gte => lit("Gte"),
        CmpOp::Lte => lit("Lte"),
    }
}

fn enclosed(open: &str, inner: &str) -> (r: String)
    ensures
        r@ == open@ + inner@ + ")"@,
{
    let mut m = lit(open);
    push_str(&mut m, inner);
    push_str(&mut m, ")");
    m
}

fn tok_debug_exec(t: &Tok) -> (r: String)
    ensures
        r@ == tok_debug(t.model()),
{
    match t {
        Tok::Ident(s) => {
            let d = debug_str(s.as_str());
            enclosed("Ident(", d.as_str())
        },
        Tok::Num(_) => String::new(),
        Tok::Str(s) => {
            let d = debug_str(s.as_str());
            enclosed("Str(", d.as_str())
        },
        Tok::Op(o) => {
            let d = op_text(*o);
            enclosed("Op(", d.as_str())
        },
        Tok::And => lit("And"),
        Tok::Or => lit("Or"),
        Tok::Not => lit("Not"),
        Tok::LParen => lit("LParen"),
        Tok::RParen => lit("RParen"),
    }
}

struct RecordParser<'a> {
    toks: &'a Vec<Tok>,
}

impl<'a> RecordParser<'a> {
    spec fn t(&self) -> Seq<TokModel> {
        tok_models(self.toks@)
    }

    fn found(&self, prefix: String, i: usize) -> (e: RecordFilterError)
        ensures
            e.model() == found_error(prefix@, tok_at(self.t(), i as int)),
    {
        if i >= self.toks.len() {
            let mut m = prefix;
            push_str(&mut m, "None");
            return RecordFilterError::Message(m);
        }
        match &self.toks[i] {
            Tok::Num(n) => RecordFilterError::AtNumber(prefix, n.clone()),
            other => {
                let mut m = prefix;
                push_str(&mut m, "Some(");
                let shown = tok_debug_exec(other);
                push_str(&mut m, shown.as_str());
                push_str(&mut m, ")");
                RecordFilterError::Message(m)
            },
        }
    }

    fn parse_or(&self, pos: usize) -> (r: Result<(Filter, usize), RecordFilterError>)
        requires
            pos <= self.toks@.len(),
        ensures
            match (r, s_or(self.t(), pos as int)) {
                (Ok((f, p)), Ok((fm, pm))) => record_filter_model(f) == fm && p == pm && pos <= p
                    <= self.toks@.len(),
                (Err(e), Err(em)) => e.model() == em,
                _ => false,
            },
        decreases self.toks@.len() - pos, 5int,
    {
        match self.parse_and(pos) {
            Err(e) => Err(e),
            Ok((l, p1)) => self.or_rest(l, p1),
        }
    }

    fn or_rest(&self, left: Filter, pos: usize) -> (r: Result<(Filter, usize), RecordFilterError>)
        requires
            pos <= self.toks@.len(),
        ensures
            match (r, s_or_rest(self.t(), record_filter_model(left), pos as int)) {
                (Ok((f, p)), Ok((fm, pm))) => record_filter_model(f) == fm && p == pm && pos <= p
                    <= self.toks@.len(),
                (Err(e), Err(em)) => e.model() == em,
                _ => false,
            },
        decreases self.toks@.len() - pos, 4int,
    {
        if pos < self.toks.len() && matches!(self.toks[pos], Tok::Or) {
            assert(self.t()[pos as int] is Or);
            match self.parse_and(pos + 1) {
                Err(e) => Err(e),
                Ok((r, p2)) => {
                    let l2 = Filter::Or(Box::new(left), Box::new(r));
                    self.or_rest(l2, p2)
                },
            }
        } else {
            proof {
                if pos < self.toks@.len() {
                    assert(!(self.t()[pos as int] is Or));
                }
            }
            Ok((left, pos))
        }
    }

    fn parse_and(&self, pos: usize) -> (r: Result<(Filter, usize), RecordFilterError>)
        requires
            pos <= self.toks@.len(),
        ensures
            match (r, s_and(self.t(), pos as int)) {
                (Ok((f, p)), Ok((fm, pm))) => record_filter_model(f) == fm && p == pm && pos <= p
                    <= self.toks@.len(),
                (Err(e), Err(em)) => e.model() == em,
                _ => false,
            },
        decreases self.toks@.len() - pos, 3int,
    {
        match self.parse_unary(pos) {
            Err(e) => Err(e),
            Ok((l, p1)) => self.and_rest(l, p1),
        }
    }

    fn and_rest(&self, left: Filter, pos: usize) -> (r: Result<(Filter, usize), RecordFilterError>)
        requires
            pos <= self.toks@.len(),
        ensures
            match (r, s_and_rest(self.t(), record_filter_model(left), pos as int)) {
                (Ok((f, p)), Ok((fm, pm))) => record_filter_model(f) == fm && p == pm && pos <= p
                    <= self.toks@.len(),
                (Err(e), Err(em)) => e.model() == em,
                _ => false,
            },
        decreases self.toks@.len() - pos, 2int,
    {
        if pos < self.toks.len() && matches!(self.toks[pos], Tok::And) {
            assert(self.t()[pos as int] is And);
            match self.parse_unary(pos + 1) {
                Err(e) => Err(e),
                Ok((r, p2)) => {
                    let l2 = Filter::And(Box::new(left), Box::new(r));
                    self.and_rest(l2, p2)
                },
            }
        } else {
            proof {
                if pos < self.toks@.len() {
                    assert(!(self.t()[pos as int] is And));
                }
            }
            Ok((left, pos))
        }
    }

    fn parse_unary(&self, pos: usize) -> (r: Result<(Filter, usize), RecordFilterError>)
        requires
            pos <= self.toks@.len(),
        ensures
            match (r, s_unary(self.t(), pos as int)) {
                (Ok((f, p)), Ok((fm, pm))) => record_filter_model(f) == fm && p == pm && pos < p
                    <= self.toks@.len(),
                (Err(e), Err(em)) => e.model() == em,
                _ => false,
            },
        decreases self.toks@.len() - pos, 1int,
    {
        let n = self.toks.len();
        if pos < n && matches!(self.toks[pos], Tok::Not) {
            assert(self.t()[pos as int] is Not);
            match self.parse_unary(pos + 1) {
                Err(e) => Err(e),
                Ok((f, p)) => Ok((Filter::Not(Box::new(f)), p)),
            }
        } else if pos < n && matches!(self.toks[pos], Tok::LParen) {
            assert(self.t()[pos as int] is LParen);
            assert(!(self.t()[pos as int] is Not));
            match self.parse_or(pos + 1) {
                Err(e) => Err(e),
                Ok((inner, p)) => {
                    if p < n && matches!(self.toks[p], Tok::RParen) {
                        assert(self.t()[p as int] is RParen);
                        Ok((inner, p + 1))
                    } else {
                        proof {
                            if p < n {
                                assert(!(self.t()[p as int] is RParen));
                            }
                        }
                        Err(RecordFilterError::Message(lit("expected ')' in filter")))
                    }
                },
            }
        } else {
            proof {
                if pos < n {
                    assert(!(self.t()[pos as int] is Not));
                    assert(!(self.t()[pos as int] is LParen));
                }
            }
            self.parse_compare(pos)
        }
    }

    fn parse_compare(&self, pos: usize) -> (r: Result<(Filter, usize), RecordFilterError>)
        requires
            pos <= self.toks@.len(),
        ensures
            match (r, s_compare(self.t(), pos as int)) {
                (Ok((f, p)), Ok((fm, pm))) => record_filter_model(f) == fm && p == pm && pos < p
                    <= self.toks@.len(),
                (Err(e), Err(em)) => e.model() == em,
                _ => false,
            },
        decreases self.toks@.len() - pos, 0int,
    {
        let n = self.toks.len();
        let col = if pos < n {
            match &self.toks[pos] {
                Tok::Ident(c) => c.clone(),
                _ => {
                    return Err(self.found(lit("expected a column name in filter, got "), pos));
                },
            }
        } else {
            return Err(self.found(lit("expected a column name in filter, got "), pos));
        };
        let op = if pos + 1 < n {
            match &self.toks[pos + 1] {
                Tok::Op(o) => *o,
                _ => {
                    return Err(
                        self.found(lit("expected a comparison operator in filter, got "), pos + 1),
                    );
                },
            }
        } else {
            return Err(self.found(lit("expected a comparison operator in filter, got "), pos + 1));
        };
        let val = if pos + 2 < n {
            match &self.toks[pos + 2] {
                Tok::Num(v) => FilterVal::Num(v.clone()),
                Tok::Str(v) => FilterVal::Text(v.clone()),
                Tok::Ident(v) => FilterVal::Text(v.clone()),
                _ => {
                    return Err(self.found(lit("expected a value in filter, got "), pos + 2));
                },
            }
        } else {
            return Err(self.found(lit("expected a value in filter, got "), pos + 2));
        };
        Ok((Filter::Cmp(col, op, val), pos + 3))
    }
}

/// Whether tokenizing `input` would cut it inside a character, where
/// slicing panics.
pub fn filter_input_panics(input: &str) -> (r: bool)
    ensures
        r == (lex_spec(input@) is Panics),
{
    match lex(input) {
        LexOutcome::Panics => true,
        _ => false,
    }
}

/// Parse a record filter expression.
pub fn parse_filter(input: &str) -> (r: Result<Filter, RecordFilterError>)
    requires
        !(lex_spec(input@) is Panics),
    ensures
        match r {
            Ok(f) => record_filter_spec(input@) == Ok::<RecordFilterModel, RecordErrorModel>(
                record_filter_model(f),
            ),
            Err(e) => record_filter_spec(input@) == Err::<RecordFilterModel, RecordErrorModel>(
                e.model(),
            ),
        },
{
    let toks = match lex(input) {
        LexOutcome::Tokens(t) => t,
        LexOutcome::Refused(e) => {
            return Err(RecordFilterError::Message(e));
        },
        LexOutcome::Panics => {
            return Err(RecordFilterError::Message(String::new()));
        },
    };
    if toks.len() == 0 {
        return Err(RecordFilterError::Message(lit("empty filter expression")));
    }
    let p = RecordParser { toks: &toks };
    let (f, pos) = match p.parse_or(0) {
        Ok(x) => x,
        Err(e) => {
            return Err(e);
        },
    };
    if pos != toks.len() {
        let mut m = lit("trailing tokens in filter: ");
        let d = debug_str(input);
        push_str(&mut m, d.as_str());
        return Err(RecordFilterError::Message(m));
    }
    Ok(f)
}

/// Each comparison spelling reads as its own operator wherever it stands
/// in a `--filter` expression (followed by an ASCII character or by
/// nothing): `<` alone is less-than, `<=` at-most, `>` alone
/// greater-than, `>=` at-least, `==` and a lone `=` equality, and `!=`
/// inequality, the operator being the token read at that position; a
/// lone `!` is refused, and `(` / `)` open and close a group.
pub proof fn law_operator_spellings(s: Seq<char>, i: int)
    requires
        0 <= i < s.len(),
        i + 1 < s.len() ==> is_ascii_char(s[i + 1]),
    ensures
        ({
            let eq_next = i + 1 < s.len() && s[i + 1] == '=';
            let first_is = |op: CmpOp|
                lex_from(s, i) matches Lexed::Tokens(ts) ==> ts.len() > 0 && ts[0] == TokModel::Op(op);
            &&& (s[i] == '<' && !eq_next ==> first_is(CmpOp::Lt))
            &&& (s[i] == '<' && eq_next ==> first_is(CmpOp::Lte))
            &&& (s[i] == '>' && !eq_next ==> first_is(CmpOp::Gt))
            &&& (s[i] == '>' && eq_next ==> first_is(CmpOp::Gte))
            &&& (s[i] == '=' ==> first_is(CmpOp::Eq))
            &&& (s[i] == '!' && eq_next ==> first_is(CmpOp::Neq))
            &&& (s[i] == '!' && !eq_next ==> lex_from(s, i) is Refused)
            &&& (s[i] == '(' ==> (lex_from(s, i) matches Lexed::Tokens(ts) ==> ts.len() > 0 && ts[0]
                == TokModel::LParen))
            &&& (s[i] == ')' ==> (lex_from(s, i) matches Lexed::Tokens(ts) ==> ts.len() > 0 && ts[0]
                == TokModel::RParen))
        }),
{
}

} // verus!
