//! The `--where` / `--holdout` filter grammar over cube cells:
//!
//! ```text
//! or      := and ( OR and )*
//! and     := not ( AND not )*
//! not     := NOT not | compare
//! compare := '(' or ')' | IDENT OP value
//! value   := NUMBER | STRING | IDENT
//! ```
//!
//! A name is a dimension when it is one of the cube's dimension names,
//! else a measure. Numbers keep their source text.
use crate::mcp::{byte_pos, lead_byte, lead_char, lemma_byte_pos_mono, lemma_byte_pos_step, utf8_width};
use crate::simulate::CmpOp;
use crate::text::{
    char_debug, chars_eq, chars_of, debug_char, debug_str, float_text_syntax, is_digit, is_float_text,
    lit, nat_decimal, push_str, slice_chars, str_debug, str_eq, string_of, usize_to_string,
};
use vstd::prelude::*;
use vstd::utf8::{encode_utf8};

verus! {

// ---------------------------------------------------------------------------
// Tokens
// ---------------------------------------------------------------------------

/// A lexical token of the filter grammar.
#[derive(Debug, Clone)]
pub enum Token {
    Ident(String),
    Number(String),
    StringLit(String),
    Op(CmpOp),
    And,
    Or,
    Not,
    LParen,
    RParen,
}

/// The mathematical value of a [`Token`].
pub enum TokenModel {
    Ident(Seq<char>),
    Number(Seq<char>),
    StringLit(Seq<char>),
    Op(CmpOp),
    And,
    Or,
    Not,
    LParen,
    RParen,
}

impl Token {
    pub open spec fn model(&self) -> TokenModel {
        match self {
            Token::Ident(s) => TokenModel::Ident(s@),
            Token::Number(s) => TokenModel::Number(s@),
            Token::StringLit(s) => TokenModel::StringLit(s@),
            Token::Op(o) => TokenModel::Op(*o),
            Token::And => TokenModel::And,
            Token::Or => TokenModel::Or,
            Token::Not => TokenModel::Not,
            Token::LParen => TokenModel::LParen,
            Token::RParen => TokenModel::RParen,
        }
    }
}

pub open spec fn token_models(v: Seq<Token>) -> Seq<TokenModel> {
    v.map_values(|t: Token| t.model())
}

/// The name of an operator (its `Debug` form).
pub open spec fn op_name(op: CmpOp) -> Seq<char> {
    match op {
        CmpOp::Eq => "Eq"@,
        CmpOp::Neq => "Neq"@,
        CmpOp::Gt => "Gt"@,
        CmpOp::Lt => "Lt"@,
        CmpOp::Gte => "Gte"@,
        CmpOp::Lte => "Lte"@,
    }
}

/// The `Debug` form of a token other than a number, as error messages
/// show it.
pub open spec fn token_debug(t: TokenModel) -> Seq<char> {
    match t {
        TokenModel::Ident(s) => "Ident("@ + str_debug(s) + ")"@,
        TokenModel::Number(s) => seq![],
        TokenModel::StringLit(s) => "StringLit("@ + str_debug(s) + ")"@,
        TokenModel::Op(o) => "Op("@ + op_name(o) + ")"@,
        TokenModel::And => "And"@,
        TokenModel::Or => "Or"@,
        TokenModel::Not => "Not"@,
        TokenModel::LParen => "LParen"@,
        TokenModel::RParen => "RParen"@,
    }
}

// ---------------------------------------------------------------------------
// Tokenizer model
// ---------------------------------------------------------------------------

pub open spec fn is_blank(c: char) -> bool {
    c == ' ' || c == '\t' || c == '\n' || c == '\r'
}

pub open spec fn is_alpha(c: char) -> bool {
    ('a' <= c <= 'z') || ('A' <= c <= 'Z')
}

pub open spec fn is_word_char(c: char) -> bool {
    is_alpha(c) || is_digit(c) || c == '_'
}

/// Where the quoted literal whose body starts at `j` ends: the first
/// unescaped `q` (a backslash hides the character after it).
pub open spec fn quote_end(s: Seq<char>, q: char, j: int) -> Option<int>
    decreases s.len() + 1 - j,
{
    if j < 0 || j >= s.len() {
        None
    } else if s[j] == q {
        Some(j)
    } else if s[j] == '\\' {
        quote_end(s, q, j + 2)
    } else {
        quote_end(s, q, j + 1)
    }
}

/// The end of the run of digits and dots starting at `j`.
pub open spec fn number_end(s: Seq<char>, j: int) -> int
    decreases s.len() - j,
{
    if 0 <= j < s.len() && (is_digit(s[j]) || s[j] == '.') {
        number_end(s, j + 1)
    } else {
        j
    }
}

/// The end of the run of word characters starting at `j`.
pub open spec fn word_end(s: Seq<char>, j: int) -> int
    decreases s.len() - j,
{
    if 0 <= j < s.len() && is_word_char(s[j]) {
        word_end(s, j + 1)
    } else {
        j
    }
}

/// The token of a word: a keyword, else an identifier.
pub open spec fn word_token(w: Seq<char>) -> TokenModel {
    if w == "and"@ || w == "AND"@ {
        TokenModel::And
    } else if w == "or"@ || w == "OR"@ {
        TokenModel::Or
    } else if w == "not"@ || w == "NOT"@ {
        TokenModel::Not
    } else {
        TokenModel::Ident(w)
    }
}

pub open spec fn cons_token(t: TokenModel, r: Result<Seq<TokenModel>, Seq<char>>) -> Result<
    Seq<TokenModel>,
    Seq<char>,
> {
    match r {
        Ok(ts) => Ok(seq![t] + ts),
        Err(e) => Err(e),
    }
}

/// The tokens of `s` from position `i` on, or the first lexical error.
pub open spec fn tokens_from(s: Seq<char>, i: int) -> Result<Seq<TokenModel>, Seq<char>>
    decreases s.len() - i,
{
    if i < 0 || i >= s.len() {
        Ok(seq![])
    } else {
        let c = s[i];
        let next_eq = i + 1 < s.len() && s[i + 1] == '=';
        if is_blank(c) {
            tokens_from(s, i + 1)
        } else if c == '(' {
            cons_token(TokenModel::LParen, tokens_from(s, i + 1))
        } else if c == ')' {
            cons_token(TokenModel::RParen, tokens_from(s, i + 1))
        } else if c == '>' {
            if next_eq {
                cons_token(TokenModel::Op(CmpOp::Gte), tokens_from(s, i + 2))
            } else {
                cons_token(TokenModel::Op(CmpOp::Gt), tokens_from(s, i + 1))
            }
        } else if c == '<' {
            if next_eq {
                cons_token(TokenModel::Op(CmpOp::Lte), tokens_from(s, i + 2))
            } else {
                cons_token(TokenModel::Op(CmpOp::Lt), tokens_from(s, i + 1))
            }
        } else if c == '=' {
            if next_eq {
                cons_token(TokenModel::Op(CmpOp::Eq), tokens_from(s, i + 2))
            } else {
                Err("unexpected '=' at position "@ + nat_decimal(byte_pos(s, i)) + " (use '==')"@)
            }
        } else if c == '!' {
            if next_eq {
                cons_token(TokenModel::Op(CmpOp::Neq), tokens_from(s, i + 2))
            } else {
                cons_token(TokenModel::Not, tokens_from(s, i + 1))
            }
        } else if c == '\'' || c == '"' {
            match quote_end(s, c, i + 1) {
                None => Err("unterminated string literal"@),
                Some(k) => if i < k < s.len() {
                    cons_token(TokenModel::StringLit(s.subrange(i + 1, k)), tokens_from(s, k + 1))
                } else {
                    Ok(seq![])
                },
            }
        } else if is_digit(c) || (c == '-' && i + 1 < s.len() && is_digit(s[i + 1])) {
            let e = number_end(s, if c == '-' { i + 1 } else { i });
            let lexeme = s.subrange(i, e);
            if !(i < e <= s.len()) {
                Ok(seq![])
            } else if float_text_syntax(lexeme) {
                cons_token(TokenModel::Number(lexeme), tokens_from(s, e))
            } else {
                Err("invalid number: "@ + lexeme)
            }
        } else if is_alpha(c) || c == '_' {
            let e = word_end(s, i);
            if i < e <= s.len() {
                cons_token(word_token(s.subrange(i, e)), tokens_from(s, e))
            } else {
                Ok(seq![])
            }
        } else {
            Err("unexpected character: "@ + char_debug(lead_char(c)))
        }
    }
}

/// The tokens of a filter expression, or the first lexical error.
pub open spec fn tokenize_spec(s: Seq<char>) -> Result<Seq<TokenModel>, Seq<char>> {
    tokens_from(s, 0)
}

// ---------------------------------------------------------------------------
// Tokenizer
// ---------------------------------------------------------------------------

proof fn lemma_quote_end_range(s: Seq<char>, q: char, j: int)
    requires
        0 <= j,
    ensures
        quote_end(s, q, j) matches Some(k) ==> j <= k < s.len() && s[k] == q,
    decreases s.len() + 1 - j,
{
    if 0 <= j < s.len() && s[j] != q {
        if s[j] == '\\' {
            lemma_quote_end_range(s, q, j + 2);
        } else {
            lemma_quote_end_range(s, q, j + 1);
        }
    }
}

proof fn lemma_number_end_range(s: Seq<char>, j: int)
    requires
        0 <= j <= s.len(),
    ensures
        j <= number_end(s, j) <= s.len(),
    decreases s.len() - j,
{
    if j < s.len() && (is_digit(s[j]) || s[j] == '.') {
        lemma_number_end_range(s, j + 1);
    }
}

proof fn lemma_word_end_range(s: Seq<char>, j: int)
    requires
        0 <= j <= s.len(),
    ensures
        j <= word_end(s, j) <= s.len(),
    decreases s.len() - j,
{
    if j < s.len() && is_word_char(s[j]) {
        lemma_word_end_range(s, j + 1);
    }
}

/// The UTF-8 byte offset of character position `i`.
fn byte_offset(v: &Vec<char>, i: usize, total: usize) -> (r: usize)
    requires
        i <= v@.len(),
        encode_utf8(v@).len() == total,
    ensures
        r == byte_pos(v@, i as int),
{
    let mut k: usize = 0;
    let mut acc: usize = 0;
    proof {
        assert(v@.take(0) =~= Seq::<char>::empty());
        assert(v@.take(v@.len() as int) =~= v@);
    }
    while k < i
        invariant
            k <= i <= v@.len(),
            acc == byte_pos(v@, k as int),
            byte_pos(v@, v@.len() as int) == total,
        decreases i - k,
    {
        proof {
            lemma_byte_pos_step(v@, k as int);
            lemma_byte_pos_mono(v@, k + 1);
        }
        let w = utf8_width(v[k]);
        acc = acc + w;
        k += 1;
    }
    acc
}

/// Whether the characters `w` spell the string literal `l`.
fn chars_are(w: &[char], l: &str) -> (r: bool)
    ensures
        r == (w@ == l@),
{
    let lv = chars_of(l);
    chars_eq(w, lv.as_slice())
}

fn word_token_exec(w: &Vec<char>) -> (t: Token)
    ensures
        t.model() == word_token(w@),
{
    if chars_are(w, "and") || chars_are(w, "AND") {
        Token::And
    } else if chars_are(w, "or") || chars_are(w, "OR") {
        Token::Or
    } else if chars_are(w, "not") || chars_are(w, "NOT") {
        Token::Not
    } else {
        Token::Ident(string_of(w))
    }
}

pub open spec fn append_tokens(acc: Seq<TokenModel>, r: Result<Seq<TokenModel>, Seq<char>>) -> Result<
    Seq<TokenModel>,
    Seq<char>,
> {
    match r {
        Ok(ts) => Ok(acc + ts),
        Err(e) => Err(e),
    }
}

proof fn lemma_append_cons(acc: Seq<TokenModel>, t: TokenModel, r: Result<Seq<TokenModel>, Seq<char>>)
    ensures
        append_tokens(acc, cons_token(t, r)) == append_tokens(acc.push(t), r),
{
    if let Ok(ts) = r {
        assert(acc + (seq![t] + ts) =~= acc.push(t) + ts);
    }
}

/// Split a filter expression into tokens.
pub fn tokenize_filter(input: &str) -> (r: Result<Vec<Token>, String>)
    ensures
        match r {
            Ok(v) => tokenize_spec(input@) == Ok::<Seq<TokenModel>, Seq<char>>(token_models(v@)),
            Err(e) => tokenize_spec(input@) == Err::<Seq<TokenModel>, Seq<char>>(e@),
        },
{
    let s = chars_of(input);
    let bytes = input.as_bytes();
    let total = bytes.len();
    assert(bytes@ == encode_utf8(input@));
    let ghost sv = s@;
    let n = s.len();
    let mut toks: Vec<Token> = Vec::new();
    let mut i: usize = 0;
    while i < n
        invariant
            sv == s@,
            sv == input@,
            n == s@.len(),
            total == encode_utf8(sv).len(),
            i <= n,
            tokenize_spec(sv) == append_tokens(token_models(toks@), tokens_from(sv, i as int)),
        decreases n - i,
    {
        let c = s[i];
        let next_eq = i + 1 < n && s[i + 1] == '=';
        let ghost before = token_models(toks@);
        if c == ' ' || c == '\t' || c == '\n' || c == '\r' {
            i += 1;
        } else if c == '(' || c == ')' {
            let t = if c == '(' { Token::LParen } else { Token::RParen };
            proof { lemma_append_cons(before, t.model(), tokens_from(sv, i + 1)); }
            toks.push(t);
            assert(token_models(toks@) =~= before.push(t.model()));
            i += 1;
        } else if c == '>' || c == '<' || (c == '=' && next_eq) || c == '!' {
            let op = if c == '>' {
                if next_eq { Token::Op(CmpOp::Gte) } else { Token::Op(CmpOp::Gt) }
            } else if c == '<' {
                if next_eq { Token::Op(CmpOp::Lte) } else { Token::Op(CmpOp::Lt) }
            } else if c == '=' {
                Token::Op(CmpOp::Eq)
            } else if next_eq {
                Token::Op(CmpOp::Neq)
            } else {
                Token::Not
            };
            let step: usize = if next_eq { 2 } else { 1 };
            proof { lemma_append_cons(before, op.model(), tokens_from(sv, i + step)); }
            toks.push(op);
            assert(token_models(toks@) =~= before.push(op.model()));
            i += step;
        } else if c == '=' {
            let bp = byte_offset(&s, i, total);
            let mut m = lit("unexpected '=' at position ");
            let d = usize_to_string(bp);
            push_str(&mut m, d.as_str());
            push_str(&mut m, " (use '==')");
            return Err(m);
        } else if c == '\'' || c == '"' {
            let mut j: usize = i + 1;
            while j < n && s[j] != c
                invariant
                    sv == s@,
                    n == sv.len(),
                    i < n,
                    i + 1 <= j <= n,
                    quote_end(sv, c, (i + 1) as int) == quote_end(sv, c, j as int),
                decreases n - j,
            {
                if s[j] == '\\' {
                    assert(quote_end(sv, c, j as int) == quote_end(sv, c, j + 2));
                    if j + 1 < n {
                        j += 2;
                    } else {
                        assert(quote_end(sv, c, j + 2) == None::<int>);
                        j = n;
                        assert(quote_end(sv, c, j as int) == None::<int>);
                    }
                } else {
                    j += 1;
                }
            }
            if j >= n {
                return Err(lit("unterminated string literal"));
            }
            proof { lemma_quote_end_range(sv, c, j as int); }
            let body = slice_chars(&s, i + 1, j);
            let t = Token::StringLit(string_of(&body));
            proof { lemma_append_cons(before, t.model(), tokens_from(sv, j + 1)); }
            toks.push(t);
            assert(token_models(toks@) =~= before.push(t.model()));
            i = j + 1;
        } else if ('0' <= c && c <= '9') || (c == '-' && i + 1 < n && '0' <= s[i + 1] && s[i + 1] <= '9') {
            let start = i;
            let mut e: usize = if c == '-' { i + 1 } else { i };
            let ghost e0 = e;
            while e < n && (('0' <= s[e] && s[e] <= '9') || s[e] == '.')
                invariant
                    sv == s@,
                    n == sv.len(),
                    e0 <= e <= n,
                    number_end(sv, e0 as int) == number_end(sv, e as int),
                decreases n - e,
            {
                e += 1;
            }
            proof { lemma_number_end_range(sv, e0 as int); }
            let lex = slice_chars(&s, start, e);
            let lexeme = string_of(&lex);
            if is_float_text(&lex) {
                let t = Token::Number(lexeme);
                proof { lemma_append_cons(before, t.model(), tokens_from(sv, e as int)); }
                toks.push(t);
                assert(token_models(toks@) =~= before.push(t.model()));
                i = e;
            } else {
                let mut m = lit("invalid number: ");
                push_str(&mut m, lexeme.as_str());
                return Err(m);
            }
        } else if ('a' <= c && c <= 'z') || ('A' <= c && c <= 'Z') || c == '_' {
            let mut e: usize = i;
            while e < n && (('a' <= s[e] && s[e] <= 'z') || ('A' <= s[e] && s[e] <= 'Z') || ('0'
                <= s[e] && s[e] <= '9') || s[e] == '_')
                invariant
                    sv == s@,
                    n == sv.len(),
                    i <= e <= n,
                    word_end(sv, i as int) == word_end(sv, e as int),
                decreases n - e,
            {
                e += 1;
            }
            proof { lemma_word_end_range(sv, i as int); }
            let w = slice_chars(&s, i, e);
            let t = word_token_exec(&w);
            proof { lemma_append_cons(before, t.model(), tokens_from(sv, e as int)); }
            toks.push(t);
            assert(token_models(toks@) =~= before.push(t.model()));
            i = e;
        } else {
            let b = lead_byte(c);
            let shown = debug_char(b as char);
            proof {
                vstd::utf8::char_is_scalar(c);
                assert(b as char == lead_char(c));
            }
            let mut m = lit("unexpected character: ");
            push_str(&mut m, shown.as_str());
            return Err(m);
        }
    }
    assert(token_models(toks@) + Seq::<TokenModel>::empty() =~= token_models(toks@));
    Ok(toks)
}


// ---------------------------------------------------------------------------
// Filter trees
// ---------------------------------------------------------------------------

/// The left side of a comparison, or a name on its right side.
#[derive(Debug, Clone)]
pub enum FilterAtom {
    /// A measure reference: the measure's value at the current cell.
    Measure(String),
    /// A dimension reference: the current element's name on it.
    Dimension(String),
}

/// The right side of a comparison. A number keeps its source text.
#[derive(Debug, Clone)]
pub enum FilterValue {
    Number(String),
    StringLit(String),
    Atom(FilterAtom),
}

/// A parsed filter expression.
#[derive(Debug)]
pub enum Filter {
    And(Box<Filter>, Box<Filter>),
    Or(Box<Filter>, Box<Filter>),
    Not(Box<Filter>),
    Compare(FilterAtom, CmpOp, FilterValue),
}

pub enum AtomModel {
    Measure(Seq<char>),
    Dimension(Seq<char>),
}

pub enum ValueModel {
    Number(Seq<char>),
    StringLit(Seq<char>),
    Atom(AtomModel),
}

/// The mathematical value of a [`Filter`].
pub enum FilterModel {
    And(Box<FilterModel>, Box<FilterModel>),
    Or(Box<FilterModel>, Box<FilterModel>),
    Not(Box<FilterModel>),
    Compare(AtomModel, CmpOp, ValueModel),
}

impl FilterAtom {
    pub open spec fn model(&self) -> AtomModel {
        match self {
            FilterAtom::Measure(s) => AtomModel::Measure(s@),
            FilterAtom::Dimension(s) => AtomModel::Dimension(s@),
        }
    }
}

impl FilterValue {
    pub open spec fn model(&self) -> ValueModel {
        match self {
            FilterValue::Number(s) => ValueModel::Number(s@),
            FilterValue::StringLit(s) => ValueModel::StringLit(s@),
            FilterValue::Atom(a) => ValueModel::Atom(a.model()),
        }
    }
}

pub open spec fn filter_model(f: Filter) -> FilterModel
    decreases f,
{
    match f {
        Filter::And(a, b) => FilterModel::And(Box::new(filter_model(*a)), Box::new(filter_model(*b))),
        Filter::Or(a, b) => FilterModel::Or(Box::new(filter_model(*a)), Box::new(filter_model(*b))),
        Filter::Not(a) => FilterModel::Not(Box::new(filter_model(*a))),
        Filter::Compare(a, o, v) => FilterModel::Compare(a.model(), o, v.model()),
    }
}

/// An error of the filter grammar. Where the message ends in the `Debug`
/// form of a number token, the number's text is kept apart: the message
/// is then the first text followed by `Number(` and the value's `Debug`
/// form and `)`, which the caller renders.
#[derive(Debug)]
pub enum FilterError {
    Message(String),
    AtNumber(String, String),
}

pub enum ErrorModel {
    Message(Seq<char>),
    AtNumber(Seq<char>, Seq<char>),
}

impl FilterError {
    pub open spec fn model(&self) -> ErrorModel {
        match self {
            FilterError::Message(m) => ErrorModel::Message(m@),
            FilterError::AtNumber(p, n) => ErrorModel::AtNumber(p@, n@),
        }
    }
}

/// `prefix` followed by the `Debug` form of the token found.
pub open spec fn found_error(prefix: Seq<char>, t: TokenModel) -> ErrorModel {
    match t {
        TokenModel::Number(n) => ErrorModel::AtNumber(prefix, n),
        _ => ErrorModel::Message(prefix + token_debug(t)),
    }
}

// ---------------------------------------------------------------------------
// Parser model
// ---------------------------------------------------------------------------

/// A name is a dimension when the cube has a dimension of that name.
pub open spec fn atom_of(name: Seq<char>, dims: Seq<Seq<char>>) -> AtomModel {
    if dims.contains(name) {
        AtomModel::Dimension(name)
    } else {
        AtomModel::Measure(name)
    }
}

pub open spec fn at(t: Seq<TokenModel>, pos: int) -> Option<TokenModel> {
    if 0 <= pos < t.len() {
        Some(t[pos])
    } else {
        None
    }
}

/// `or := and ( OR and )*` at `pos`: the tree and the position after it.
pub open spec fn p_or(t: Seq<TokenModel>, d: Seq<Seq<char>>, pos: int) -> Result<(FilterModel, int), ErrorModel>
    decreases t.len() - pos, 5int,
{
    match p_and(t, d, pos) {
        Err(e) => Err(e),
        Ok((l, p1)) => if pos <= p1 <= t.len() {
            or_rest(t, d, l, p1)
        } else {
            Ok((l, p1))
        },
    }
}

pub open spec fn or_rest(t: Seq<TokenModel>, d: Seq<Seq<char>>, left: FilterModel, pos: int) -> Result<
    (FilterModel, int),
    ErrorModel,
>
    decreases t.len() - pos, 4int,
{
    if 0 <= pos < t.len() && t[pos] is Or {
        match p_and(t, d, pos + 1) {
            Err(e) => Err(e),
            Ok((r, p2)) => {
                let l2 = FilterModel::Or(Box::new(left), Box::new(r));
                if pos < p2 <= t.len() {
                    or_rest(t, d, l2, p2)
                } else {
                    Ok((l2, p2))
                }
            },
        }
    } else {
        Ok((left, pos))
    }
}

/// `and := not ( AND not )*`.
pub open spec fn p_and(t: Seq<TokenModel>, d: Seq<Seq<char>>, pos: int) -> Result<(FilterModel, int), ErrorModel>
    decreases t.len() - pos, 3int,
{
    match p_not(t, d, pos) {
        Err(e) => Err(e),
        Ok((l, p1)) => if pos <= p1 <= t.len() {
            and_rest(t, d, l, p1)
        } else {
            Ok((l, p1))
        },
    }
}

pub open spec fn and_rest(t: Seq<TokenModel>, d: Seq<Seq<char>>, left: FilterModel, pos: int) -> Result<
    (FilterModel, int),
    ErrorModel,
>
    decreases t.len() - pos, 2int,
{
    if 0 <= pos < t.len() && t[pos] is And {
        match p_not(t, d, pos + 1) {
            Err(e) => Err(e),
            Ok((r, p2)) => {
                let l2 = FilterModel::And(Box::new(left), Box::new(r));
                if pos < p2 <= t.len() {
                    and_rest(t, d, l2, p2)
                } else {
                    Ok((l2, p2))
                }
            },
        }
    } else {
        Ok((left, pos))
    }
}

/// `not := NOT not | compare`.
pub open spec fn p_not(t: Seq<TokenModel>, d: Seq<Seq<char>>, pos: int) -> Result<(FilterModel, int), ErrorModel>
    decreases t.len() - pos, 1int,
{
    if 0 <= pos < t.len() && t[pos] is Not {
        match p_not(t, d, pos + 1) {
            Err(e) => Err(e),
            Ok((f, p)) => Ok((FilterModel::Not(Box::new(f)), p)),
        }
    } else {
        p_compare(t, d, pos)
    }
}

/// `compare := '(' or ')' | IDENT OP value`.
pub open spec fn p_compare(t: Seq<TokenModel>, d: Seq<Seq<char>>, pos: int) -> Result<(FilterModel, int), ErrorModel>
    decreases t.len() - pos, 0int,
{
    if 0 <= pos < t.len() && t[pos] is LParen {
        match p_or(t, d, pos + 1) {
            Err(e) => Err(e),
            Ok((inner, p)) => match at(t, p) {
                Some(TokenModel::RParen) => Ok((inner, p + 1)),
                _ => Err(ErrorModel::Message("missing closing parenthesis"@)),
            },
        }
    } else {
        match at(t, pos) {
            None => Err(ErrorModel::Message("expected identifier"@)),
            Some(TokenModel::Ident(name)) => {
                let lhs = atom_of(name, d);
                match at(t, pos + 1) {
                    None => Err(ErrorModel::Message("expected comparison operator"@)),
                    Some(TokenModel::Op(op)) => match at(t, pos + 2) {
                        None => Err(ErrorModel::Message("expected value"@)),
                        Some(TokenModel::Number(n)) => Ok(
                            (FilterModel::Compare(lhs, op, ValueModel::Number(n)), pos + 3),
                        ),
                        Some(TokenModel::StringLit(s)) => Ok(
                            (FilterModel::Compare(lhs, op, ValueModel::StringLit(s)), pos + 3),
                        ),
                        Some(TokenModel::Ident(v)) => Ok(
                            (FilterModel::Compare(lhs, op, ValueModel::Atom(atom_of(v, d))), pos + 3),
                        ),
                        Some(other) => Err(found_error("expected value, got "@, other)),
                    },
                    Some(other) => Err(found_error("expected comparison operator, got "@, other)),
                }
            },
            Some(other) => Err(found_error("expected identifier, got "@, other)),
        }
    }
}

/// The filter that `input` spells, the names in `dims` being dimensions.
pub open spec fn filter_spec(input: Seq<char>, dims: Seq<Seq<char>>) -> Result<FilterModel, ErrorModel> {
    match tokenize_spec(input) {
        Err(e) => Err(ErrorModel::Message(e)),
        Ok(t) => match p_or(t, dims, 0) {
            Err(e) => Err(e),
            Ok((f, p)) => if 0 <= p < t.len() {
                Err(found_error("unexpected token at position "@ + nat_decimal(p as nat) + ": "@, t[p]))
            } else {
                Ok(f)
            },
        },
    }
}

/// An atom is a dimension exactly when its name is among `dims`.
pub open spec fn atom_respects(a: AtomModel, dims: Seq<Seq<char>>) -> bool {
    match a {
        AtomModel::Dimension(n) => dims.contains(n),
        AtomModel::Measure(n) => !dims.contains(n),
    }
}

/// Every atom of the filter, on either side of a comparison, respects
/// `dims`.
pub open spec fn atoms_respect(f: FilterModel, dims: Seq<Seq<char>>) -> bool
    decreases f,
{
    match f {
        FilterModel::And(a, b) => atoms_respect(*a, dims) && atoms_respect(*b, dims),
        FilterModel::Or(a, b) => atoms_respect(*a, dims) && atoms_respect(*b, dims),
        FilterModel::Not(a) => atoms_respect(*a, dims),
        FilterModel::Compare(a, _, v) => atom_respects(a, dims) && match v {
            ValueModel::Atom(b) => atom_respects(b, dims),
            _ => true,
        },
    }
}

pub open spec fn parse_respects(r: Result<(FilterModel, int), ErrorModel>, d: Seq<Seq<char>>) -> bool {
    match r {
        Ok((f, _)) => atoms_respect(f, d),
        Err(_) => true,
    }
}

proof fn lemma_or_respects(t: Seq<TokenModel>, d: Seq<Seq<char>>, pos: int)
    ensures
        parse_respects(p_or(t, d, pos), d),
    decreases t.len() - pos, 5int,
{
    lemma_and_respects(t, d, pos);
    if let Ok((l, p1)) = p_and(t, d, pos) {
        if pos <= p1 <= t.len() {
            lemma_or_rest_respects(t, d, l, p1);
        }
    }
}

proof fn lemma_or_rest_respects(t: Seq<TokenModel>, d: Seq<Seq<char>>, left: FilterModel, pos: int)
    requires
        atoms_respect(left, d),
    ensures
        parse_respects(or_rest(t, d, left, pos), d),
    decreases t.len() - pos, 4int,
{
    if 0 <= pos < t.len() && t[pos] is Or {
        lemma_and_respects(t, d, pos + 1);
        if let Ok((r, p2)) = p_and(t, d, pos + 1) {
            let l2 = FilterModel::Or(Box::new(left), Box::new(r));
            if pos < p2 <= t.len() {
                lemma_or_rest_respects(t, d, l2, p2);
            }
        }
    }
}

proof fn lemma_and_respects(t: Seq<TokenModel>, d: Seq<Seq<char>>, pos: int)
    ensures
        parse_respects(p_and(t, d, pos), d),
    decreases t.len() - pos, 3int,
{
    lemma_not_respects(t, d, pos);
    if let Ok((l, p1)) = p_not(t, d, pos) {
        if pos <= p1 <= t.len() {
            lemma_and_rest_respects(t, d, l, p1);
        }
    }
}

proof fn lemma_and_rest_respects(t: Seq<TokenModel>, d: Seq<Seq<char>>, left: FilterModel, pos: int)
    requires
        atoms_respect(left, d),
    ensures
        parse_respects(and_rest(t, d, left, pos), d),
    decreases t.len() - pos, 2int,
{
    if 0 <= pos < t.len() && t[pos] is And {
        lemma_not_respects(t, d, pos + 1);
        if let Ok((r, p2)) = p_not(t, d, pos + 1) {
            let l2 = FilterModel::And(Box::new(left), Box::new(r));
            if pos < p2 <= t.len() {
                lemma_and_rest_respects(t, d, l2, p2);
            }
        }
    }
}

proof fn lemma_not_respects(t: Seq<TokenModel>, d: Seq<Seq<char>>, pos: int)
    ensures
        parse_respects(p_not(t, d, pos), d),
    decreases t.len() - pos, 1int,
{
    if 0 <= pos < t.len() && t[pos] is Not {
        lemma_not_respects(t, d, pos + 1);
    } else {
        lemma_compare_respects(t, d, pos);
    }
}

proof fn lemma_compare_respects(t: Seq<TokenModel>, d: Seq<Seq<char>>, pos: int)
    ensures
        parse_respects(p_compare(t, d, pos), d),
    decreases t.len() - pos, 0int,
{
    if 0 <= pos < t.len() && t[pos] is LParen {
        lemma_or_respects(t, d, pos + 1);
    }
}

/// Dimension law: in every filter that parses, a name is taken for a
/// dimension exactly when it is one of the given dimension names, and
/// for a measure otherwise.
pub proof fn law_names_follow_dimensions(input: Seq<char>, dims: Seq<Seq<char>>)
    ensures
        filter_spec(input, dims) matches Ok(f) ==> atoms_respect(f, dims),
{
    if let Ok(t) = tokenize_spec(input) {
        lemma_or_respects(t, dims, 0);
    }
}

pub open spec fn names_view(v: Seq<String>) -> Seq<Seq<char>> {
    v.map_values(|s: String| s@)
}

// ---------------------------------------------------------------------------
// Parser
// ---------------------------------------------------------------------------

struct FilterParser<'a> {
    toks: &'a Vec<Token>,
    dims: &'a [String],
}

impl<'a> FilterParser<'a> {
    spec fn t(&self) -> Seq<TokenModel> {
        token_models(self.toks@)
    }

    spec fn d(&self) -> Seq<Seq<char>> {
        names_view(self.dims@)
    }

    fn atom(&self, name: &String) -> (a: FilterAtom)
        ensures
            a.model() == atom_of(name@, self.d()),
    {
        let mut i: usize = 0;
        while i < self.dims.len()
            invariant
                i <= self.dims@.len(),
                forall|k: int| 0 <= k < i ==> self.dims@[k]@ != name@,
            decreases self.dims@.len() - i,
        {
            if str_eq(self.dims[i].as_str(), name.as_str()) {
                assert(self.d()[i as int] == name@);
                return FilterAtom::Dimension(name.clone());
            }
            i += 1;
        }
        proof {
            if self.d().contains(name@) {
                let k = choose|k: int| 0 <= k < self.d().len() && self.d()[k] == name@;
                assert(self.dims@[k]@ == name@);
            }
        }
        FilterAtom::Measure(name.clone())
    }

    fn found(&self, prefix: String, i: usize) -> (e: FilterError)
        requires
            i < self.toks@.len(),
        ensures
            e.model() == found_error(prefix@, self.t()[i as int]),
    {
        match &self.toks[i] {
            Token::Number(n) => FilterError::AtNumber(prefix, n.clone()),
            other => {
                let mut m = prefix;
                let shown = token_debug_exec(other);
                push_str(&mut m, shown.as_str());
                FilterError::Message(m)
            },
        }
    }

    fn parse_or(&self, pos: usize) -> (r: Result<(Filter, usize), FilterError>)
        requires
            pos <= self.toks@.len(),
        ensures
            match (r, p_or(self.t(), self.d(), pos as int)) {
                (Ok((f, p)), Ok((fm, pm))) => filter_model(f) == fm && p == pm && pos <= p <= self.toks@.len(),
                (Err(e), Err(em)) => e.model() == em,
                _ => false,
            },
        decreases self.toks@.len() - pos, 5int,
    {
        match self.parse_and(pos) {
            Err(e) => Err(e),
            Ok((l, p1)) => self.or_rest(l, p1),
        }
    }

    fn or_rest(&self, left: Filter, pos: usize) -> (r: Result<(Filter, usize), FilterError>)
        requires
            pos <= self.toks@.len(),
        ensures
            match (r, or_rest(self.t(), self.d(), filter_model(left), pos as int)) {
                (Ok((f, p)), Ok((fm, pm))) => filter_model(f) == fm && p == pm && pos <= p <= self.toks@.len(),
                (Err(e), Err(em)) => e.model() == em,
                _ => false,
            },
        decreases self.toks@.len() - pos, 4int,
    {
        if pos < self.toks.len() && matches!(self.toks[pos], Token::Or) {
            assert(self.t()[pos as int] is Or);
            match self.parse_and(pos + 1) {
                Err(e) => Err(e),
                Ok((r, p2)) => {
                    let l2 = Filter::Or(Box::new(left), Box::new(r));
                    self.or_rest(l2, p2)
                },
            }
        } else {
            proof {
                if pos < self.toks@.len() {
                    assert(!(self.t()[pos as int] is Or));
                }
            }
            Ok((left, pos))
        }
    }

    fn parse_and(&self, pos: usize) -> (r: Result<(Filter, usize), FilterError>)
        requires
            pos <= self.toks@.len(),
        ensures
            match (r, p_and(self.t(), self.d(), pos as int)) {
                (Ok((f, p)), Ok((fm, pm))) => filter_model(f) == fm && p == pm && pos <= p <= self.toks@.len(),
                (Err(e), Err(em)) => e.model() == em,
                _ => false,
            },
        decreases self.toks@.len() - pos, 3int,
    {
        match self.parse_not(pos) {
            Err(e) => Err(e),
            Ok((l, p1)) => self.and_rest(l, p1),
        }
    }

    fn and_rest(&self, left: Filter, pos: usize) -> (r: Result<(Filter, usize), FilterError>)
        requires
            pos <= self.toks@.len(),
        ensures
            match (r, and_rest(self.t(), self.d(), filter_model(left), pos as int)) {
                (Ok((f, p)), Ok((fm, pm))) => filter_model(f) == fm && p == pm && pos <= p <= self.toks@.len(),
                (Err(e), Err(em)) => e.model() == em,
                _ => false,
            },
        decreases self.toks@.len() - pos, 2int,
    {
        if pos < self.toks.len() && matches!(self.toks[pos], Token::And) {
            assert(self.t()[pos as int] is And);
            match self.parse_not(pos + 1) {
                Err(e) => Err(e),
                Ok((r, p2)) => {
                    let l2 = Filter::And(Box::new(left), Box::new(r));
                    self.and_rest(l2, p2)
                },
            }
        } else {
            proof {
                if pos < self.toks@.len() {
                    assert(!(self.t()[pos as int] is And));
                }
            }
            Ok((left, pos))
        }
    }

    fn parse_not(&self, pos: usize) -> (r: Result<(Filter, usize), FilterError>)
        requires
            pos <= self.toks@.len(),
        ensures
            match (r, p_not(self.t(), self.d(), pos as int)) {
                (Ok((f, p)), Ok((fm, pm))) => filter_model(f) == fm && p == pm && pos < p <= self.toks@.len(),
                (Err(e), Err(em)) => e.model() == em,
                _ => false,
            },
        decreases self.toks@.len() - pos, 1int,
    {
        if pos < self.toks.len() && matches!(self.toks[pos], Token::Not) {
            assert(self.t()[pos as int] is Not);
            match self.parse_not(pos + 1) {
                Err(e) => Err(e),
                Ok((f, p)) => Ok((Filter::Not(Box::new(f)), p)),
            }
        } else {
            proof {
                if pos < self.toks@.len() {
                    assert(!(self.t()[pos as int] is Not));
                }
            }
            self.parse_compare(pos)
        }
    }

    fn parse_compare(&self, pos: usize) -> (r: Result<(Filter, usize), FilterError>)
        requires
            pos <= self.toks@.len(),
        ensures
            match (r, p_compare(self.t(), self.d(), pos as int)) {
                (Ok((f, p)), Ok((fm, pm))) => filter_model(f) == fm && p == pm && pos < p <= self.toks@.len(),
                (Err(e), Err(em)) => e.model() == em,
                _ => false,
            },
        decreases self.toks@.len() - pos, 0int,
    {
        let n = self.toks.len();
        if pos < n && matches!(self.toks[pos], Token::LParen) {
            assert(self.t()[pos as int] is LParen);
            return match self.parse_or(pos + 1) {
                Err(e) => Err(e),
                Ok((inner, p)) => {
                    if p < n && matches!(self.toks[p], Token::RParen) {
                        assert(self.t()[p as int] is RParen);
                        Ok((inner, p + 1))
                    } else {
                        proof {
                            if p < n {
                                assert(!(self.t()[p as int] is RParen));
                            }
                        }
                        Err(FilterError::Message(lit("missing closing parenthesis")))
                    }
                },
            };
        }
        proof {
            if pos < n {
                assert(!(self.t()[pos as int] is LParen));
            }
        }
        if pos >= n {
            return Err(FilterError::Message(lit("expected identifier")));
        }
        let lhs = match &self.toks[pos] {
            Token::Ident(name) => self.atom(name),
            _ => {
                return Err(self.found(lit("expected identifier, got "), pos));
            },
        };
        if pos + 1 >= n {
            return Err(FilterError::Message(lit("expected comparison operator")));
        }
        let op = match &self.toks[pos + 1] {
            Token::Op(o) => *o,
            _ => {
                return Err(self.found(lit("expected comparison operator, got "), pos + 1));
            },
        };
        if pos + 2 >= n {
            return Err(FilterError::Message(lit("expected value")));
        }
        let rhs = match &self.toks[pos + 2] {
            Token::Number(v) => FilterValue::Number(v.clone()),
            Token::StringLit(v) => FilterValue::StringLit(v.clone()),
            Token::Ident(v) => FilterValue::Atom(self.atom(v)),
            _ => {
                return Err(self.found(lit("expected value, got "), pos + 2));
            },
        };
        Ok((Filter::Compare(lhs, op, rhs), pos + 3))
    }
}

fn op_name_exec(op: CmpOp) -> (r: String)
    ensures
        r@ == op_name(op),
{
    match op {
        CmpOp::Eq => lit("Eq"),
        CmpOp::Neq => lit("Neq"),
        CmpOp::Gt => lit("Gt"),
        CmpOp::Lt => lit("Lt"),
        CmpOp::Gte => lit("Gte"),
        CmpOp::Lte => lit("Lte"),
    }
}

fn wrapped(open: &str, inner: &str) -> (r: String)
    ensures
        r@ == open@ + inner@ + ")"@,
{
    let mut m = lit(open);
    push_str(&mut m, inner);
    push_str(&mut m, ")");
    m
}

fn token_debug_exec(t: &Token) -> (r: String)
    ensures
        r@ == token_debug(t.model()),
{
    match t {
        Token::Ident(s) => {
            let d = debug_str(s.as_str());
            wrapped("Ident(", d.as_str())
        },
        Token::Number(_) => String::new(),
        Token::StringLit(s) => {
            let d = debug_str(s.as_str());
            wrapped("StringLit(", d.as_str())
        },
        Token::Op(o) => {
            let d = op_name_exec(*o);
            wrapped("Op(", d.as_str())
        },
        Token::And => lit("And"),
        Token::Or => lit("Or"),
        Token::Not => lit("Not"),
        Token::LParen => lit("LParen"),
        Token::RParen => lit("RParen"),
    }
}

impl Filter {
    /// Parse a filter expression; a name is a dimension when it is one of
    /// `dims`, else a measure.
    pub fn parse(input: &str, dims: &[String]) -> (r: Result<Filter, FilterError>)
        ensures
            match r {
                Ok(f) => filter_spec(input@, names_view(dims@)) == Ok::<FilterModel, ErrorModel>(filter_model(f)),
                Err(e) => filter_spec(input@, names_view(dims@)) == Err::<FilterModel, ErrorModel>(e.model()),
            },
    {
        let tokens = match tokenize_filter(input) {
            Ok(t) => t,
            Err(e) => {
                return Err(FilterError::Message(e));
            },
        };
        let p = FilterParser { toks: &tokens, dims };
        let (f, pos) = match p.parse_or(0) {
            Ok(x) => x,
            Err(e) => {
                return Err(e);
            },
        };
        if pos < tokens.len() {
            let mut m = lit("unexpected token at position ");
            let d = usize_to_string(pos);
            push_str(&mut m, d.as_str());
            push_str(&mut m, ": ");
            return Err(p.found(m, pos));
        }
        Ok(f)
    }
}

/// Each comparison spelling reads as its own operator wherever it stands
/// in a `--where` filter: `<` alone is less-than, `<=` at-most, `>` alone
/// greater-than, `>=` at-least, `==` equality and `!=` inequality, the
/// operator being the token read at that position; a lone `=` is refused,
/// a lone `!` is negation, and `(` / `)` open and close a group.
pub proof fn law_operator_spellings(s: Seq<char>, i: int)
    requires
        0 <= i < s.len(),
    ensures
        ({
            let eq_next = i + 1 < s.len() && s[i + 1] == '=';
            let first_is = |op: CmpOp|
                tokens_from(s, i) matches Ok(ts) ==> ts.len() > 0 && ts[0] == TokenModel::Op(op);
            &&& (s[i] == '<' && !eq_next ==> first_is(CmpOp::Lt))
            &&& (s[i] == '<' && eq_next ==> first_is(CmpOp::Lte))
            &&& (s[i] == '>' && !eq_next ==> first_is(CmpOp::Gt))
            &&& (s[i] == '>' && eq_next ==> first_is(CmpOp::Gte))
            &&& (s[i] == '=' && eq_next ==> first_is(CmpOp::Eq))
            &&& (s[i] == '!' && eq_next ==> first_is(CmpOp::Neq))
            &&& (s[i] == '=' && !eq_next ==> tokens_from(s, i) is Err)
            &&& (s[i] == '!' && !eq_next ==> (tokens_from(s, i) matches Ok(ts) ==> ts.len() > 0 && ts[0]
                == TokenModel::Not))
            &&& (s[i] == '(' ==> (tokens_from(s, i) matches Ok(ts) ==> ts.len() > 0 && ts[0] == TokenModel::LParen))
            &&& (s[i] == ')' ==> (tokens_from(s, i) matches Ok(ts) ==> ts.len() > 0 && ts[0] == TokenModel::RParen))
        }),
{
}

} // verus!
