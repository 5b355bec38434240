//! The JSON-RPC layer of `mc mcp`: a small JSON reader and the string
//! emitter, and the request dispatch decision.
//!
//! The reader works on the characters of a request line. Error messages
//! report UTF-8 byte offsets into the line and, where a character was
//! rejected, its first UTF-8 byte. A JSON number is kept as its
//! validated source text.
use crate::text::{
    chars_of, debug_str, hex_digit, is_digit, lit, nat_decimal, push_char, push_str, slice_chars, str_debug,
    string_of, usize_to_string,
};
use vstd::prelude::*;
use vstd::utf8::{encode_scalar, encode_utf8, is_scalar};

pub mod emit;
pub mod dispatch;
pub mod tools;
pub mod roundtrip;
pub mod respond;

verus! {

// ---------------------------------------------------------------------------
// Values
// ---------------------------------------------------------------------------

/// A parsed JSON value. Numbers keep their source text.
#[derive(Debug)]
pub enum JsonValue {
    Null,
    Bool(bool),
    Number(String),
    String(String),
    Array(Vec<JsonValue>),
    Object(Vec<(String, JsonValue)>),
}

/// The mathematical value of a [`JsonValue`].
pub enum JsonModel {
    Null,
    Bool(bool),
    Number(Seq<char>),
    Str(Seq<char>),
    Array(Seq<JsonModel>),
    Object(Seq<(Seq<char>, JsonModel)>),
}

pub open spec fn json_model(j: JsonValue) -> JsonModel
    decreases j,
{
    match j {
        JsonValue::Null => JsonModel::Null,
        JsonValue::Bool(b) => JsonModel::Bool(b),
        JsonValue::Number(n) => JsonModel::Number(n@),
        JsonValue::String(s) => JsonModel::Str(s@),
        JsonValue::Array(v) => JsonModel::Array(json_models(v@)),
        JsonValue::Object(v) => JsonModel::Object(json_members(v@)),
    }
}

pub open spec fn json_models(s: Seq<JsonValue>) -> Seq<JsonModel>
    decreases s,
{
    if s.len() == 0 {
        Seq::empty()
    } else {
        json_models(s.drop_last()).push(json_model(s.last()))
    }
}

pub open spec fn json_members(s: Seq<(String, JsonValue)>) -> Seq<(Seq<char>, JsonModel)>
    decreases s,
{
    if s.len() == 0 {
        Seq::empty()
    } else {
        json_members(s.drop_last()).push((s.last().0@, json_model(s.last().1)))
    }
}

// ---------------------------------------------------------------------------
// Byte offsets
// ---------------------------------------------------------------------------

/// UTF-8 byte offset of character position `p`.
pub open spec fn byte_pos(src: Seq<char>, p: int) -> nat {
    encode_utf8(src.take(p)).len()
}

/// The first UTF-8 byte of `c`, shown as the character with that code.
pub open spec fn lead_char(c: char) -> char {
    encode_scalar(c as u32)[0] as char
}

pub proof fn lemma_encode_push(s: Seq<char>, c: char)
    ensures
        encode_utf8(s.push(c)) == encode_utf8(s) + encode_scalar(c as u32),
    decreases s.len(),
{
    if s.len() == 0 {
        assert(s.push(c).drop_first() =~= Seq::<char>::empty());
        assert(encode_utf8(Seq::<char>::empty()) =~= Seq::<u8>::empty());
        assert(encode_utf8(s.push(c)) =~= encode_scalar(c as u32));
    } else {
        lemma_encode_push(s.drop_first(), c);
        assert(s.push(c).drop_first() =~= s.drop_first().push(c));
        assert(encode_utf8(s.push(c)) =~= encode_scalar(s[0] as u32) + encode_utf8(
            s.drop_first().push(c),
        ));
    }
}

/// UTF-8 width of one character.
pub(crate) fn utf8_width(c: char) -> (r: usize)
    ensures
        r == encode_scalar(c as u32).len(),
        1 <= r <= 4,
{
    proof {
        vstd::utf8::char_is_scalar(c);
    }
    let u = c as u32;
    if u <= 0x7F {
        1
    } else if u <= 0x7FF {
        2
    } else if u <= 0xFFFF {
        3
    } else {
        4
    }
}

/// The first UTF-8 byte of `c`.
pub(crate) fn lead_byte(c: char) -> (r: u8)
    ensures
        r == encode_scalar(c as u32)[0],
{
    proof {
        vstd::utf8::char_is_scalar(c);
    }
    let u = c as u32;
    if u <= 0x7F {
        (u & 0x7F) as u8
    } else if u <= 0x7FF {
        0xC0 | ((u >> 6) & 0x1F) as u8
    } else if u <= 0xFFFF {
        0xE0 | ((u >> 12) & 0x0F) as u8
    } else {
        0xF0 | ((u >> 18) & 0x7) as u8
    }
}

/// `0x` digits: two lower-case hex digits of a byte.
pub open spec fn hex2(b: u8) -> Seq<char> {
    seq![hex_digit((b / 16) as nat), hex_digit((b % 16) as nat)]
}

fn hex_char(d: u8) -> (c: char)
    requires
        d < 16,
    ensures
        c == hex_digit(d as nat),
{
    if d < 10 {
        (d + 48u8) as char
    } else {
        (d - 10 + 97u8) as char
    }
}

fn push_hex2(out: &mut String, b: u8)
    ensures
        final(out)@ == old(out)@ + hex2(b),
{
    push_char(out, hex_char(b / 16));
    push_char(out, hex_char(b % 16));
    assert(out@ =~= old(out)@ + hex2(b));
}

/// `char::from_u32`: the character with scalar value `u`, if it is one.
#[verifier::external_body]
fn char_from_u32(u: u32) -> (r: Option<char>)
    ensures
        r == (if is_scalar(u) { Some(u as char) } else { None::<char> }),
{
    char::from_u32(u)
}

// ---------------------------------------------------------------------------
// The reader, as a function of the characters and a position
// ---------------------------------------------------------------------------

pub open spec fn is_json_ws(c: char) -> bool {
    c == ' ' || c == '\t' || c == '\n' || c == '\r'
}

/// The first position at or after `p` that is not JSON whitespace.
pub open spec fn skip_ws(src: Seq<char>, p: int) -> int
    decreases src.len() - p,
{
    if 0 <= p < src.len() && is_json_ws(src[p]) {
        skip_ws(src, p + 1)
    } else {
        p
    }
}

pub proof fn lemma_skip_ws(src: Seq<char>, p: int)
    requires
        0 <= p <= src.len(),
    ensures
        p <= skip_ws(src, p) <= src.len(),
        skip_ws(src, p) < src.len() ==> !is_json_ws(src[skip_ws(src, p)]),
    decreases src.len() - p,
{
    if p < src.len() && is_json_ws(src[p]) {
        lemma_skip_ws(src, p + 1);
    }
}

/// The error for a wanted character `want` that is not at `p`.
pub open spec fn expect_err(src: Seq<char>, p: int, want: char) -> Seq<char> {
    if p >= src.len() {
        "expected '"@ + seq![want] + "', got EOF"@
    } else {
        "expected '"@ + seq![want] + "', got '"@ + seq![lead_char(src[p])] + "' at "@
            + nat_decimal(byte_pos(src, p))
    }
}

pub open spec fn is_hex(c: char) -> bool {
    ('0' <= c <= '9') || ('a' <= c <= 'f') || ('A' <= c <= 'F')
}

pub open spec fn hex_val(c: char) -> nat {
    if '0' <= c <= '9' {
        (c as u32 - '0' as u32) as nat
    } else if 'a' <= c <= 'f' {
        (c as u32 - 'a' as u32 + 10) as nat
    } else {
        (c as u32 - 'A' as u32 + 10) as nat
    }
}

/// Four hex digits at `p`, if present.
pub open spec fn hex4(src: Seq<char>, p: int) -> Option<u32> {
    if 0 <= p && p + 4 <= src.len() && is_hex(src[p]) && is_hex(src[p + 1]) && is_hex(src[p + 2])
        && is_hex(src[p + 3]) {
        Some(
            (((hex_val(src[p]) * 16 + hex_val(src[p + 1])) * 16 + hex_val(src[p + 2])) * 16
                + hex_val(src[p + 3])) as u32,
        )
    } else {
        None
    }
}

/// The character a one-letter escape stands for.
pub open spec fn simple_escape(e: char) -> Option<char> {
    if e == '"' {
        Some('"')
    } else if e == '\\' {
        Some('\\')
    } else if e == '/' {
        Some('/')
    } else if e == 'n' {
        Some('\n')
    } else if e == 'r' {
        Some('\r')
    } else if e == 't' {
        Some('\t')
    } else if e == 'b' {
        Some('\x08')
    } else if e == 'f' {
        Some('\x0c')
    } else {
        None
    }
}

/// The rest of a string literal from position `q` (after the opening
/// quote), with `acc` decoded so far: the decoded text and the position
/// after the closing quote.
pub open spec fn string_body(src: Seq<char>, q: int, acc: Seq<char>) -> Result<
    (Seq<char>, int),
    Seq<char>,
>
    decreases src.len() - q,
{
    if q < 0 || q >= src.len() {
        Err("unterminated string"@)
    } else {
        let c = src[q];
        if c == '"' {
            Ok((acc, q + 1))
        } else if c == '\\' {
            if q + 1 >= src.len() {
                Err("EOF after backslash"@)
            } else {
                let e = src[q + 1];
                match simple_escape(e) {
                    Some(d) => string_body(src, q + 2, acc.push(d)),
                    None => if e == 'u' {
                        match hex4(src, q + 2) {
                            None => Err("invalid \\u hex"@),
                            Some(cp) => if 0xD800 <= cp <= 0xDBFF {
                                if !(q + 7 < src.len() && src[q + 6] == '\\' && src[q + 7] == 'u') {
                                    Err("invalid surrogate pair (missing low)"@)
                                } else {
                                    match hex4(src, q + 8) {
                                        None => Err("invalid \\u hex"@),
                                        Some(low) => if !(0xDC00 <= low <= 0xDFFF) {
                                            Err("invalid surrogate pair (low out of range)"@)
                                        } else {
                                            let scalar = (0x10000 + (cp - 0xD800) * 1024 + (low
                                                - 0xDC00)) as u32;
                                            string_body(src, q + 12, acc.push(scalar as char))
                                        },
                                    }
                                }
                            } else if is_scalar(cp) {
                                string_body(src, q + 6, acc.push(cp as char))
                            } else {
                                Err("invalid \\u escape"@)
                            },
                        }
                    } else {
                        Err("unknown escape \\"@ + seq![lead_char(e)])
                    },
                }
            }
        } else if (c as u32) < 0x20 {
            Err("control byte 0x"@ + hex2(c as u32 as u8) + " in string"@)
        } else {
            string_body(src, q + 1, acc.push(c))
        }
    }
}

/// A string literal at `p`: the decoded text and the position after it.
pub open spec fn string_at(src: Seq<char>, p: int) -> Result<(Seq<char>, int), Seq<char>> {
    if 0 <= p < src.len() && src[p] == '"' {
        string_body(src, p + 1, Seq::empty())
    } else {
        Err(expect_err(src, p, '"'))
    }
}

pub proof fn lemma_string_body_advances(src: Seq<char>, q: int, acc: Seq<char>)
    ensures
        string_body(src, q, acc) matches Ok((_, r)) ==> q < r <= src.len(),
    decreases src.len() - q,
{
    if 0 <= q < src.len() {
        let c = src[q];
        if c == '\\' && q + 1 < src.len() {
            let e = src[q + 1];
            match simple_escape(e) {
                Some(d) => lemma_string_body_advances(src, q + 2, acc.push(d)),
                None => if e == 'u' {
                    match hex4(src, q + 2) {
                        None => {},
                        Some(cp) => if 0xD800 <= cp <= 0xDBFF {
                            if q + 7 < src.len() && src[q + 6] == '\\' && src[q + 7] == 'u' {
                                match hex4(src, q + 8) {
                                    None => {},
                                    Some(low) => {
                                        let scalar = (0x10000 + (cp - 0xD800) * 1024 + (low
                                            - 0xDC00)) as u32;
                                        lemma_string_body_advances(
                                            src,
                                            q + 12,
                                            acc.push(scalar as char),
                                        );
                                    },
                                }
                            }
                        } else {
                            lemma_string_body_advances(src, q + 6, acc.push(cp as char));
                        },
                    }
                },
            }
        } else if c != '"' && (c as u32) >= 0x20 && c != '\\' {
            lemma_string_body_advances(src, q + 1, acc.push(c));
        }
    }
}

/// Whether `s` is accepted by `f64::from_str`, given that it has the
/// shape the number scanner collects (`-`? digits (`.` digits)?
/// ([eE] [+-]? digits)?): at least one mantissa digit, and at least one
/// exponent digit when an exponent is present.
pub open spec fn float_text_ok(s: Seq<char>) -> bool {
    let a = if s.len() > 0 && s[0] == '-' { 1int } else { 0int };
    let i = digit_run_end(s, a);
    let (f0, f) = if i < s.len() && s[i] == '.' { (i + 1, digit_run_end(s, i + 1)) } else { (i, i) };
    let mant_digits = (i - a) + (f - f0);
    if mant_digits == 0 {
        false
    } else if f < s.len() && (s[f] == 'e' || s[f] == 'E') {
        let e0 = if f + 1 < s.len() && (s[f + 1] == '+' || s[f + 1] == '-') { f + 2 } else { f + 1 };
        digit_run_end(s, e0) > e0
    } else {
        true
    }
}

/// The end of the run of ASCII digits starting at `p`.
pub open spec fn digit_run_end(s: Seq<char>, p: int) -> int
    decreases s.len() - p,
{
    if 0 <= p < s.len() && is_digit(s[p]) {
        digit_run_end(s, p + 1)
    } else {
        p
    }
}

pub proof fn lemma_digit_run(s: Seq<char>, p: int)
    requires
        0 <= p <= s.len(),
    ensures
        p <= digit_run_end(s, p) <= s.len(),
        digit_run_end(s, p) < s.len() ==> !is_digit(s[digit_run_end(s, p)]),
        forall|j: int| p <= j < digit_run_end(s, p) ==> is_digit(s[j]),
    decreases s.len() - p,
{
    if p < s.len() && is_digit(s[p]) {
        lemma_digit_run(s, p + 1);
    }
}

/// The end of the number text starting at `p` (the scanner accepts
/// `-`? digits (`.` digits)? ([eE] [+-]? digits)?).
pub open spec fn number_end(src: Seq<char>, p: int) -> int {
    let a = if 0 <= p < src.len() && src[p] == '-' { p + 1 } else { p };
    let i = digit_run_end(src, a);
    let f = if i < src.len() && src[i] == '.' { digit_run_end(src, i + 1) } else { i };
    if f < src.len() && (src[f] == 'e' || src[f] == 'E') {
        let e0 = if f + 1 < src.len() && (src[f + 1] == '+' || src[f + 1] == '-') { f + 2 } else { f + 1 };
        digit_run_end(src, e0)
    } else {
        f
    }
}

/// A number at `p`: its text (when `f64::from_str` accepts it) and the
/// position after it.
pub open spec fn number_at(src: Seq<char>, p: int) -> Result<(JsonModel, int), Seq<char>> {
    let e = number_end(src, p);
    let text = src.subrange(p, e);
    if float_text_ok(text) {
        Ok((JsonModel::Number(text), e))
    } else {
        Err("invalid number "@ + str_debug(text) + ": invalid float literal"@)
    }
}

/// A literal word (`true`, `false`, `null`) at `p`.
pub open spec fn word_at(src: Seq<char>, p: int, w: Seq<char>) -> bool {
    0 <= p && p + w.len() <= src.len() && src.subrange(p, p + w.len()) == w
}

/// A value at or after `p` (after leading whitespace).
pub open spec fn value_at(src: Seq<char>, p: int) -> Result<(JsonModel, int), Seq<char>>
    decreases src.len() - p, 2int,
{
    if p < 0 || p > src.len() {
        Err(Seq::empty())
    } else {
        let q = skip_ws(src, p);
        proof {
            lemma_skip_ws(src, p);
        }
        if q >= src.len() {
            Err("unexpected EOF parsing value"@)
        } else {
            let c = src[q];
            if c == '{' {
                object_at(src, q)
            } else if c == '[' {
                array_at(src, q)
            } else if c == '"' {
                match string_at(src, q) {
                    Ok((s, r)) => Ok((JsonModel::Str(s), r)),
                    Err(e) => Err(e),
                }
            } else if c == 't' {
                if word_at(src, q, "true"@) {
                    Ok((JsonModel::Bool(true), q + 4))
                } else {
                    Err("expected 'true'"@)
                }
            } else if c == 'f' {
                if word_at(src, q, "false"@) {
                    Ok((JsonModel::Bool(false), q + 5))
                } else {
                    Err("expected 'false'"@)
                }
            } else if c == 'n' {
                if word_at(src, q, "null"@) {
                    Ok((JsonModel::Null, q + 4))
                } else {
                    Err("expected 'null'"@)
                }
            } else if c == '-' || is_digit(c) {
                number_at(src, q)
            } else {
                Err(
                    "unexpected byte 0x"@ + hex2(encode_scalar(c as u32)[0]) + " at "@
                        + nat_decimal(byte_pos(src, q)),
                )
            }
        }
    }
}

/// An object at `p` (which holds `{`).
pub open spec fn object_at(src: Seq<char>, p: int) -> Result<(JsonModel, int), Seq<char>>
    decreases src.len() - p, 1int,
{
    if !(0 <= p < src.len() && src[p] == '{') {
        Err(expect_err(src, p, '{'))
    } else {
        let q = skip_ws(src, p + 1);
        proof {
            lemma_skip_ws(src, p + 1);
        }
        if q < src.len() && src[q] == '}' {
            Ok((JsonModel::Object(Seq::empty()), q + 1))
        } else {
            members_from(src, q, Seq::empty())
        }
    }
}

/// Object members from `q` on, with `acc` read so far.
pub open spec fn members_from(src: Seq<char>, q: int, acc: Seq<(Seq<char>, JsonModel)>) -> Result<
    (JsonModel, int),
    Seq<char>,
>
    decreases src.len() - q, 3int,
{
    if q < 0 || q > src.len() {
        Err(Seq::empty())
    } else {
        let q1 = skip_ws(src, q);
        proof {
            lemma_skip_ws(src, q);
        }
        match string_at(src, q1) {
            Err(e) => Err(e),
            Ok((k, q2)) => {
                proof {
                    lemma_string_body_advances(src, q1 + 1, Seq::empty());
                    lemma_skip_ws(src, q2);
                }
                let q3 = skip_ws(src, q2);
                if !(q3 < src.len() && src[q3] == ':') {
                    Err(expect_err(src, q3, ':'))
                } else {
                    match value_at(src, q3 + 1) {
                        Err(e) => Err(e),
                        Ok((v, q4)) => if q4 <= q || q4 > src.len() {
                            // unreachable: a value read consumes input
                            Err(Seq::empty())
                        } else {
                            let acc2 = acc.push((k, v));
                            let q5 = skip_ws(src, q4);
                            proof {
                                lemma_skip_ws(src, q4);
                            }
                            if q5 >= src.len() {
                                Err("unexpected EOF in object"@)
                            } else if src[q5] == ',' {
                                members_from(src, q5 + 1, acc2)
                            } else if src[q5] == '}' {
                                Ok((JsonModel::Object(acc2), q5 + 1))
                            } else {
                                Err(
                                    "expected ',' or '}' in object, got '"@ + seq![lead_char(src[q5])]
                                        + "'"@,
                                )
                            }
                        },
                    }
                }
            },
        }
    }
}

/// An array at `p` (which holds `[`).
pub open spec fn array_at(src: Seq<char>, p: int) -> Result<(JsonModel, int), Seq<char>>
    decreases src.len() - p, 1int,
{
    if !(0 <= p < src.len() && src[p] == '[') {
        Err(expect_err(src, p, '['))
    } else {
        let q = skip_ws(src, p + 1);
        proof {
            lemma_skip_ws(src, p + 1);
        }
        if q < src.len() && src[q] == ']' {
            Ok((JsonModel::Array(Seq::empty()), q + 1))
        } else {
            elements_from(src, q, Seq::empty())
        }
    }
}

/// Array elements from `q` on, with `acc` read so far.
pub open spec fn elements_from(src: Seq<char>, q: int, acc: Seq<JsonModel>) -> Result<
    (JsonModel, int),
    Seq<char>,
>
    decreases src.len() - q, 3int,
{
    if q < 0 || q > src.len() {
        Err(Seq::empty())
    } else {
        match value_at(src, q) {
            Err(e) => Err(e),
            Ok((v, q4)) => if q4 <= q || q4 > src.len() {
                // unreachable: a value read consumes input
                Err(Seq::empty())
            } else {
                let acc2 = acc.push(v);
                let q5 = skip_ws(src, q4);
                proof {
                    lemma_skip_ws(src, q4);
                }
                if q5 >= src.len() {
                    Err("unexpected EOF in array"@)
                } else if src[q5] == ',' {
                    elements_from(src, q5 + 1, acc2)
                } else if src[q5] == ']' {
                    Ok((JsonModel::Array(acc2), q5 + 1))
                } else {
                    Err(
                        "expected ',' or ']' in array, got '"@ + seq![lead_char(src[q5])] + "'"@,
                    )
                }
            },
        }
    }
}

/// A whole request line: one value with only whitespace around it.
pub open spec fn json_spec(src: Seq<char>) -> Result<JsonModel, Seq<char>> {
    match value_at(src, 0) {
        Err(e) => Err(e),
        Ok((v, r)) => {
            let e = skip_ws(src, r);
            if e < src.len() {
                Err("trailing garbage at byte "@ + nat_decimal(byte_pos(src, e)))
            } else {
                Ok(v)
            }
        },
    }
}


// ---------------------------------------------------------------------------
// The reader
// ---------------------------------------------------------------------------

pub proof fn lemma_byte_pos_step(src: Seq<char>, p: int)
    requires
        0 <= p < src.len(),
    ensures
        byte_pos(src, p + 1) == byte_pos(src, p) + encode_scalar(src[p] as u32).len(),
{
    assert(src.take(p + 1) =~= src.take(p).push(src[p]));
    lemma_encode_push(src.take(p), src[p]);
}

pub proof fn lemma_byte_pos_mono(src: Seq<char>, p: int)
    requires
        0 <= p <= src.len(),
    ensures
        byte_pos(src, p) <= byte_pos(src, src.len() as int),
    decreases src.len() - p,
{
    if p < src.len() {
        lemma_byte_pos_step(src, p);
        lemma_byte_pos_mono(src, p + 1);
    }
}


/// The end of the run of ASCII digits in `s` starting at `p`.
fn digit_run(s: &[char], p: usize) -> (r: usize)
    requires
        p <= s@.len(),
    ensures
        r == digit_run_end(s@, p as int),
{
    let mut i = p;
    while i < s.len() && '0' <= s[i] && s[i] <= '9'
        invariant
            p <= i <= s@.len(),
            digit_run_end(s@, p as int) == digit_run_end(s@, i as int),
        decreases s@.len() - i,
    {
        i += 1;
    }
    i
}

/// Whether `f64::from_str` accepts the scanned number text `s`.
fn float_text_check(s: &[char]) -> (r: bool)
    ensures
        r == float_text_ok(s@),
{
    let a: usize = if s.len() > 0 && s[0] == '-' { 1 } else { 0 };
    let i = digit_run(s, a);
    proof {
        lemma_digit_run(s@, a as int);
    }
    let (f0, f) = if i < s.len() && s[i] == '.' {
        proof {
            lemma_digit_run(s@, i + 1);
        }
        (i + 1, digit_run(s, i + 1))
    } else {
        (i, i)
    };
    if (i - a) + (f - f0) == 0 {
        false
    } else if f < s.len() && (s[f] == 'e' || s[f] == 'E') {
        let e0 = if f + 1 < s.len() && (s[f + 1] == '+' || s[f + 1] == '-') { f + 2 } else { f + 1 };
        digit_run(s, e0) > e0
    } else {
        true
    }
}

/// A read position in the characters of a request line, with its UTF-8
/// byte offset.
struct ParseCursor {
    src: Vec<char>,
    pos: usize,
    bpos: usize,
}

impl ParseCursor {
    spec fn inv(&self) -> bool {
        &&& self.pos <= self.src@.len()
        &&& self.bpos == byte_pos(self.src@, self.pos as int)
        &&& byte_pos(self.src@, self.src@.len() as int) <= usize::MAX
    }

    fn peek_byte(&self) -> (r: Option<char>)
        requires
            self.inv(),
        ensures
            r == (if self.pos < self.src@.len() { Some(self.src@[self.pos as int]) } else { None::<char> }),
    {
        if self.pos < self.src.len() {
            Some(self.src[self.pos])
        } else {
            None
        }
    }

    fn advance(&mut self)
        requires
            old(self).inv(),
            old(self).pos < old(self).src@.len(),
        ensures
            final(self).inv(),
            final(self).src == old(self).src,
            final(self).pos == old(self).pos + 1,
    {
        proof {
            lemma_byte_pos_step(self.src@, self.pos as int);
            lemma_byte_pos_mono(self.src@, self.pos + 1);
        }
        let w = utf8_width(self.src[self.pos]);
        let n = self.src.len();
        assert(self.pos < n);
        self.pos = self.pos + 1;
        self.bpos = self.bpos + w;
    }

    fn bump_byte(&mut self) -> (r: Option<char>)
        requires
            old(self).inv(),
        ensures
            final(self).inv(),
            final(self).src == old(self).src,
            r == (if old(self).pos < old(self).src@.len() { Some(old(self).src@[old(self).pos as int]) } else { None::<char> }),
            final(self).pos == (if old(self).pos < old(self).src@.len() { old(self).pos + 1 } else { old(self).pos as int }),
    {
        if self.pos < self.src.len() {
            let c = self.src[self.pos];
            self.advance();
            Some(c)
        } else {
            None
        }
    }

    fn skip_ws(&mut self)
        requires
            old(self).inv(),
        ensures
            final(self).inv(),
            final(self).src == old(self).src,
            final(self).pos == skip_ws(old(self).src@, old(self).pos as int),
    {
        let ghost p0 = self.pos as int;
        proof {
            lemma_skip_ws(self.src@, p0);
        }
        while self.pos < self.src.len() && (self.src[self.pos] == ' ' || self.src[self.pos] == '\t'
            || self.src[self.pos] == '\n' || self.src[self.pos] == '\r')
            invariant
                self.inv(),
                self.src == old(self).src,
                p0 <= self.pos,
                skip_ws(self.src@, p0) == skip_ws(self.src@, self.pos as int),
            decreases self.src@.len() - self.pos,
        {
            self.advance();
        }
    }

    fn expect_error(&self, want: char) -> (e: String)
        requires
            self.inv(),
        ensures
            e@ == expect_err(self.src@, self.pos as int, want),
    {
        let mut m = lit("expected '");
        push_char(&mut m, want);
        if self.pos < self.src.len() {
            push_str(&mut m, "', got '");
            let b = lead_byte(self.src[self.pos]);
            push_char(&mut m, b as char);
            push_str(&mut m, "' at ");
            let d = usize_to_string(self.bpos);
            push_str(&mut m, d.as_str());
        } else {
            push_str(&mut m, "', got EOF");
        }
        m
    }

    fn expect(&mut self, want: char) -> (r: Result<(), String>)
        requires
            old(self).inv(),
        ensures
            final(self).inv(),
            final(self).src == old(self).src,
            match r {
                Ok(_) => old(self).pos < old(self).src@.len() && old(self).src@[old(self).pos as int] == want
                    && final(self).pos == old(self).pos + 1,
                Err(e) => !(old(self).pos < old(self).src@.len() && old(self).src@[old(self).pos as int] == want)
                    && e@ == expect_err(old(self).src@, old(self).pos as int, want),
            },
    {
        if self.pos < self.src.len() && self.src[self.pos] == want {
            self.advance();
            Ok(())
        } else {
            Err(self.expect_error(want))
        }
    }

    fn read_hex4(&mut self) -> (r: Result<u32, String>)
        requires
            old(self).inv(),
        ensures
            final(self).inv(),
            final(self).src == old(self).src,
            match r {
                Ok(v) => hex4(old(self).src@, old(self).pos as int) == Some(v) && final(self).pos == old(self).pos + 4,
                Err(e) => hex4(old(self).src@, old(self).pos as int) is None && e@ == "invalid \\u hex"@,
            },
    {
        let ghost p0 = self.pos as int;
        let mut v: u32 = 0;
        let mut k: usize = 0;
        while k < 4
            invariant
                self.inv(),
                self.src == old(self).src,
                k <= 4,
                p0 == old(self).pos,
                self.pos == p0 + k,
                forall|j: int| p0 <= j < p0 + k ==> is_hex(self.src@[j]),
                k == 0 ==> v == 0,
                k == 1 ==> v == hex_val(self.src@[p0]),
                k == 2 ==> v == hex_val(self.src@[p0]) * 16 + hex_val(self.src@[p0 + 1]),
                k == 3 ==> v == (hex_val(self.src@[p0]) * 16 + hex_val(self.src@[p0 + 1])) * 16 + hex_val(self.src@[p0 + 2]),
                k == 4 ==> v == ((hex_val(self.src@[p0]) * 16 + hex_val(self.src@[p0 + 1])) * 16 + hex_val(self.src@[p0 + 2])) * 16 + hex_val(self.src@[p0 + 3]),
            decreases 4 - k,
        {
            let c = self.bump_byte();
            let d: u32 = match c {
                Some(c) => {
                    if '0' <= c && c <= '9' {
                        (c as u32) - ('0' as u32)
                    } else if 'a' <= c && c <= 'f' {
                        (c as u32) - ('a' as u32) + 10
                    } else if 'A' <= c && c <= 'F' {
                        (c as u32) - ('A' as u32) + 10
                    } else {
                        assert(!is_hex(self.src@[p0 + k]));
                        return Err(lit("invalid \\u hex"));
                    }
                },
                None => {
                    assert(p0 + 4 > self.src@.len());
                    return Err(lit("invalid \\u hex"));
                },
            };
            assert(v < 0x1000) by {
                assert(forall|j: int| p0 <= j < p0 + k ==> hex_val(self.src@[j]) < 16);
            }
            v = v * 16 + d;
            k += 1;
        }
        Ok(v)
    }

    /// Advance past a run of ASCII digits.
    fn skip_digits(&mut self)
        requires
            old(self).inv(),
        ensures
            final(self).inv(),
            final(self).src == old(self).src,
            final(self).pos == digit_run_end(old(self).src@, old(self).pos as int),
    {
        let ghost p0 = self.pos as int;
        while self.pos < self.src.len() && '0' <= self.src[self.pos] && self.src[self.pos] <= '9'
            invariant
                self.inv(),
                self.src == old(self).src,
                p0 <= self.pos,
                digit_run_end(self.src@, p0) == digit_run_end(self.src@, self.pos as int),
            decreases self.src@.len() - self.pos,
        {
            self.advance();
        }
    }

    fn parse_number(&mut self) -> (r: Result<JsonValue, String>)
        requires
            old(self).inv(),
            old(self).pos < old(self).src@.len(),
            old(self).src@[old(self).pos as int] == '-' || is_digit(old(self).src@[old(self).pos as int]),
        ensures
            final(self).inv(),
            final(self).src == old(self).src,
            match r {
                Ok(v) => number_at(old(self).src@, old(self).pos as int) == Ok::<(JsonModel, int), Seq<char>>((json_model(v), final(self).pos as int))
                    && final(self).pos > old(self).pos,
                Err(e) => number_at(old(self).src@, old(self).pos as int) == Err::<(JsonModel, int), Seq<char>>(e@),
            },
    {
        let start = self.pos;
        let ghost src = self.src@;
        if self.peek_byte() == Some('-') {
            self.advance();
        }
        let ghost a = self.pos as int;
        self.skip_digits();
        proof {
            lemma_digit_run(src, a);
        }
        let ghost i = self.pos as int;
        if self.peek_byte() == Some('.') {
            self.advance();
            proof {
                lemma_digit_run(src, self.pos as int);
            }
            self.skip_digits();
        }
        let ghost f = self.pos as int;
        let pk = self.peek_byte();
        if pk == Some('e') || pk == Some('E') {
            self.advance();
            let pk2 = self.peek_byte();
            if pk2 == Some('+') || pk2 == Some('-') {
                self.advance();
            }
            proof {
                lemma_digit_run(src, self.pos as int);
            }
            self.skip_digits();
        }
        assert(self.pos == number_end(src, start as int));
        let text = slice_chars(&self.src, start, self.pos);
        if float_text_check(&text) {
            proof {
                if is_digit(src[start as int]) {
                    lemma_digit_run(src, start as int);
                }
            }
            Ok(JsonValue::Number(string_of(&text)))
        } else {
            let mut m = lit("invalid number ");
            let t = string_of(&text);
            let d = debug_str(t.as_str());
            push_str(&mut m, d.as_str());
            push_str(&mut m, ": invalid float literal");
            Err(m)
        }
    }

    /// Read the literal word `w` (all ASCII) at the cursor.
    fn expect_word(&mut self, w: &[char]) -> (r: bool)
        requires
            old(self).inv(),
        ensures
            final(self).inv(),
            final(self).src == old(self).src,
            r == word_at(old(self).src@, old(self).pos as int, w@),
            r ==> final(self).pos == old(self).pos + w@.len(),
    {
        let ghost p0 = self.pos as int;
        let mut k: usize = 0;
        while k < w.len()
            invariant
                self.inv(),
                self.src == old(self).src,
                p0 == old(self).pos,
                k <= w@.len(),
                self.pos == p0 + k,
                forall|j: int| 0 <= j < k ==> self.src@[p0 + j] == w@[j],
            decreases w@.len() - k,
        {
            let b = self.bump_byte();
            if b != Some(w[k]) {
                proof {
                    if word_at(self.src@, p0, w@) {
                        assert(self.src@.subrange(p0, p0 + w@.len())[k as int] == self.src@[p0 + k]);
                    }
                }
                return false;
            }
            k += 1;
        }
        assert(self.src@.subrange(p0, p0 + w@.len()) =~= w@);
        true
    }

    fn parse_value(&mut self) -> (r: Result<JsonValue, String>)
        requires
            old(self).inv(),
        ensures
            final(self).inv(),
            final(self).src == old(self).src,
            match r {
                Ok(v) => value_at(old(self).src@, old(self).pos as int) == Ok::<(JsonModel, int), Seq<char>>((json_model(v), final(self).pos as int))
                    && final(self).pos > old(self).pos,
                Err(e) => value_at(old(self).src@, old(self).pos as int) == Err::<(JsonModel, int), Seq<char>>(e@),
            },
        decreases old(self).src@.len() - old(self).pos, 2int,
    {
        proof {
            lemma_skip_ws(self.src@, self.pos as int);
        }
        self.skip_ws();
        match self.peek_byte() {
            None => Err(lit("unexpected EOF parsing value")),
            Some(c) => {
                if c == '{' {
                    self.parse_object()
                } else if c == '[' {
                    self.parse_array()
                } else if c == '"' {
                    match self.parse_string() {
                        Ok(t) => Ok(JsonValue::String(t)),
                        Err(e) => Err(e),
                    }
                } else if c == 't' {
                    let w = vec!['t', 'r', 'u', 'e'];
                    proof {
                        reveal_strlit("true");
                        assert(w@ =~= "true"@);
                    }
                    if self.expect_word(&w) {
                        Ok(JsonValue::Bool(true))
                    } else {
                        Err(lit("expected 'true'"))
                    }
                } else if c == 'f' {
                    let w = vec!['f', 'a', 'l', 's', 'e'];
                    proof {
                        reveal_strlit("false");
                        assert(w@ =~= "false"@);
                    }
                    if self.expect_word(&w) {
                        Ok(JsonValue::Bool(false))
                    } else {
                        Err(lit("expected 'false'"))
                    }
                } else if c == 'n' {
                    let w = vec!['n', 'u', 'l', 'l'];
                    proof {
                        reveal_strlit("null");
                        assert(w@ =~= "null"@);
                    }
                    if self.expect_word(&w) {
                        Ok(JsonValue::Null)
                    } else {
                        Err(lit("expected 'null'"))
                    }
                } else if c == '-' || ('0' <= c && c <= '9') {
                    self.parse_number()
                } else {
                    let mut m = lit("unexpected byte 0x");
                    push_hex2(&mut m, lead_byte(c));
                    push_str(&mut m, " at ");
                    let d = usize_to_string(self.bpos);
                    push_str(&mut m, d.as_str());
                    Err(m)
                }
            },
        }
    }

    #[verifier::rlimit(40)]
    fn parse_object(&mut self) -> (r: Result<JsonValue, String>)
        requires
            old(self).inv(),
        ensures
            final(self).inv(),
            final(self).src == old(self).src,
            match r {
                Ok(v) => object_at(old(self).src@, old(self).pos as int) == Ok::<(JsonModel, int), Seq<char>>((json_model(v), final(self).pos as int))
                    && final(self).pos > old(self).pos,
                Err(e) => object_at(old(self).src@, old(self).pos as int) == Err::<(JsonModel, int), Seq<char>>(e@),
            },
        decreases old(self).src@.len() - old(self).pos, 1int,
    {
        let ghost p0 = self.pos as int;
        let ghost src = self.src@;
        match self.expect('{') {
            Err(e) => {
                return Err(e);
            },
            Ok(()) => {},
        }
        proof {
            lemma_skip_ws(src, self.pos as int);
        }
        self.skip_ws();
        let mut out: Vec<(String, JsonValue)> = Vec::new();
        if self.peek_byte() == Some('}') {
            self.advance();
            proof {
                assert(json_members(out@) =~= Seq::<(Seq<char>, JsonModel)>::empty());
            }
            return Ok(JsonValue::Object(out));
        }
        proof {
            assert(json_members(out@) =~= Seq::<(Seq<char>, JsonModel)>::empty());
        }
        loop
            invariant
                self.inv(),
                self.src == old(self).src,
                src == old(self).src@,
                p0 == old(self).pos,
                self.pos > p0,
                object_at(src, p0) == members_from(src, self.pos as int, json_members(out@)),
            decreases src.len() - self.pos,
        {
            let ghost q = self.pos as int;
            proof {
                lemma_skip_ws(src, q);
            }
            self.skip_ws();
            let key = match self.parse_string() {
                Ok(k) => k,
                Err(e) => {
                    return Err(e);
                },
            };
            proof {
                lemma_skip_ws(src, self.pos as int);
            }
            self.skip_ws();
            match self.expect(':') {
                Err(e) => {
                    return Err(e);
                },
                Ok(()) => {},
            }
            let value = match self.parse_value() {
                Ok(v) => v,
                Err(e) => {
                    return Err(e);
                },
            };
            let ghost acc = json_members(out@);
            let ghost kv = (key@, json_model(value));
            let ghost prev = out@;
            out.push((key, value));
            proof {
                assert(out@.drop_last() =~= prev);
                assert(json_members(out@) == acc.push(kv));
                lemma_skip_ws(src, self.pos as int);
            }
            self.skip_ws();
            let ghost q5 = self.pos as int;
            match self.bump_byte() {
                Some(b) => {
                    if b == ',' {
                    } else if b == '}' {
                        return Ok(JsonValue::Object(out));
                    } else {
                        let mut m = lit("expected ',' or '}' in object, got '");
                        push_char(&mut m, lead_byte(b) as char);
                        push_str(&mut m, "'");
                        assert(m@ =~= "expected ',' or '}' in object, got '"@ + seq![lead_char(b)] + "'"@);
                        return Err(m);
                    }
                },
                None => {
                    return Err(lit("unexpected EOF in object"));
                },
            }
        }
    }

    fn parse_array(&mut self) -> (r: Result<JsonValue, String>)
        requires
            old(self).inv(),
        ensures
            final(self).inv(),
            final(self).src == old(self).src,
            match r {
                Ok(v) => array_at(old(self).src@, old(self).pos as int) == Ok::<(JsonModel, int), Seq<char>>((json_model(v), final(self).pos as int))
                    && final(self).pos > old(self).pos,
                Err(e) => array_at(old(self).src@, old(self).pos as int) == Err::<(JsonModel, int), Seq<char>>(e@),
            },
        decreases old(self).src@.len() - old(self).pos, 1int,
    {
        let ghost p0 = self.pos as int;
        let ghost src = self.src@;
        match self.expect('[') {
            Err(e) => {
                return Err(e);
            },
            Ok(()) => {},
        }
        proof {
            lemma_skip_ws(src, self.pos as int);
        }
        self.skip_ws();
        let mut out: Vec<JsonValue> = Vec::new();
        if self.peek_byte() == Some(']') {
            self.advance();
            proof {
                assert(json_models(out@) =~= Seq::<JsonModel>::empty());
            }
            return Ok(JsonValue::Array(out));
        }
        proof {
            assert(json_models(out@) =~= Seq::<JsonModel>::empty());
        }
        loop
            invariant
                self.inv(),
                self.src == old(self).src,
                src == old(self).src@,
                p0 == old(self).pos,
                self.pos > p0,
                array_at(src, p0) == elements_from(src, self.pos as int, json_models(out@)),
            decreases src.len() - self.pos,
        {
            let value = match self.parse_value() {
                Ok(v) => v,
                Err(e) => {
                    return Err(e);
                },
            };
            let ghost acc = json_models(out@);
            let ghost vm = json_model(value);
            let ghost prev = out@;
            out.push(value);
            proof {
                assert(out@.drop_last() =~= prev);
                assert(json_models(out@) == acc.push(vm));
                lemma_skip_ws(src, self.pos as int);
            }
            self.skip_ws();
            match self.bump_byte() {
                Some(b) => {
                    if b == ',' {
                    } else if b == ']' {
                        return Ok(JsonValue::Array(out));
                    } else {
                        let mut m = lit("expected ',' or ']' in array, got '");
                        push_char(&mut m, lead_byte(b) as char);
                        push_str(&mut m, "'");
                        assert(m@ =~= "expected ',' or ']' in array, got '"@ + seq![lead_char(b)] + "'"@);
                        return Err(m);
                    }
                },
                None => {
                    return Err(lit("unexpected EOF in array"));
                },
            }
        }
    }

    fn parse_string(&mut self) -> (r: Result<String, String>)
        requires
            old(self).inv(),
        ensures
            final(self).inv(),
            final(self).src == old(self).src,
            match r {
                Ok(t) => string_at(old(self).src@, old(self).pos as int) == Ok::<(Seq<char>, int), Seq<char>>((t@, final(self).pos as int))
                    && final(self).pos > old(self).pos,
                Err(e) => string_at(old(self).src@, old(self).pos as int) == Err::<(Seq<char>, int), Seq<char>>(e@),
            },
    {
        match self.expect('"') {
            Err(e) => {
                return Err(e);
            },
            Ok(()) => {},
        }
        let mut out = String::new();
        proof {
            lemma_string_body_advances(self.src@, self.pos as int, out@);
        }
        loop
            invariant
                self.inv(),
                self.src == old(self).src,
                self.pos > old(self).pos,
                string_at(old(self).src@, old(self).pos as int) == string_body(self.src@, self.pos as int, out@),
            decreases self.src@.len() - self.pos,
        {
            let ghost q = self.pos as int;
            match self.peek_byte() {
                None => {
                    return Err(lit("unterminated string"));
                },
                Some(c) => {
                    if c == '"' {
                        self.advance();
                        return Ok(out);
                    } else if c == '\\' {
                        self.advance();
                        match self.bump_byte() {
                            None => {
                                return Err(lit("EOF after backslash"));
                            },
                            Some(e) => {
                                if e == '"' {
                                    push_char(&mut out, '"');
                                } else if e == '\\' {
                                    push_char(&mut out, '\\');
                                } else if e == '/' {
                                    push_char(&mut out, '/');
                                } else if e == 'n' {
                                    push_char(&mut out, '\n');
                                } else if e == 'r' {
                                    push_char(&mut out, '\r');
                                } else if e == 't' {
                                    push_char(&mut out, '\t');
                                } else if e == 'b' {
                                    push_char(&mut out, '\x08');
                                } else if e == 'f' {
                                    push_char(&mut out, '\x0c');
                                } else if e == 'u' {
                                    let cp = match self.read_hex4() {
                                        Ok(v) => v,
                                        Err(m) => {
                                            return Err(m);
                                        },
                                    };
                                    if 0xD800 <= cp && cp <= 0xDBFF {
                                        let b1 = self.bump_byte();
                                        if b1 != Some('\\') {
                                            return Err(lit("invalid surrogate pair (missing low)"));
                                        }
                                        let b2 = self.bump_byte();
                                        if b2 != Some('u') {
                                            return Err(lit("invalid surrogate pair (missing low)"));
                                        }
                                        let low = match self.read_hex4() {
                                            Ok(v) => v,
                                            Err(m) => {
                                                return Err(m);
                                            },
                                        };
                                        if !(0xDC00 <= low && low <= 0xDFFF) {
                                            return Err(lit("invalid surrogate pair (low out of range)"));
                                        }
                                        let hi10 = cp - 0xD800;
                                        let lo10 = low - 0xDC00;
                                        assert((hi10 << 10u32) | lo10 == hi10 * 1024 + lo10) by (bit_vector)
                                            requires
                                                hi10 < 1024,
                                                lo10 < 1024,
                                        ;
                                        let scalar = 0x10000 + ((hi10 << 10) | lo10);
                                        match char_from_u32(scalar) {
                                            Some(ch) => push_char(&mut out, ch),
                                            None => {
                                                return Err(lit("invalid surrogate scalar"));
                                            },
                                        }
                                    } else {
                                        match char_from_u32(cp) {
                                            Some(ch) => push_char(&mut out, ch),
                                            None => {
                                                return Err(lit("invalid \\u escape"));
                                            },
                                        }
                                    }
                                } else {
                                    let mut m = lit("unknown escape \\");
                                    push_char(&mut m, lead_byte(e) as char);
                                    assert(m@ =~= "unknown escape \\"@ + seq![lead_char(e)]);
                                    return Err(m);
                                }
                            },
                        }
                    } else if (c as u32) < 0x20 {
                        let mut m = lit("control byte 0x");
                        push_hex2(&mut m, (c as u32) as u8);
                        push_str(&mut m, " in string");
                        return Err(m);
                    } else {
                        self.advance();
                        push_char(&mut out, c);
                    }
                },
            }
        }
    }
}


/// Parse one JSON request line: a single value with only whitespace
/// around it.
pub fn parse_json(input: &str) -> (r: Result<JsonValue, String>)
    ensures
        match r {
            Ok(v) => json_spec(input@) == Ok::<JsonModel, Seq<char>>(json_model(v)),
            Err(e) => json_spec(input@) == Err::<JsonModel, Seq<char>>(e@),
        },
{
    let src = chars_of(input);
    let bytes = input.as_bytes();
    let n = bytes.len();
    proof {
        assert(src@.take(src@.len() as int) =~= src@);
        assert(src@.take(0) =~= Seq::<char>::empty());
    }
    let mut c = ParseCursor { src, pos: 0, bpos: 0 };
    let v = match c.parse_value() {
        Ok(v) => v,
        Err(e) => {
            return Err(e);
        },
    };
    c.skip_ws();
    if c.pos < c.src.len() {
        let mut m = lit("trailing garbage at byte ");
        let d = usize_to_string(c.bpos);
        push_str(&mut m, d.as_str());
        return Err(m);
    }
    Ok(v)
}

} // verus!
