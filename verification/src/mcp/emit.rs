//! The compact JSON emitter of `mc mcp`, lookups on parsed values, and the
//! JSON-RPC response envelopes. A number is written as the text it holds.
use crate::escape::{escape_body, escape_char, push_quoted, quoted, EscapeSet};
use crate::mcp::{
    hex4, hex_val, is_hex, json_members, json_model, json_models, json_spec, skip_ws, string_at,
    string_body, value_at, JsonModel, JsonValue,
};
use crate::text::{hex_digit, push_char, push_str};
use vstd::utf8::is_scalar;
use vstd::prelude::*;

verus! {

// ---------------------------------------------------------------------------
// The emitted text
// ---------------------------------------------------------------------------

/// The compact JSON text of a value.
pub open spec fn emit_json(v: JsonModel) -> Seq<char>
    decreases v,
{
    match v {
        JsonModel::Null => "null"@,
        JsonModel::Bool(b) => if b {
            "true"@
        } else {
            "false"@
        },
        JsonModel::Number(t) => t,
        JsonModel::Str(s) => quoted(EscapeSet::Full, s),
        JsonModel::Array(items) => seq!['['] + emit_items(items) + seq![']'],
        JsonModel::Object(ms) => seq!['{'] + emit_members(ms) + seq!['}'],
    }
}

/// Array elements, comma-separated.
pub open spec fn emit_items(s: Seq<JsonModel>) -> Seq<char>
    decreases s,
{
    if s.len() == 0 {
        Seq::empty()
    } else if s.len() == 1 {
        emit_json(s[0])
    } else {
        emit_items(s.drop_last()) + seq![','] + emit_json(s.last())
    }
}

/// Object members `"key":value`, comma-separated.
pub open spec fn emit_members(s: Seq<(Seq<char>, JsonModel)>) -> Seq<char>
    decreases s,
{
    if s.len() == 0 {
        Seq::empty()
    } else if s.len() == 1 {
        quoted(EscapeSet::Full, s[0].0) + seq![':'] + emit_json(s[0].1)
    } else {
        emit_members(s.drop_last()) + seq![','] + quoted(EscapeSet::Full, s.last().0) + seq![':']
            + emit_json(s.last().1)
    }
}

pub proof fn lemma_json_models_len(s: Seq<JsonValue>)
    ensures
        json_models(s).len() == s.len(),
    decreases s.len(),
{
    if s.len() > 0 {
        lemma_json_models_len(s.drop_last());
    }
}

pub proof fn lemma_json_members_len(s: Seq<(String, JsonValue)>)
    ensures
        json_members(s).len() == s.len(),
    decreases s.len(),
{
    if s.len() > 0 {
        lemma_json_members_len(s.drop_last());
    }
}

/// The models of a list of values, element by element.
pub proof fn lemma_json_models_map(s: Seq<JsonValue>)
    ensures
        json_models(s) == s.map_values(|x: JsonValue| json_model(x)),
    decreases s.len(),
{
    if s.len() > 0 {
        lemma_json_models_map(s.drop_last());
        assert(s.map_values(|x: JsonValue| json_model(x)) =~= s.drop_last().map_values(
            |x: JsonValue| json_model(x),
        ).push(json_model(s.last())));
    } else {
        assert(s.map_values(|x: JsonValue| json_model(x)) =~= Seq::<JsonModel>::empty());
    }
}

/// The models of a list of members, member by member.
pub proof fn lemma_json_members_map(s: Seq<(String, JsonValue)>)
    ensures
        json_members(s) == s.map_values(|p: (String, JsonValue)| (p.0@, json_model(p.1))),
    decreases s.len(),
{
    if s.len() > 0 {
        lemma_json_members_map(s.drop_last());
        assert(s.map_values(|p: (String, JsonValue)| (p.0@, json_model(p.1))) =~= s.drop_last().map_values(
            |p: (String, JsonValue)| (p.0@, json_model(p.1)),
        ).push((s.last().0@, json_model(s.last().1))));
    } else {
        assert(s.map_values(|p: (String, JsonValue)| (p.0@, json_model(p.1))) =~= Seq::<
            (Seq<char>, JsonModel),
        >::empty());
    }
}

/// Appends the quoted, escaped JSON string literal for `s`: `"`, `\`,
/// newline, carriage return, tab, backspace and form feed get their
/// short escapes, other control characters `\u00XX`.
pub fn json_emit_string(out: &mut String, s: &str)
    ensures
        final(out)@ == old(out)@ + quoted(EscapeSet::Full, s@),
{
    push_quoted(out, EscapeSet::Full, s);
}

/// Appends the compact JSON text of `v`.
#[verifier::loop_isolation(false)]
pub fn json_emit(out: &mut String, v: &JsonValue)
    ensures
        final(out)@ == old(out)@ + emit_json(json_model(*v)),
    decreases v,
{
    let ghost start = out@;
    match v {
        JsonValue::Null => push_str(out, "null"),
        JsonValue::Bool(b) => {
            if *b {
                push_str(out, "true");
            } else {
                push_str(out, "false");
            }
        },
        JsonValue::Number(n) => push_str(out, n.as_str()),
        JsonValue::String(s) => json_emit_string(out, s.as_str()),
        JsonValue::Array(a) => {
            push_char(out, '[');
            let mut i: usize = 0;
            assert(a@.take(0) =~= Seq::<JsonValue>::empty());
            while i < a.len()
                invariant
                    i <= a@.len(),
                    out@ == start + seq!['['] + emit_items(json_models(a@.take(i as int))),
                decreases a@.len() - i,
            {
                let ghost before = out@;
                let ghost p = a@.take(i as int + 1);
                assert(p.drop_last() =~= a@.take(i as int));
                assert(p.last() == a@[i as int]);
                proof {
                    lemma_json_models_len(p);
                    lemma_json_models_len(a@.take(i as int));
                }
                let ghost prev = json_models(a@.take(i as int));
                let ghost cur = json_models(p);
                assert(cur == prev.push(json_model(a@[i as int])));
                assert(cur.drop_last() =~= prev);
                if i > 0 {
                    push_char(out, ',');
                }
                proof {
                    assert(decreases_to!(*v => (*v)->Array_0));
                    assert(decreases_to!(*a => a@));
                    assert(decreases_to!(a@ => a@[i as int]));
                }
                json_emit(out, &a[i]);
                proof {
                    if i == 0 {
                        assert(cur =~= seq![json_model(a@[0])]);
                        assert(out@ =~= start + seq!['['] + emit_items(cur));
                    } else {
                        assert(emit_items(cur) == emit_items(prev) + seq![','] + emit_json(
                            json_model(a@[i as int]),
                        ));
                        assert(out@ =~= start + seq!['['] + emit_items(cur));
                    }
                }
                i += 1;
            }
            assert(a@.take(a@.len() as int) =~= a@);
            push_char(out, ']');
            assert(out@ =~= start + emit_json(json_model(*v)));
        },
        JsonValue::Object(o) => {
            push_char(out, '{');
            let mut i: usize = 0;
            assert(o@.take(0) =~= Seq::<(String, JsonValue)>::empty());
            while i < o.len()
                invariant
                    i <= o@.len(),
                    out@ == start + seq!['{'] + emit_members(json_members(o@.take(i as int))),
                decreases o@.len() - i,
            {
                let ghost p = o@.take(i as int + 1);
                assert(p.drop_last() =~= o@.take(i as int));
                assert(p.last() == o@[i as int]);
                proof {
                    lemma_json_members_len(p);
                    lemma_json_members_len(o@.take(i as int));
                }
                let ghost prev = json_members(o@.take(i as int));
                let ghost cur = json_members(p);
                assert(cur == prev.push((o@[i as int].0@, json_model(o@[i as int].1))));
                assert(cur.drop_last() =~= prev);
                if i > 0 {
                    push_char(out, ',');
                }
                let (k, x) = &o[i];
                json_emit_string(out, k.as_str());
                push_char(out, ':');
                proof {
                    assert(decreases_to!(*v => (*v)->Object_0));
                    assert(decreases_to!(*o => o@));
                    assert(decreases_to!(o@ => o@[i as int]));
                    assert(decreases_to!(o@[i as int] => o@[i as int].1));
                }
                json_emit(out, x);
                proof {
                    if i == 0 {
                        assert(cur =~= seq![(k@, json_model(*x))]);
                        assert(out@ =~= start + seq!['{'] + emit_members(cur));
                    } else {
                        assert(emit_members(cur) == emit_members(prev) + seq![','] + quoted(
                            EscapeSet::Full,
                            k@,
                        ) + seq![':'] + emit_json(json_model(*x)));
                        assert(out@ =~= start + seq!['{'] + emit_members(cur));
                    }
                }
                i += 1;
            }
            assert(o@.take(o@.len() as int) =~= o@);
            push_char(out, '}');
            assert(out@ =~= start + emit_json(json_model(*v)));
        },
    }
    proof {
        reveal_strlit("null");
        reveal_strlit("true");
        reveal_strlit("false");
    }
}

// ---------------------------------------------------------------------------
// Reading back what was written
// ---------------------------------------------------------------------------

pub proof fn lemma_escape_body_concat(set: EscapeSet, a: Seq<char>, b: Seq<char>)
    ensures
        escape_body(set, a + b) == escape_body(set, a) + escape_body(set, b),
    decreases b.len(),
{
    if b.len() == 0 {
        assert(a + b =~= a);
    } else {
        assert((a + b).drop_last() =~= a + b.drop_last());
        assert((a + b).last() == b.last());
        lemma_escape_body_concat(set, a, b.drop_last());
    }
}

/// The escaped body, read from the front.
pub proof fn lemma_escape_body_front(set: EscapeSet, t: Seq<char>)
    requires
        t.len() > 0,
    ensures
        escape_body(set, t) == escape_char(set, t[0]) + escape_body(set, t.drop_first()),
{
    let one = seq![t[0]];
    lemma_escape_body_concat(set, one, t.drop_first());
    assert(one + t.drop_first() =~= t);
    assert(one.drop_last() =~= Seq::<char>::empty());
    assert(escape_body(set, one.drop_last()) =~= Seq::<char>::empty());
    assert(escape_body(set, one) =~= escape_char(set, t[0]));
}

proof fn lemma_hex_digit_reads_back(d: nat)
    requires
        d < 16,
    ensures
        is_hex(hex_digit(d)),
        hex_val(hex_digit(d)) == d,
{
}

/// One escaped character is read back as that character.
proof fn lemma_char_reads_back(src: Seq<char>, q: int, c: char, acc: Seq<char>)
    requires
        0 <= q,
        q + escape_char(EscapeSet::Full, c).len() <= src.len(),
        src.subrange(q, q + escape_char(EscapeSet::Full, c).len()) == escape_char(
            EscapeSet::Full,
            c,
        ),
    ensures
        string_body(src, q, acc) == string_body(
            src,
            q + escape_char(EscapeSet::Full, c).len(),
            acc.push(c),
        ),
{
    let e = escape_char(EscapeSet::Full, c);
    assert forall|j: int| 0 <= j < e.len() implies src[q + j] == e[j] by {
        assert(src.subrange(q, q + e.len())[j] == src[q + j]);
    }
    if c == '"' || c == '\\' || c == '\n' || c == '\r' || c == '\t' || c == '\x08' || c == '\x0c' {
        assert(src[q] == '\\');
    } else if (c as u32) < 0x20 {
        let u = c as u32;
        lemma_hex_digit_reads_back((u / 16) as nat);
        lemma_hex_digit_reads_back((u % 16) as nat);
        assert(src[q] == '\\');
        assert(src[q + 1] == 'u');
        assert(src[q + 2] == '0' && src[q + 3] == '0');
        assert(hex4(src, q + 2) == Some(u));
        assert(is_scalar(u));
        assert(u as char == c);
    } else {
        assert(e =~= seq![c]);
        assert(src.subrange(q, q + 1)[0] == src[q]);
    }
}

/// An escaped body followed by a closing quote reads back as the text.
pub proof fn lemma_body_reads_back(src: Seq<char>, q: int, t: Seq<char>, acc: Seq<char>)
    requires
        0 <= q,
        q + escape_body(EscapeSet::Full, t).len() < src.len(),
        src.subrange(q, q + escape_body(EscapeSet::Full, t).len()) == escape_body(
            EscapeSet::Full,
            t,
        ),
        src[q + escape_body(EscapeSet::Full, t).len()] == '"',
    ensures
        string_body(src, q, acc) == Ok::<(Seq<char>, int), Seq<char>>(
            (acc + t, q + escape_body(EscapeSet::Full, t).len() + 1),
        ),
    decreases t.len(),
{
    let eb = escape_body(EscapeSet::Full, t);
    if t.len() == 0 {
        assert(acc + t =~= acc);
    } else {
        let c = t[0];
        let e = escape_char(EscapeSet::Full, c);
        let rest = t.drop_first();
        lemma_escape_body_front(EscapeSet::Full, t);
        let er = escape_body(EscapeSet::Full, rest);
        assert(eb.subrange(0, e.len() as int) =~= e);
        assert(eb.subrange(e.len() as int, eb.len() as int) =~= er);
        assert(src.subrange(q, q + e.len()) =~= eb.subrange(0, e.len() as int));
        assert(src.subrange(q + e.len(), q + e.len() + er.len()) =~= eb.subrange(
            e.len() as int,
            eb.len() as int,
        ));
        lemma_char_reads_back(src, q, c, acc);
        lemma_body_reads_back(src, q + e.len(), rest, acc.push(c));
        assert(acc.push(c) + rest =~= acc + t);
    }
}

/// A string literal written by the emitter is read back by the reader as
/// the same text, and the read stops right after the literal, whatever
/// follows it: `json_emit_string` appends `quoted(EscapeSet::Full, s)`,
/// and the reader's string step (`ParseCursor::parse_string`, started at
/// the opening quote) returns what `string_at` gives, here `s` with the
/// cursor at the end of the literal.
pub proof fn law_string_literal_reads_back(s: Seq<char>, rest: Seq<char>)
    ensures
        string_at(quoted(EscapeSet::Full, s) + rest, 0) == Ok::<(Seq<char>, int), Seq<char>>(
            (s, quoted(EscapeSet::Full, s).len() as int),
        ),
{
    let src = quoted(EscapeSet::Full, s) + rest;
    let eb = escape_body(EscapeSet::Full, s);
    assert(src[0] == '"');
    assert(src.subrange(1, 1 + eb.len() as int) =~= eb);
    assert(src[1 + eb.len() as int] == '"');
    lemma_body_reads_back(src, 1, s, Seq::empty());
    assert(Seq::<char>::empty() + s =~= s);
}

/// A request line holding just an emitted string parses to that string
/// (`parse_json` returns what `json_spec` gives).
pub proof fn law_emitted_string_parses(s: Seq<char>)
    ensures
        json_spec(quoted(EscapeSet::Full, s)) == Ok::<JsonModel, Seq<char>>(JsonModel::Str(s)),
{
    let src = quoted(EscapeSet::Full, s);
    law_string_literal_reads_back(s, Seq::empty());
    assert(src + Seq::<char>::empty() =~= src);
    assert(skip_ws(src, 0) == 0);
    assert(value_at(src, 0) == Ok::<(JsonModel, int), Seq<char>>(
        (JsonModel::Str(s), src.len() as int),
    ));
}

} // verus!
