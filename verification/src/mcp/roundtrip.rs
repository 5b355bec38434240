//! What the emitter writes, the reader reads back: any value whose numbers
//! are number texts the reader accepts parses from its compact text to
//! itself.
use crate::escape::{escape_body, quoted, EscapeSet};
use crate::mcp::emit::{emit_items, emit_json, emit_members, lemma_body_reads_back};
use crate::mcp::{
    array_at, digit_run_end, elements_from, float_text_ok, is_json_ws, json_spec, members_from,
    number_at, number_end, object_at, skip_ws, string_at, value_at, word_at, JsonModel,
};
use crate::text::is_digit;
use vstd::prelude::*;

verus! {

/// A number text the reader takes whole: it starts like a number, the
/// number scan ends at its end, and `f64::from_str` accepts it.
pub open spec fn number_text(t: Seq<char>) -> bool {
    &&& t.len() > 0
    &&& (t[0] == '-' || is_digit(t[0]))
    &&& number_end(t, 0) == t.len()
    &&& float_text_ok(t)
}

/// Every number in the value is a [`number_text`].
pub open spec fn json_ok(v: JsonModel) -> bool
    decreases v,
{
    match v {
        JsonModel::Number(t) => number_text(t),
        JsonModel::Array(items) => items_ok(items),
        JsonModel::Object(ms) => members_ok(ms),
        _ => true,
    }
}

pub open spec fn items_ok(s: Seq<JsonModel>) -> bool
    decreases s,
{
    s.len() == 0 || (json_ok(s[0]) && items_ok(s.drop_first()))
}

pub open spec fn members_ok(s: Seq<(Seq<char>, JsonModel)>) -> bool
    decreases s,
{
    s.len() == 0 || (json_ok(s[0].1) && members_ok(s.drop_first()))
}

/// A character that may follow a value inside an array or object.
pub open spec fn closes(c: char) -> bool {
    c == ',' || c == ']' || c == '}'
}

/// Array elements read from the front.
proof fn lemma_items_front(s: Seq<JsonModel>)
    requires
        s.len() > 0,
    ensures
        emit_items(s) == emit_json(s[0]) + (if s.len() > 1 {
            seq![','] + emit_items(s.drop_first())
        } else {
            Seq::<char>::empty()
        }),
    decreases s.len(),
{
    if s.len() == 1 {
        assert(emit_json(s[0]) + Seq::<char>::empty() =~= emit_json(s[0]));
    } else if s.len() == 2 {
        assert(s.drop_last() =~= seq![s[0]]);
        assert(s.drop_first() =~= seq![s[1]]);
        assert(emit_items(s.drop_last()) == emit_json(s[0]));
        assert(emit_items(s.drop_first()) == emit_json(s[1]));
        assert(emit_items(s) =~= emit_json(s[0]) + (seq![','] + emit_items(s.drop_first())));
    } else {
        let p = s.drop_last();
        lemma_items_front(p);
        assert(p.drop_first() =~= s.drop_first().drop_last());
        assert(s.drop_first().last() == s.last());
        assert(p[0] == s[0]);
        assert(emit_items(s) =~= emit_json(s[0]) + (seq![','] + emit_items(s.drop_first())));
    }
}

/// Object members read from the front.
proof fn lemma_members_front(s: Seq<(Seq<char>, JsonModel)>)
    requires
        s.len() > 0,
    ensures
        emit_members(s) == quoted(EscapeSet::Full, s[0].0) + seq![':'] + emit_json(s[0].1) + (if s.len()
            > 1 {
            seq![','] + emit_members(s.drop_first())
        } else {
            Seq::<char>::empty()
        }),
    decreases s.len(),
{
    let head = quoted(EscapeSet::Full, s[0].0) + seq![':'] + emit_json(s[0].1);
    if s.len() == 1 {
        assert(head + Seq::<char>::empty() =~= head);
    } else if s.len() == 2 {
        assert(s.drop_last() =~= seq![s[0]]);
        assert(s.drop_first() =~= seq![s[1]]);
        assert(emit_members(s.drop_last()) == head);
        assert(emit_members(s.drop_first()) == quoted(EscapeSet::Full, s[1].0) + seq![':']
            + emit_json(s[1].1));
        assert(emit_members(s) =~= head + (seq![','] + emit_members(s.drop_first())));
    } else {
        let p = s.drop_last();
        lemma_members_front(p);
        assert(p.drop_first() =~= s.drop_first().drop_last());
        assert(s.drop_first().last() == s.last());
        assert(p[0] == s[0]);
        assert(emit_members(s) =~= head + (seq![','] + emit_members(s.drop_first())));
    }
}

/// An emitted value is not empty and starts with a character that tells
/// its kind (and is not whitespace).
proof fn lemma_emit_start(v: JsonModel)
    requires
        json_ok(v),
    ensures
        emit_json(v).len() > 0,
        !is_json_ws(emit_json(v)[0]),
        emit_json(v)[0] != ']' && emit_json(v)[0] != '}',
        match v {
            JsonModel::Null => emit_json(v)[0] == 'n',
            JsonModel::Bool(b) => emit_json(v)[0] == (if b { 't' } else { 'f' }),
            JsonModel::Number(t) => emit_json(v)[0] == t[0],
            JsonModel::Str(_) => emit_json(v)[0] == '"',
            JsonModel::Array(_) => emit_json(v)[0] == '[',
            JsonModel::Object(_) => emit_json(v)[0] == '{',
        },
{
    reveal_strlit("null");
    reveal_strlit("true");
    reveal_strlit("false");
}

/// Digit runs inside an embedded text end where they end in the text,
/// when what follows the text is no digit.
proof fn lemma_digit_run_shift(src: Seq<char>, t: Seq<char>, p: int, x: int)
    requires
        0 <= p,
        p + t.len() <= src.len(),
        src.subrange(p, p + t.len()) == t,
        p + t.len() == src.len() || !is_digit(src[p + t.len()]),
        p <= x <= p + t.len(),
    ensures
        digit_run_end(src, x) == p + digit_run_end(t, x - p),
    decreases p + t.len() - x,
{
    if x < p + t.len() {
        assert(src[x] == src.subrange(p, p + t.len())[x - p]);
        if is_digit(src[x]) {
            lemma_digit_run_shift(src, t, p, x + 1);
        }
    }
}

/// A number text embedded in a longer text, and followed by a closing
/// character or nothing, scans to its own end.
proof fn lemma_number_shift(src: Seq<char>, t: Seq<char>, p: int)
    requires
        number_text(t),
        0 <= p,
        p + t.len() <= src.len(),
        src.subrange(p, p + t.len()) == t,
        p + t.len() == src.len() || closes(src[p + t.len()]),
    ensures
        number_end(src, p) == p + t.len(),
{
    let n = t.len() as int;
    assert forall|j: int| 0 <= j < n implies src[p + j] == t[j] by {
        assert(src.subrange(p, p + n)[j] == src[p + j]);
    }
    let a = if 0 <= p < src.len() && src[p] == '-' { p + 1 } else { p };
    let at = if 0 < t.len() && t[0] == '-' { 1int } else { 0int };
    assert(a == p + at);
    lemma_digit_run_shift(src, t, p, a);
    crate::mcp::lemma_digit_run(t, at);
    let i = digit_run_end(src, a);
    let it = digit_run_end(t, at);
    assert(i == p + it);
    let f = if i < src.len() && src[i] == '.' { digit_run_end(src, i + 1) } else { i };
    let ft = if it < t.len() && t[it] == '.' { digit_run_end(t, it + 1) } else { it };
    if it < n && t[it] == '.' {
        lemma_digit_run_shift(src, t, p, i + 1);
        crate::mcp::lemma_digit_run(t, it + 1);
    }
    assert(f == p + ft);
    if it < n && t[it] == '.' {
    } else {
        crate::mcp::lemma_digit_run(t, at);
    }
    if ft < n && (t[ft] == 'e' || t[ft] == 'E') {
        let e0t = if ft + 1 < n && (t[ft + 1] == '+' || t[ft + 1] == '-') { ft + 2 } else { ft + 1 };
        let e0 = if f + 1 < src.len() && (src[f + 1] == '+' || src[f + 1] == '-') { f + 2 } else { f + 1 };
        assert(e0 == p + e0t);
        crate::mcp::lemma_digit_run(t, e0t);
        lemma_digit_run_shift(src, t, p, e0);
    }
}

/// An emitted value embedded at `p` and followed by a closing character
/// or nothing is read back as itself, ending right after its text.
#[verifier::rlimit(80)]
proof fn lemma_value_reads_back(src: Seq<char>, p: int, v: JsonModel)
    requires
        json_ok(v),
        0 <= p,
        p + emit_json(v).len() <= src.len(),
        src.subrange(p, p + emit_json(v).len()) == emit_json(v),
        p + emit_json(v).len() == src.len() || closes(src[p + emit_json(v).len()]),
    ensures
        value_at(src, p) == Ok::<(JsonModel, int), Seq<char>>((v, p + emit_json(v).len())),
    decreases v,
{
    let e = emit_json(v);
    let n = e.len() as int;
    assert forall|j: int| 0 <= j < n implies src[p + j] == e[j] by {
        assert(src.subrange(p, p + n)[j] == src[p + j]);
    }
    lemma_emit_start(v);
    assert(src[p] == e[0]);
    assert(skip_ws(src, p) == p);
    reveal_strlit("null");
    reveal_strlit("true");
    reveal_strlit("false");
    match v {
        JsonModel::Null => {
            assert(word_at(src, p, "null"@));
        },
        JsonModel::Bool(b) => {
            if b {
                assert(word_at(src, p, "true"@));
            } else {
                assert(word_at(src, p, "false"@));
            }
        },
        JsonModel::Number(t) => {
            lemma_number_shift(src, t, p);
            assert(src.subrange(p, p + n) == t);
            assert(number_at(src, p) == Ok::<(JsonModel, int), Seq<char>>(
                (JsonModel::Number(t), p + n),
            ));
        },
        JsonModel::Str(s) => {
            let eb = escape_body(EscapeSet::Full, s);
            assert(src.subrange(p + 1, p + 1 + eb.len()) =~= eb) by {
                assert forall|j: int| 0 <= j < eb.len() implies src.subrange(
                    p + 1,
                    p + 1 + eb.len(),
                )[j] == eb[j] by {
                    assert(e[1 + j] == eb[j]);
                }
            }
            assert(src[p + 1 + eb.len()] == e[1 + eb.len() as int]);
            lemma_body_reads_back(src, p + 1, s, Seq::empty());
            assert(Seq::<char>::empty() + s =~= s);
            assert(string_at(src, p) == Ok::<(Seq<char>, int), Seq<char>>((s, p + n)));
        },
        JsonModel::Array(items) => {
            assert(decreases_to!(v => items));
            let body = emit_items(items);
            if items.len() == 0 {
                assert(e =~= seq!['[', ']']);
                assert(skip_ws(src, p + 1) == p + 1);
            } else {
                lemma_items_front(items);
                lemma_emit_start(items[0]);
                assert(src[p + 1] == e[1]);
                assert(e[1] == emit_json(items[0])[0]);
                assert(skip_ws(src, p + 1) == p + 1);
                assert(src.subrange(p + 1, p + 1 + body.len()) =~= body) by {
                    assert forall|j: int| 0 <= j < body.len() implies src.subrange(
                        p + 1,
                        p + 1 + body.len(),
                    )[j] == body[j] by {
                        assert(e[1 + j] == body[j]);
                    }
                }
                assert(src[p + 1 + body.len()] == e[1 + body.len() as int]);
                lemma_items_read_back(src, p + 1, items, Seq::empty());
                assert(Seq::<JsonModel>::empty() + items =~= items);
            }
            assert(array_at(src, p) == Ok::<(JsonModel, int), Seq<char>>((v, p + n)));
        },
        JsonModel::Object(ms) => {
            assert(decreases_to!(v => ms));
            let body = emit_members(ms);
            if ms.len() == 0 {
                assert(e =~= seq!['{', '}']);
                assert(skip_ws(src, p + 1) == p + 1);
            } else {
                lemma_members_front(ms);
                assert(src[p + 1] == e[1]);
                assert(e[1] == '"');
                assert(skip_ws(src, p + 1) == p + 1);
                assert(src.subrange(p + 1, p + 1 + body.len()) =~= body) by {
                    assert forall|j: int| 0 <= j < body.len() implies src.subrange(
                        p + 1,
                        p + 1 + body.len(),
                    )[j] == body[j] by {
                        assert(e[1 + j] == body[j]);
                    }
                }
                assert(src[p + 1 + body.len()] == e[1 + body.len() as int]);
                lemma_members_read_back(src, p + 1, ms, Seq::empty());
                assert(Seq::<(Seq<char>, JsonModel)>::empty() + ms =~= ms);
            }
            assert(object_at(src, p) == Ok::<(JsonModel, int), Seq<char>>((v, p + n)));
        },
    }
}

/// Emitted array elements, followed by `]`, are read back in order.
proof fn lemma_items_read_back(src: Seq<char>, q: int, t: Seq<JsonModel>, acc: Seq<JsonModel>)
    requires
        items_ok(t),
        t.len() > 0,
        0 <= q,
        q + emit_items(t).len() < src.len(),
        src.subrange(q, q + emit_items(t).len()) == emit_items(t),
        src[q + emit_items(t).len()] == ']',
    ensures
        elements_from(src, q, acc) == Ok::<(JsonModel, int), Seq<char>>(
            (JsonModel::Array(acc + t), q + emit_items(t).len() + 1),
        ),
    decreases t,
{
    let body = emit_items(t);
    let n = body.len() as int;
    assert forall|j: int| 0 <= j < n implies src[q + j] == body[j] by {
        assert(src.subrange(q, q + n)[j] == src[q + j]);
    }
    lemma_items_front(t);
    let h = emit_json(t[0]);
    let m = h.len() as int;
    lemma_emit_start(t[0]);
    assert(src.subrange(q, q + m) =~= h) by {
        assert forall|j: int| 0 <= j < m implies src.subrange(q, q + m)[j] == h[j] by {
            assert(body[j] == h[j]);
        }
    }
    assert(src[q + m] == (if t.len() > 1 { ',' } else { ']' })) by {
        if t.len() > 1 {
            assert(body[m] == ',');
        }
    }
    lemma_value_reads_back(src, q, t[0]);
    assert(skip_ws(src, q + m) == q + m);
    if t.len() > 1 {
        let rest = t.drop_first();
        let rb = emit_items(rest);
        assert(n == m + 1 + rb.len());
        assert(src.subrange(q + m + 1, q + m + 1 + rb.len()) =~= rb) by {
            assert forall|j: int| 0 <= j < rb.len() implies src.subrange(
                q + m + 1,
                q + m + 1 + rb.len(),
            )[j] == rb[j] by {
                assert(body[m + 1 + j] == rb[j]);
            }
        }
        lemma_items_read_back(src, q + m + 1, rest, acc.push(t[0]));
        assert(acc.push(t[0]) + rest =~= acc + t);
    } else {
        assert(acc.push(t[0]) =~= acc + t);
    }
}

/// Emitted object members, followed by `}`, are read back in order.
#[verifier::rlimit(80)]
proof fn lemma_members_read_back(
    src: Seq<char>,
    q: int,
    t: Seq<(Seq<char>, JsonModel)>,
    acc: Seq<(Seq<char>, JsonModel)>,
)
    requires
        members_ok(t),
        t.len() > 0,
        0 <= q,
        q + emit_members(t).len() < src.len(),
        src.subrange(q, q + emit_members(t).len()) == emit_members(t),
        src[q + emit_members(t).len()] == '}',
    ensures
        members_from(src, q, acc) == Ok::<(JsonModel, int), Seq<char>>(
            (JsonModel::Object(acc + t), q + emit_members(t).len() + 1),
        ),
    decreases t,
{
    let body = emit_members(t);
    let n = body.len() as int;
    assert forall|j: int| 0 <= j < n implies src[q + j] == body[j] by {
        assert(src.subrange(q, q + n)[j] == src[q + j]);
    }
    lemma_members_front(t);
    let k = t[0].0;
    let kq = quoted(EscapeSet::Full, k);
    let kb = escape_body(EscapeSet::Full, k);
    let h = emit_json(t[0].1);
    let c = kq.len() as int;
    let m = h.len() as int;
    assert(kq[0] == '"');
    assert(body[0] == kq[0]);
    assert(src[q] == '"');
    assert(skip_ws(src, q) == q);
    assert(src.subrange(q + 1, q + 1 + kb.len()) =~= kb) by {
        assert forall|j: int| 0 <= j < kb.len() implies src.subrange(q + 1, q + 1 + kb.len())[j]
            == kb[j] by {
            assert(body[1 + j] == kq[1 + j]);
        }
    }
    assert(src[q + 1 + kb.len()] == '"') by {
        assert(body[1 + kb.len() as int] == kq[1 + kb.len() as int]);
    }
    lemma_body_reads_back(src, q + 1, k, Seq::empty());
    assert(Seq::<char>::empty() + k =~= k);
    assert(string_at(src, q) == Ok::<(Seq<char>, int), Seq<char>>((k, q + c)));
    assert(src[q + c] == ':') by {
        assert(body[c] == ':');
    }
    assert(skip_ws(src, q + c) == q + c);
    lemma_emit_start(t[0].1);
    assert(src.subrange(q + c + 1, q + c + 1 + m) =~= h) by {
        assert forall|j: int| 0 <= j < m implies src.subrange(q + c + 1, q + c + 1 + m)[j]
            == h[j] by {
            assert(body[c + 1 + j] == h[j]);
        }
    }
    assert(src[q + c + 1 + m] == (if t.len() > 1 { ',' } else { '}' })) by {
        if t.len() > 1 {
            assert(body[c + 1 + m] == ',');
        } else {
            assert(n == c + 1 + m);
        }
    }
    assert(decreases_to!(t => t[0]));
    assert(decreases_to!(t[0] => t[0].1));
    lemma_value_reads_back(src, q + c + 1, t[0].1);
    assert(skip_ws(src, q + c + 1 + m) == q + c + 1 + m);
    if t.len() > 1 {
        let rest = t.drop_first();
        let rb = emit_members(rest);
        assert(n == c + 1 + m + 1 + rb.len());
        assert(src.subrange(q + c + m + 2, q + c + m + 2 + rb.len()) =~= rb) by {
            assert forall|j: int| 0 <= j < rb.len() implies src.subrange(
                q + c + m + 2,
                q + c + m + 2 + rb.len(),
            )[j] == rb[j] by {
                assert(body[c + m + 2 + j] == rb[j]);
            }
        }
        lemma_members_read_back(src, q + c + m + 2, rest, acc.push((k, t[0].1)));
        assert(acc.push((k, t[0].1)) + rest =~= acc + t);
    } else {
        assert(acc.push((k, t[0].1)) =~= acc + t);
    }
}

/// What the emitter writes for a value, the reader reads back as that
/// value, for every value whose numbers are number texts the reader
/// accepts.
pub proof fn law_emitted_json_parses(v: JsonModel)
    requires
        json_ok(v),
    ensures
        json_spec(emit_json(v)) == Ok::<JsonModel, Seq<char>>(v),
{
    let src = emit_json(v);
    assert(src.subrange(0, src.len() as int) =~= src);
    lemma_value_reads_back(src, 0, v);
    assert(skip_ws(src, src.len() as int) == src.len());
}

} // verus!
