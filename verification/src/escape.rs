//! JSON string-literal escaping. The command emitters use three escape
//! sets that differ only in which control characters get a short
//! two-character escape; every other control character below U+0020
//! becomes `\u00XX` with lower-case hex digits.
use crate::text::{hex_digit, push_char, push_str};
use vstd::prelude::*;

verus! {

/// Which control characters get a two-character escape.
#[derive(Debug, Clone, Copy, PartialEq, Eq, Structural)]
pub enum EscapeSet {
    /// `\"`, `\\`, `\n` only.
    Minimal,
    /// `\"`, `\\`, `\n`, `\r`, `\t`.
    Common,
    /// `\"`, `\\`, `\n`, `\r`, `\t`, `\b`, `\f`.
    Full,
}

/// `\u00XX` for a control character below U+0020.
pub open spec fn unicode_escape(c: char) -> Seq<char> {
    seq!['\\', 'u', '0', '0', hex_digit((c as u32 / 16) as nat), hex_digit((c as u32 % 16) as nat)]
}

/// The escaped form of one character.
pub open spec fn escape_char(set: EscapeSet, c: char) -> Seq<char> {
    if c == '"' {
        seq!['\\', '"']
    } else if c == '\\' {
        seq!['\\', '\\']
    } else if c == '\n' {
        seq!['\\', 'n']
    } else if c == '\r' && set != EscapeSet::Minimal {
        seq!['\\', 'r']
    } else if c == '\t' && set != EscapeSet::Minimal {
        seq!['\\', 't']
    } else if c == '\x08' && set == EscapeSet::Full {
        seq!['\\', 'b']
    } else if c == '\x0c' && set == EscapeSet::Full {
        seq!['\\', 'f']
    } else if (c as u32) < 0x20 {
        unicode_escape(c)
    } else {
        seq![c]
    }
}

/// The escaped body of a string (without the surrounding quotes).
pub open spec fn escape_body(set: EscapeSet, s: Seq<char>) -> Seq<char>
    decreases s.len(),
{
    if s.len() == 0 {
        Seq::<char>::empty()
    } else {
        escape_body(set, s.drop_last()) + escape_char(set, s.last())
    }
}

/// The quoted JSON string literal for `s`.
pub open spec fn quoted(set: EscapeSet, s: Seq<char>) -> Seq<char> {
    seq!['"'] + escape_body(set, s) + seq!['"']
}

fn hex_char(d: u32) -> (c: char)
    requires
        d < 16,
    ensures
        c == hex_digit(d as nat),
{
    if d < 10 {
        let b = (d as u8) + 48u8;
        b as char
    } else {
        let b = (d as u8) - 10 + 97u8;
        b as char
    }
}

/// Appends the escaped form of one character.
pub fn push_escaped_char(out: &mut String, set: EscapeSet, c: char)
    ensures
        final(out)@ == old(out)@ + escape_char(set, c),
{
    proof {
        reveal_strlit("\\\"");
        reveal_strlit("\\\\");
        reveal_strlit("\\n");
        reveal_strlit("\\r");
        reveal_strlit("\\t");
        reveal_strlit("\\b");
        reveal_strlit("\\f");
        reveal_strlit("\\u00");
    }
    if c == '"' {
        push_str(out, "\\\"");
    } else if c == '\\' {
        push_str(out, "\\\\");
    } else if c == '\n' {
        push_str(out, "\\n");
    } else if c == '\r' && set != EscapeSet::Minimal {
        push_str(out, "\\r");
    } else if c == '\t' && set != EscapeSet::Minimal {
        push_str(out, "\\t");
    } else if c == '\x08' && set == EscapeSet::Full {
        push_str(out, "\\b");
    } else if c == '\x0c' && set == EscapeSet::Full {
        push_str(out, "\\f");
    } else if (c as u32) < 0x20 {
        let u = c as u32;
        let ghost before = out@;
        push_str(out, "\\u00");
        push_char(out, hex_char(u / 16));
        push_char(out, hex_char(u % 16));
        assert(out@ =~= before + unicode_escape(c));
    } else {
        push_char(out, c);
        assert(out@ =~= old(out)@ + seq![c]);
    }
}

/// Appends the escaped body of `s` (no quotes).
pub fn push_escaped_body(out: &mut String, set: EscapeSet, s: &str)
    ensures
        final(out)@ == old(out)@ + escape_body(set, s@),
{
    let ghost start = out@;
    assert(s@.take(0) =~= Seq::<char>::empty());
    for c in it: s.chars()
        invariant
            out@ == start + escape_body(set, it.seq().take(it.index() as int)),
            it.seq() == s@,
    {
        let ghost k = it.index();
        push_escaped_char(out, set, c);
        proof {
            let p = it.seq().take(k + 1);
            assert(p.drop_last() =~= it.seq().take(k as int));
            assert(p.last() == c);
            assert(out@ =~= start + escape_body(set, p));
        }
    }
    assert(s@.take(s@.len() as int) =~= s@);
}

/// Appends the quoted, escaped JSON string literal for `s`.
pub fn push_quoted(out: &mut String, set: EscapeSet, s: &str)
    ensures
        final(out)@ == old(out)@ + quoted(set, s@),
{
    push_char(out, '"');
    push_escaped_body(out, set, s);
    push_char(out, '"');
    assert(out@ =~= old(out)@ + quoted(set, s@));
}

} // verus!
