//! Coordinate strings read back: joining `key=value` pairs with commas and
//! parsing the result gives back the pairs, when no key holds `,` or `=`,
//! no value holds `,`, and neither has whitespace at its ends.
use crate::coord_map::{as_map, lemma_insert_is_map_insert, sorted_keys};
use crate::query::{coord_entries, coord_pieces};
use crate::text::{find_char, is_ws, join, lemma_find_char_found, split_on, trim, trim_end, trim_start};
use vstd::prelude::*;

verus! {

/// `key=value`.
pub open spec fn pair_text(p: (Seq<char>, Seq<char>)) -> Seq<char> {
    p.0 + seq!['='] + p.1
}

/// The pairs written as a coordinate string.
pub open spec fn coord_text(pairs: Seq<(Seq<char>, Seq<char>)>) -> Seq<char> {
    join(pairs.map_values(|p: (Seq<char>, Seq<char>)| pair_text(p)), seq![','])
}

/// The map the pairs set, a later pair for a key winning.
pub open spec fn pairs_map(pairs: Seq<(Seq<char>, Seq<char>)>) -> Map<Seq<char>, Seq<char>>
    decreases pairs.len(),
{
    if pairs.len() == 0 {
        Map::empty()
    } else {
        pairs_map(pairs.drop_last()).insert(pairs.last().0, pairs.last().1)
    }
}

/// A pair that reads back from its text.
pub open spec fn plain_pair(p: (Seq<char>, Seq<char>)) -> bool {
    &&& !p.0.contains(',') && !p.0.contains('=') && !p.1.contains(',')
    &&& trim(p.0) == p.0 && trim(p.1) == p.1
}

proof fn lemma_trim_start_len(s: Seq<char>)
    ensures
        trim_start(s).len() <= s.len(),
        (s.len() > 0 && is_ws(s[0])) ==> trim_start(s).len() < s.len(),
    decreases s.len(),
{
    if s.len() > 0 && is_ws(s[0]) {
        lemma_trim_start_len(s.drop_first());
    }
}

proof fn lemma_trim_end_len(s: Seq<char>)
    ensures
        trim_end(s).len() <= s.len(),
        (s.len() > 0 && is_ws(s.last())) ==> trim_end(s).len() < s.len(),
    decreases s.len(),
{
    if s.len() > 0 && is_ws(s.last()) {
        lemma_trim_end_len(s.drop_last());
    }
}

/// A text equal to its trim has no whitespace at either end.
proof fn lemma_trimmed_ends(s: Seq<char>)
    requires
        trim(s) == s,
    ensures
        s.len() > 0 ==> !is_ws(s[0]) && !is_ws(s.last()),
{
    lemma_trim_start_len(s);
    lemma_trim_end_len(trim_start(s));
    if s.len() > 0 && !is_ws(s[0]) {
        assert(trim_start(s) == s);
        lemma_trim_end_len(s);
    }
}

proof fn lemma_split_no_sep(b: Seq<char>, sep: char)
    requires
        !b.contains(sep),
    ensures
        split_on(b, sep) == seq![b],
    decreases b.len(),
{
    if b.len() > 0 {
        assert(!b.drop_last().contains(sep)) by {
            if b.drop_last().contains(sep) {
                let w = choose|w: int| 0 <= w < b.drop_last().len() && b.drop_last()[w] == sep;
                assert(b[w] == sep);
            }
        }
        lemma_split_no_sep(b.drop_last(), sep);
        assert(b.last() != sep) by {
            assert(b[b.len() - 1] == b.last());
        }
        assert(b.drop_last().push(b.last()) =~= b);
        assert(seq![b.drop_last()].update(0, b) =~= seq![b]);
    } else {
        assert(b =~= Seq::<char>::empty());
    }
}

proof fn lemma_split_after_sep(a: Seq<char>, b: Seq<char>, sep: char)
    requires
        !b.contains(sep),
    ensures
        split_on(a + seq![sep] + b, sep) == split_on(a, sep).push(b),
    decreases b.len(),
{
    let s = a + seq![sep] + b;
    if b.len() == 0 {
        assert(s.drop_last() =~= a);
        assert(s.last() == sep);
        assert(b =~= Seq::<char>::empty());
    } else {
        let b0 = b.drop_last();
        assert(!b0.contains(sep)) by {
            if b0.contains(sep) {
                let w = choose|w: int| 0 <= w < b0.len() && b0[w] == sep;
                assert(b[w] == sep);
            }
        }
        lemma_split_after_sep(a, b0, sep);
        assert(s.drop_last() =~= a + seq![sep] + b0);
        assert(s.last() == b.last());
        assert(b.last() != sep) by {
            assert(b[b.len() - 1] == b.last());
        }
        let rest = split_on(a, sep).push(b0);
        assert(rest.update(rest.len() - 1, rest.last().push(b.last())) =~= split_on(a, sep).push(b)) by {
            assert(b0.push(b.last()) =~= b);
        }
    }
}

proof fn lemma_split_join(parts: Seq<Seq<char>>, sep: char)
    requires
        parts.len() >= 1,
        forall|i: int| 0 <= i < parts.len() ==> !(#[trigger] parts[i]).contains(sep),
    ensures
        split_on(join(parts, seq![sep]), sep) == parts,
    decreases parts.len(),
{
    if parts.len() == 1 {
        lemma_split_no_sep(parts[0], sep);
        assert(seq![parts[0]] =~= parts);
    } else {
        let p0 = parts.drop_last();
        assert forall|i: int| 0 <= i < p0.len() implies !(#[trigger] p0[i]).contains(sep) by {
            assert(p0[i] == parts[i]);
        }
        lemma_split_join(p0, sep);
        assert(!parts.last().contains(sep)) by {
            assert(parts[parts.len() - 1] == parts.last());
        }
        lemma_split_after_sep(join(p0, seq![sep]), parts.last(), sep);
        assert(p0.push(parts.last()) =~= parts);
    }
}

/// A plain pair's text is its own trim, and splits at `=` into its key
/// and value.
proof fn lemma_pair_piece(p: (Seq<char>, Seq<char>))
    requires
        plain_pair(p),
    ensures
        trim(pair_text(p)) == pair_text(p),
        find_char(pair_text(p), '=') == Some(p.0.len() as int),
        pair_text(p).subrange(0, p.0.len() as int) == p.0,
        pair_text(p).subrange(p.0.len() + 1int, pair_text(p).len() as int) == p.1,
{
    let t = pair_text(p);
    let k = p.0;
    let v = p.1;
    lemma_trimmed_ends(k);
    lemma_trimmed_ends(v);
    assert(t[k.len() as int] == '=');
    assert(!is_ws(t[0])) by {
        if k.len() > 0 {
            assert(t[0] == k[0]);
        }
    }
    assert(!is_ws(t.last())) by {
        if v.len() > 0 {
            assert(t.last() == v.last());
        }
    }
    assert(trim_start(t) == t);
    assert(trim_end(t) == t);
    lemma_find_char_found(t, '=');
    match find_char(t, '=') {
        Some(i) => {
            if i < k.len() {
                assert(k[i] == '=');
                assert(k.contains('='));
            }
            assert(i <= k.len());
        },
        None => {
            assert(t[k.len() as int] == '=');
        },
    }
    assert(t.subrange(0, k.len() as int) =~= k);
    assert(t.subrange(k.len() + 1int, t.len() as int) =~= v);
}

proof fn lemma_pieces_read(pairs: Seq<(Seq<char>, Seq<char>)>, n: nat)
    requires
        n <= pairs.len(),
        forall|i: int| 0 <= i < pairs.len() ==> plain_pair(#[trigger] pairs[i]),
    ensures
        sorted_keys(coord_pieces(pairs.map_values(|p: (Seq<char>, Seq<char>)| pair_text(p)), n)),
        as_map(coord_pieces(pairs.map_values(|p: (Seq<char>, Seq<char>)| pair_text(p)), n)) == pairs_map(
            pairs.take(n as int),
        ),
    decreases n,
{
    let texts = pairs.map_values(|p: (Seq<char>, Seq<char>)| pair_text(p));
    if n == 0 {
        assert(pairs.take(0) =~= Seq::<(Seq<char>, Seq<char>)>::empty());
        assert(as_map(Seq::<(Seq<char>, Seq<char>)>::empty()) =~= Map::<Seq<char>, Seq<char>>::empty());
    } else {
        lemma_pieces_read(pairs, (n - 1) as nat);
        let p = pairs[n - 1];
        lemma_pair_piece(p);
        assert(texts[n - 1] == pair_text(p));
        let acc = coord_pieces(texts, (n - 1) as nat);
        lemma_insert_is_map_insert(acc, p.0, p.1);
        assert(pairs.take(n as int).drop_last() =~= pairs.take(n - 1));
        assert(pairs.take(n as int).last() == p);
    }
}

/// Joining `key=value` pairs with commas and reading the string as a
/// coordinate gives back the map the pairs set, for keys without `,` or
/// `=`, values without `,`, and no whitespace at the ends of either.
pub proof fn law_coord_string_round_trip(pairs: Seq<(Seq<char>, Seq<char>)>)
    requires
        forall|i: int| 0 <= i < pairs.len() ==> plain_pair(#[trigger] pairs[i]),
    ensures
        as_map(coord_entries(coord_text(pairs))) == pairs_map(pairs),
{
    let texts = pairs.map_values(|p: (Seq<char>, Seq<char>)| pair_text(p));
    if pairs.len() == 0 {
        assert(coord_text(pairs) =~= Seq::<char>::empty());
        let ps = split_on(Seq::<char>::empty(), ',');
        assert(ps =~= seq![Seq::<char>::empty()]);
        assert(trim(Seq::<char>::empty()) =~= Seq::<char>::empty());
        assert(coord_pieces(ps, 0) =~= Seq::<(Seq<char>, Seq<char>)>::empty());
        assert(as_map(Seq::<(Seq<char>, Seq<char>)>::empty()) =~= Map::<Seq<char>, Seq<char>>::empty());
    } else {
        assert forall|i: int| 0 <= i < texts.len() implies !(#[trigger] texts[i]).contains(',') by {
            let p = pairs[i];
            assert(texts[i] == pair_text(p));
            if pair_text(p).contains(',') {
                let w = choose|w: int| 0 <= w < pair_text(p).len() && pair_text(p)[w] == ',';
                if w < p.0.len() {
                    assert(p.0[w] == ',');
                    assert(p.0.contains(','));
                } else if w > p.0.len() {
                    assert(p.1[w - p.0.len() - 1] == ',');
                    assert(p.1.contains(','));
                }
            }
        }
        lemma_split_join(texts, ',');
        lemma_pieces_read(pairs, pairs.len());
        assert(pairs.take(pairs.len() as int) =~= pairs);
    }
}

} // verus!
