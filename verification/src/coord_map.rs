//! A string-keyed map kept as an association list sorted by key, in the
//! order that `BTreeMap<String, _>` iterates: inserting an existing key
//! replaces its value, and iteration visits keys in ascending string
//! order.
use crate::text::{chars_eq, chars_less, chars_of, seq_less};
use vstd::prelude::*;

verus! {

/// Keys strictly ascending.
pub open spec fn sorted_keys(s: Seq<(Seq<char>, Seq<char>)>) -> bool {
    forall|i: int, j: int| 0 <= i < j < s.len() ==> seq_less(s[i].0, s[j].0)
}

/// The association list after inserting `(k, v)`.
pub open spec fn sorted_insert(s: Seq<(Seq<char>, Seq<char>)>, k: Seq<char>, v: Seq<char>) -> Seq<
    (Seq<char>, Seq<char>),
>
    decreases s.len(),
{
    if s.len() == 0 {
        seq![(k, v)]
    } else if s[0].0 == k {
        s.update(0, (k, v))
    } else if seq_less(k, s[0].0) {
        seq![(k, v)] + s
    } else {
        seq![s[0]] + sorted_insert(s.drop_first(), k, v)
    }
}

/// The map an association list stands for (a later entry for a key wins).
pub open spec fn as_map(s: Seq<(Seq<char>, Seq<char>)>) -> Map<Seq<char>, Seq<char>>
    decreases s.len(),
{
    if s.len() == 0 {
        Map::empty()
    } else {
        as_map(s.drop_last()).insert(s.last().0, s.last().1)
    }
}

/// Whether the list holds the entry `(k, v)`.
pub open spec fn has_entry(s: Seq<(Seq<char>, Seq<char>)>, k: Seq<char>, v: Seq<char>) -> bool {
    exists|i: int| 0 <= i < s.len() && s[i] == (k, v)
}

/// Whether the list holds an entry for key `k`.
pub open spec fn has_key(s: Seq<(Seq<char>, Seq<char>)>, k: Seq<char>) -> bool {
    exists|j: int| 0 <= j < s.len() && s[j].0 == k
}

/// `seq_less` is irreflexive.
pub proof fn lemma_less_irrefl(a: Seq<char>)
    ensures
        !seq_less(a, a),
    decreases a.len(),
{
    if a.len() > 0 {
        lemma_less_irrefl(a.drop_first());
    }
}

/// `seq_less` is transitive.
pub proof fn lemma_less_trans(a: Seq<char>, b: Seq<char>, c: Seq<char>)
    requires
        seq_less(a, b),
        seq_less(b, c),
    ensures
        seq_less(a, c),
    decreases a.len(),
{
    if a.len() > 0 && b.len() > 0 && c.len() > 0 {
        if a[0] == b[0] && b[0] == c[0] {
            lemma_less_trans(a.drop_first(), b.drop_first(), c.drop_first());
        }
    }
}

/// Any two distinct strings are ordered one way or the other.
pub proof fn lemma_less_total(a: Seq<char>, b: Seq<char>)
    ensures
        a == b || seq_less(a, b) || seq_less(b, a),
    decreases a.len(),
{
    if a.len() > 0 && b.len() > 0 && a[0] == b[0] {
        lemma_less_total(a.drop_first(), b.drop_first());
        if a.drop_first() == b.drop_first() {
            assert(a =~= seq![a[0]] + a.drop_first());
            assert(b =~= seq![b[0]] + b.drop_first());
        }
    } else if a.len() > 0 && b.len() > 0 {
        vstd::utf8::char_u32_cast(a[0], a[0] as u32);
        vstd::utf8::char_u32_cast(b[0], b[0] as u32);
        assert((a[0] as u32) != (b[0] as u32));
    } else if a.len() == 0 && b.len() == 0 {
        assert(a =~= b);
    }
}

/// `seq_less` is asymmetric.
pub proof fn lemma_less_asym(a: Seq<char>, b: Seq<char>)
    requires
        seq_less(a, b),
    ensures
        !seq_less(b, a),
{
    if seq_less(b, a) {
        lemma_less_trans(a, b, a);
        lemma_less_irrefl(a);
    }
}

/// In a sorted list, the map holds each entry's value under its key,
/// and holds nothing else.
pub proof fn lemma_as_map_lookup(s: Seq<(Seq<char>, Seq<char>)>)
    requires
        sorted_keys(s),
    ensures
        forall|i: int| 0 <= i < s.len() ==> #[trigger] as_map(s).contains_key(s[i].0) && as_map(s)[s[i].0] == s[i].1,
        forall|k: Seq<char>| #[trigger] as_map(s).contains_key(k) ==> has_key(s, k),
    decreases s.len(),
{
    if s.len() > 0 {
        let p = s.drop_last();
        lemma_as_map_lookup(p);
        assert forall|i: int| 0 <= i < s.len() implies #[trigger] as_map(s).contains_key(s[i].0) && as_map(s)[s[i].0] == s[i].1 by {
            if i < s.len() - 1 {
                assert(p[i] == s[i]);
                assert(as_map(p).contains_key(p[i].0));
                assert(seq_less(s[i].0, s.last().0));
                lemma_less_irrefl(s[i].0);
            }
        }
        assert forall|k: Seq<char>| #[trigger] as_map(s).contains_key(k) implies has_key(s, k) by {
            if k != s.last().0 {
                assert(as_map(p).contains_key(k));
                assert(has_key(p, k));
                let i = choose|i: int| 0 <= i < p.len() && p[i].0 == k;
                assert(s[i] == p[i]);
            } else {
                assert(s[s.len() - 1].0 == k);
            }
        }
    }
}

/// The entries of `sorted_insert(s, k, v)`: the entry `(k, v)`, and
/// every entry of `s` whose key is not `k`.
proof fn lemma_sorted_insert_entries(s: Seq<(Seq<char>, Seq<char>)>, k: Seq<char>, v: Seq<char>)
    requires
        sorted_keys(s),
    ensures
        sorted_keys(sorted_insert(s, k, v)),
        forall|kk: Seq<char>, vv: Seq<char>| #[trigger] has_entry(sorted_insert(s, k, v), kk, vv) <==> ((kk, vv) == (k, v) || (kk != k && has_entry(s, kk, vv))),
        forall|i: int| 0 <= i < sorted_insert(s, k, v).len() ==> (sorted_insert(s, k, v)[i].0 == k || has_key(s, #[trigger] sorted_insert(s, k, v)[i].0)),
    decreases s.len(),
{
    let r = sorted_insert(s, k, v);
    if s.len() == 0 {
        assert forall|kk: Seq<char>, vv: Seq<char>| #[trigger] has_entry(r, kk, vv) <==> ((kk, vv) == (k, v) || (kk != k && has_entry(s, kk, vv))) by {
            if (kk, vv) == (k, v) {
                assert(r[0] == (k, v));
            }
        }
    } else if s[0].0 == k {
        assert forall|i: int, j: int| 0 <= i < j < r.len() implies seq_less(r[i].0, r[j].0) by {
            assert(r[i].0 == s[i].0 && r[j].0 == s[j].0);
        }
        assert forall|kk: Seq<char>, vv: Seq<char>| #[trigger] has_entry(r, kk, vv) <==> ((kk, vv) == (k, v) || (kk != k && has_entry(s, kk, vv))) by {
            if exists|i: int| 0 <= i < r.len() && r[i] == (kk, vv) {
                assert(has_entry(r, kk, vv));
                let i = choose|i: int| 0 <= i < r.len() && r[i] == (kk, vv);
                if i > 0 {
                    assert(s[i] == r[i]);
                    assert(seq_less(s[0].0, s[i].0));
                    lemma_less_irrefl(k);
                }
            }
            if (kk != k && exists|j: int| 0 <= j < s.len() && s[j] == (kk, vv)) {
                assert(has_entry(s, kk, vv));
                let j = choose|j: int| 0 <= j < s.len() && s[j] == (kk, vv);
                assert(j != 0);
                assert(r[j] == s[j]);
            }
            if (kk, vv) == (k, v) {
                assert(r[0] == (k, v));
            }
        }
    } else if seq_less(k, s[0].0) {
        assert forall|i: int, j: int| 0 <= i < j < r.len() implies seq_less(r[i].0, r[j].0) by {
            if i == 0 {
                if j > 1 {
                    lemma_less_trans(k, s[0].0, s[j - 1].0);
                }
            } else {
                assert(r[i] == s[i - 1] && r[j] == s[j - 1]);
            }
        }
        assert forall|kk: Seq<char>, vv: Seq<char>| #[trigger] has_entry(r, kk, vv) <==> ((kk, vv) == (k, v) || (kk != k && has_entry(s, kk, vv))) by {
            if exists|i: int| 0 <= i < r.len() && r[i] == (kk, vv) {
                assert(has_entry(r, kk, vv));
                let i = choose|i: int| 0 <= i < r.len() && r[i] == (kk, vv);
                if i > 0 {
                    assert(s[i - 1] == r[i]);
                    if i - 1 > 0 {
                        lemma_less_trans(k, s[0].0, s[i - 1].0);
                    }
                    lemma_less_irrefl(k);
                }
            }
            if (kk != k && exists|j: int| 0 <= j < s.len() && s[j] == (kk, vv)) {
                assert(has_entry(s, kk, vv));
                let j = choose|j: int| 0 <= j < s.len() && s[j] == (kk, vv);
                assert(r[j + 1] == s[j]);
            }
            if (kk, vv) == (k, v) {
                assert(r[0] == (k, v));
            }
        }
    } else {
        let t = s.drop_first();
        assert(sorted_keys(t)) by {
            assert forall|i: int, j: int| 0 <= i < j < t.len() implies seq_less(t[i].0, t[j].0) by {
                assert(t[i] == s[i + 1] && t[j] == s[j + 1]);
            }
        }
        lemma_sorted_insert_entries(t, k, v);
        let rt = sorted_insert(t, k, v);
        lemma_less_total(k, s[0].0);
        assert(seq_less(s[0].0, k));
        assert forall|i: int, j: int| 0 <= i < j < r.len() implies seq_less(r[i].0, r[j].0) by {
            if i == 0 {
                assert(r[j] == rt[j - 1]);
                if rt[j - 1].0 != k {
                    assert(has_key(t, rt[j - 1].0));
                    let jj = choose|jj: int| 0 <= jj < t.len() && t[jj].0 == rt[j - 1].0;
                    assert(t[jj] == s[jj + 1]);
                }
            } else {
                assert(r[i] == rt[i - 1] && r[j] == rt[j - 1]);
            }
        }
        assert forall|kk: Seq<char>, vv: Seq<char>| #[trigger] has_entry(r, kk, vv) <==> ((kk, vv) == (k, v) || (kk != k && has_entry(s, kk, vv))) by {
            if exists|i: int| 0 <= i < r.len() && r[i] == (kk, vv) {
                assert(has_entry(r, kk, vv));
                let i = choose|i: int| 0 <= i < r.len() && r[i] == (kk, vv);
                if i > 0 {
                    assert(rt[i - 1] == (kk, vv));
                    assert(has_entry(rt, kk, vv));
                    if (kk, vv) != (k, v) {
                        assert(has_entry(t, kk, vv));
                        let j = choose|j: int| 0 <= j < t.len() && t[j] == (kk, vv);
                        assert(s[j + 1] == (kk, vv));
                    }
                } else {
                    assert(s[0] == (kk, vv));
                    assert(has_entry(s, kk, vv));
                    lemma_less_irrefl(k);
                }
            }
            if (kk != k && exists|j: int| 0 <= j < s.len() && s[j] == (kk, vv)) {
                assert(has_entry(s, kk, vv));
                let j = choose|j: int| 0 <= j < s.len() && s[j] == (kk, vv);
                if j == 0 {
                    assert(r[0] == s[0]);
                } else {
                    assert(t[j - 1] == s[j]);
                    assert(has_entry(rt, kk, vv));
                    let i = choose|i: int| 0 <= i < rt.len() && rt[i] == (kk, vv);
                    assert(r[i + 1] == rt[i]);
                }
            }
            if (kk, vv) == (k, v) {
                assert(has_entry(rt, kk, vv));
                let i = choose|i: int| 0 <= i < rt.len() && rt[i] == (kk, vv);
                assert(r[i + 1] == rt[i]);
            }
        }
        assert forall|i: int| 0 <= i < r.len() implies (r[i].0 == k || has_key(s, #[trigger] r[i].0)) by {
            if i == 0 {
                assert(s[0].0 == r[0].0);
            } else {
                assert(r[i] == rt[i - 1]);
                if rt[i - 1].0 != k {
                    assert(has_key(t, rt[i - 1].0));
                    let jj = choose|jj: int| 0 <= jj < t.len() && t[jj].0 == rt[i - 1].0;
                    assert(s[jj + 1] == t[jj]);
                }
            }
        }
    }
}

/// Inserting into a sorted association list keeps it sorted, and the map
/// it stands for gains exactly the written entry: a later read of `k`
/// gives `v`, and every other key reads as before.
pub proof fn lemma_insert_is_map_insert(s: Seq<(Seq<char>, Seq<char>)>, k: Seq<char>, v: Seq<char>)
    requires
        sorted_keys(s),
    ensures
        sorted_keys(sorted_insert(s, k, v)),
        as_map(sorted_insert(s, k, v)) == as_map(s).insert(k, v),
{
    lemma_sorted_insert_entries(s, k, v);
    let r = sorted_insert(s, k, v);
    lemma_as_map_lookup(s);
    lemma_as_map_lookup(r);
    assert forall|kk: Seq<char>| #[trigger] as_map(r).contains_key(kk) <==> as_map(s).insert(k, v).contains_key(kk) by {
        if as_map(r).contains_key(kk) {
            assert(has_key(r, kk));
            let i = choose|i: int| 0 <= i < r.len() && r[i].0 == kk;
            if kk != k {
                assert(has_key(s, r[i].0));
                let j = choose|j: int| 0 <= j < s.len() && s[j].0 == r[i].0;
                assert(as_map(s).contains_key(s[j].0));
            }
        }
        if as_map(s).insert(k, v).contains_key(kk) {
            if kk == k {
                assert(has_entry(r, k, v));
                let i = choose|i: int| 0 <= i < r.len() && r[i] == (k, v);
                assert(as_map(r).contains_key(r[i].0));
            } else {
                assert(has_key(s, kk));
                let j = choose|j: int| 0 <= j < s.len() && s[j].0 == kk;
                assert(exists|j2: int| 0 <= j2 < s.len() && s[j2] == (kk, s[j].1));
                assert(has_entry(r, kk, s[j].1));
                let i = choose|i: int| 0 <= i < r.len() && r[i] == (kk, s[j].1);
                assert(as_map(r).contains_key(r[i].0));
            }
        }
    }
    assert forall|kk: Seq<char>| #[trigger] as_map(r).contains_key(kk) implies as_map(r)[kk] == as_map(s).insert(k, v)[kk] by {
        assert(has_key(r, kk));
        let i = choose|i: int| 0 <= i < r.len() && r[i].0 == kk;
        assert(has_entry(r, kk, r[i].1));
        if kk != k {
            assert(has_entry(s, kk, r[i].1));
            let j = choose|j: int| 0 <= j < s.len() && s[j] == (kk, r[i].1);
            assert(as_map(s).contains_key(s[j].0));
        } else {
            assert((kk, r[i].1) == (k, v));
        }
    }
    assert(as_map(r) =~= as_map(s).insert(k, v));
}

/// A string-keyed map iterated in ascending key order.
#[derive(Debug)]
pub struct CoordMap {
    entries: Vec<(String, String)>,
}

impl CoordMap {
    /// The entries, ascending by key.
    pub closed spec fn view(&self) -> Seq<(Seq<char>, Seq<char>)> {
        self.entries@.map_values(|e: (String, String)| (e.0@, e.1@))
    }

    /// Keys stay strictly ascending.
    #[verifier::type_invariant]
    closed spec fn wf(&self) -> bool {
        sorted_keys(self.view())
    }

    /// The map the entries stand for.
    pub open spec fn map(&self) -> Map<Seq<char>, Seq<char>> {
        as_map(self.view())
    }

    /// An empty map.
    pub fn new() -> (r: Self)
        ensures
            r.view() == Seq::<(Seq<char>, Seq<char>)>::empty(),
    {
        let r = CoordMap { entries: Vec::new() };
        assert(r.view() =~= Seq::<(Seq<char>, Seq<char>)>::empty());
        r
    }

    /// Number of entries.
    pub fn len(&self) -> (r: usize)
        ensures
            r == self.view().len(),
    {
        self.entries.len()
    }

    /// The key and value of entry `i`.
    pub fn entry(&self, i: usize) -> (r: (&String, &String))
        requires
            i < self.view().len(),
        ensures
            (r.0@, r.1@) == self.view()[i as int],
    {
        let e = &self.entries[i];
        (&e.0, &e.1)
    }

    /// The value held for key `k`.
    pub fn get(&self, k: &str) -> (r: Option<&String>)
        ensures
            match r {
                Some(v) => self.map().contains_key(k@) && self.map()[k@] == v@,
                None => !self.map().contains_key(k@),
            },
    {
        proof {
            use_type_invariant(self);
            lemma_as_map_lookup(self.view());
        }
        let kc = chars_of(k);
        let mut i: usize = 0;
        while i < self.entries.len()
            invariant
                i <= self.view().len(),
                self.view().len() == self.entries@.len(),
                kc@ == k@,
                forall|j: int| 0 <= j < i ==> self.view()[j].0 != k@,
            decreases self.view().len() - i,
        {
            let ek = chars_of(self.entries[i].0.as_str());
            assert(self.view()[i as int] == (self.entries@[i as int].0@, self.entries@[i as int].1@));
            if chars_eq(&ek, &kc) {
                proof {
                    use_type_invariant(self);
                    lemma_as_map_lookup(self.view());
                    assert(as_map(self.view()).contains_key(self.view()[i as int].0));
                }
                return Some(&self.entries[i].1);
            }
            i += 1;
        }
        proof {
            if self.map().contains_key(k@) {
                assert(has_key(self.view(), k@));
            }
        }
        None
    }

    /// Insert `k -> v`, replacing any value held for `k`.
    #[verifier::spinoff_prover]
    #[verifier::rlimit(40)]
    pub fn insert(&mut self, k: String, v: String)
        ensures
            final(self).view() == sorted_insert(old(self).view(), k@, v@),
            sorted_keys(final(self).view()),
            final(self).map() == old(self).map().insert(k@, v@),
    {
        proof {
            use_type_invariant(&*self);
        }
        let kc = chars_of(k.as_str());
        let ghost s = self.view();
        let mut es: Vec<(String, String)> = Vec::new();
        std::mem::swap(&mut es, &mut self.entries);
        assert(es@.map_values(|e: (String, String)| (e.0@, e.1@)) == s);
        let mut i: usize = 0;
        assert(s.skip(0) =~= s);
        assert(s.take(0) + sorted_insert(s, k@, v@) =~= sorted_insert(s, k@, v@));
        while i < es.len()
            invariant
                i <= s.len(),
                s == es@.map_values(|e: (String, String)| (e.0@, e.1@)),
                sorted_keys(s),
                kc@ == k@,
                sorted_insert(s, k@, v@) == s.take(i as int) + sorted_insert(s.skip(i as int), k@, v@),
            ensures
                i <= s.len(),
                s == es@.map_values(|e: (String, String)| (e.0@, e.1@)),
                sorted_insert(s, k@, v@) == s.take(i as int) + sorted_insert(s.skip(i as int), k@, v@),
                i < s.len() ==> !seq_less(s[i as int].0, k@),
            decreases s.len() - i,
        {
            let ek = chars_of(es[i].0.as_str());
            assert(s[i as int].0 == ek@);
            if !chars_less(&ek, &kc) {
                break;
            }
            proof {
                let t = s.skip(i as int);
                lemma_less_asym(ek@, k@);
                assert(t[0] == s[i as int]);
                assert(t.drop_first() =~= s.skip(i + 1));
                assert(s.take(i + 1) =~= s.take(i as int) + seq![s[i as int]]);
                if ek@ == k@ {
                    lemma_less_irrefl(k@);
                }
            }
            i += 1;
        }
        let ghost t = s.skip(i as int);
        if i < es.len() {
            let ek = chars_of(es[i].0.as_str());
            assert(s[i as int].0 == ek@);
            assert(t[0] == s[i as int]);
            if chars_eq(&ek, &kc) {
                es.set(i, (k, v));
                proof {
                    assert(sorted_insert(t, k@, v@) == t.update(0, (k@, v@)));
                    assert(es@.map_values(|e: (String, String)| (e.0@, e.1@)) =~= s.take(i as int) + t.update(0, (k@, v@)));
                }
            } else {
                proof {
                    lemma_less_total(k@, ek@);
                }
                es.insert(i, (k, v));
                proof {
                    assert(sorted_insert(t, k@, v@) == seq![(k@, v@)] + t);
                    assert(es@.map_values(|e: (String, String)| (e.0@, e.1@)) =~= s.take(i as int) + (seq![(k@, v@)] + t));
                }
            }
        } else {
            es.push((k, v));
            proof {
                assert(t.len() == 0);
                assert(sorted_insert(t, k@, v@) == seq![(k@, v@)]);
                assert(es@.map_values(|e: (String, String)| (e.0@, e.1@)) =~= s.take(i as int) + seq![(k@, v@)]);
            }
        }
        proof {
            lemma_insert_is_map_insert(s, k@, v@);
            assert(s.take(i as int) + t =~= s);
        }
        self.entries = es;
    }
}

} // verus!
