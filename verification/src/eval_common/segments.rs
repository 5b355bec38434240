//! How an evaluation splits its units into segments: units with the same
//! group-by display values share a segment, segments appear in the order
//! their first unit does, and a segment's range flag is its first unit's.
//! The segment cap, the per-segment status, and the ingredient measures
//! whose nulls are counted are decided here too. Ordering the segments by
//! their (numeric) sort keys is left to the caller.
use crate::eval_common::{MetricExpr, SegmentStatus};
use crate::text::{lit, nat_decimal, push_str, str_eq, usize_to_string};
use vstd::prelude::*;

verus! {

/// The segment keys among the first `n` units, in order of first
/// appearance.
pub open spec fn keys_upto(d: Seq<Seq<Seq<char>>>, n: nat) -> Seq<Seq<Seq<char>>>
    decreases n,
{
    if n == 0 || n > d.len() {
        Seq::empty()
    } else {
        let prev = keys_upto(d, (n - 1) as nat);
        if prev.contains(d[n - 1]) {
            prev
        } else {
            prev.push(d[n - 1])
        }
    }
}

/// The units among the first `n` whose key is `k`, ascending.
pub open spec fn members_upto(d: Seq<Seq<Seq<char>>>, k: Seq<Seq<char>>, n: nat) -> Seq<usize>
    decreases n,
{
    if n == 0 || n > d.len() {
        Seq::empty()
    } else {
        let prev = members_upto(d, k, (n - 1) as nat);
        if d[n - 1] == k {
            prev.push((n - 1) as usize)
        } else {
            prev
        }
    }
}

/// One segment: its display values, its units, and whether its first unit
/// fell outside the bucket ranges.
#[derive(Debug, Clone)]
pub struct SegmentGroup {
    pub displays: Vec<String>,
    pub members: Vec<usize>,
    pub out_of_range: bool,
}

/// The segments of units with display values `d` and range flags `o`.
pub open spec fn segments_of(d: Seq<Seq<Seq<char>>>, o: Seq<bool>) -> Seq<(Seq<Seq<char>>, Seq<usize>, bool)> {
    let keys = keys_upto(d, d.len());
    Seq::new(
        keys.len(),
        |j: int| (keys[j], members_upto(d, keys[j], d.len()), o[members_upto(d, keys[j], d.len())[0] as int]),
    )
}

pub open spec fn group_models(v: Seq<SegmentGroup>) -> Seq<(Seq<Seq<char>>, Seq<usize>, bool)> {
    v.map_values(|g: SegmentGroup| (g.displays.deep_view(), g.members@, g.out_of_range))
}

/// One unit's group-by display values, and whether one of its bucketed
/// values fell outside every bucket.
#[derive(Debug, Clone)]
pub struct UnitKey {
    pub displays: Vec<String>,
    pub out_of_range: bool,
}

pub open spec fn displays_model(v: Seq<UnitKey>) -> Seq<Seq<Seq<char>>> {
    v.map_values(|x: UnitKey| x.displays.deep_view())
}

pub open spec fn flags_model(v: Seq<UnitKey>) -> Seq<bool> {
    v.map_values(|x: UnitKey| x.out_of_range)
}

fn strings_eq(a: &Vec<String>, b: &Vec<String>) -> (r: bool)
    ensures
        r == (a.deep_view() == b.deep_view()),
{
    if a.len() != b.len() {
        assert(a.deep_view().len() != b.deep_view().len());
        return false;
    }
    let mut i: usize = 0;
    while i < a.len()
        invariant
            i <= a@.len() == b@.len(),
            forall|j: int| 0 <= j < i ==> a@[j]@ == b@[j]@,
        decreases a@.len() - i,
    {
        if !str_eq(a[i].as_str(), b[i].as_str()) {
            assert(a.deep_view()[i as int] != b.deep_view()[i as int]);
            return false;
        }
        i += 1;
    }
    assert(a.deep_view() =~= b.deep_view());
    true
}

fn copy_indices(a: &Vec<usize>) -> (r: Vec<usize>)
    ensures
        r@ == a@,
{
    let mut r: Vec<usize> = Vec::new();
    let mut i: usize = 0;
    while i < a.len()
        invariant
            i <= a@.len(),
            r@ == a@.take(i as int),
        decreases a@.len() - i,
    {
        r.push(a[i]);
        i += 1;
        assert(r@ =~= a@.take(i as int));
    }
    assert(a@.take(a@.len() as int) =~= a@);
    r
}

fn clone_strings(a: &Vec<String>) -> (r: Vec<String>)
    ensures
        r.deep_view() == a.deep_view(),
{
    let mut r: Vec<String> = Vec::new();
    let mut i: usize = 0;
    while i < a.len()
        invariant
            i <= a@.len(),
            r@.len() == i,
            forall|j: int| 0 <= j < i ==> r@[j]@ == a@[j]@,
        decreases a@.len() - i,
    {
        r.push(a[i].clone());
        i += 1;
    }
    assert(r.deep_view() =~= a.deep_view());
    r
}

proof fn lemma_members_first(d: Seq<Seq<Seq<char>>>, k: Seq<Seq<char>>, n: nat, m: nat)
    requires
        n <= m <= d.len(),
        members_upto(d, k, n).len() > 0,
    ensures
        members_upto(d, k, m).len() >= members_upto(d, k, n).len(),
        members_upto(d, k, m)[0] == members_upto(d, k, n)[0],
    decreases m - n,
{
    if n < m {
        lemma_members_first(d, k, n, (m - 1) as nat);
    }
}

proof fn lemma_members_nonempty(d: Seq<Seq<Seq<char>>>, n: nat, j: int)
    requires
        n <= d.len(),
        0 <= j < keys_upto(d, n).len(),
    ensures
        members_upto(d, keys_upto(d, n)[j], n).len() > 0,
    decreases n,
{
    let prev = keys_upto(d, (n - 1) as nat);
    if prev.contains(d[n - 1]) {
        lemma_members_nonempty(d, (n - 1) as nat, j);
        lemma_members_first(d, keys_upto(d, n)[j], (n - 1) as nat, n);
    } else if j < prev.len() {
        assert(keys_upto(d, n)[j] == prev[j]);
        lemma_members_nonempty(d, (n - 1) as nat, j);
        lemma_members_first(d, prev[j], (n - 1) as nat, n);
    } else {
        assert(keys_upto(d, n)[j] == d[n - 1]);
    }
}

/// Group units into segments by their display values, in order of first
/// appearance; a segment's members are unit positions in `units`.
pub fn group_units(units: &Vec<UnitKey>) -> (r: Vec<SegmentGroup>)
    ensures
        group_models(r@) == segments_of(displays_model(units@), flags_model(units@)),
{
    let ghost d = displays_model(units@);
    let ghost o = flags_model(units@);
    let mut groups: Vec<SegmentGroup> = Vec::new();
    let mut i: usize = 0;
    while i < units.len()
        invariant
            i <= units@.len() == d.len() == o.len(),
            d == displays_model(units@),
            o == flags_model(units@),
            groups@.len() == keys_upto(d, i as nat).len(),
            forall|j: int|
                0 <= j < groups@.len() ==> {
                    &&& (#[trigger] groups@[j]).displays.deep_view() == keys_upto(d, i as nat)[j]
                    &&& groups@[j].members@ == members_upto(d, keys_upto(d, i as nat)[j], i as nat)
                    &&& members_upto(d, keys_upto(d, i as nat)[j], i as nat).len() > 0
                    &&& groups@[j].out_of_range == o[members_upto(
                        d,
                        keys_upto(d, i as nat)[j],
                        i as nat,
                    )[0] as int]
                },
        decreases units@.len() - i,
    {
        let ghost ks = keys_upto(d, i as nat);
        assert(d[i as int] == units@[i as int].displays.deep_view());
        let mut found: Option<usize> = None;
        let mut j: usize = 0;
        while j < groups.len()
            invariant
                j <= groups@.len() == ks.len(),
                i < units@.len() == d.len(),
                ks == keys_upto(d, i as nat),
                d[i as int] == units@[i as int].displays.deep_view(),
                forall|t: int| 0 <= t < groups@.len() ==> (#[trigger] groups@[t]).displays.deep_view() == ks[t],
                found matches Some(t) ==> t < groups@.len() && ks[t as int] == d[i as int],
                found is None ==> forall|t: int| 0 <= t < j ==> ks[t] != d[i as int],
            decreases groups@.len() - j,
        {
            if found.is_none() && strings_eq(&groups[j].displays, &units[i].displays) {
                found = Some(j);
            }
            j += 1;
        }
        proof {
            lemma_keys_distinct(d, i as nat);
        }
        let ghost og = groups@;
        match found {
            Some(t) => {
                assert(ks.contains(d[i as int]));
                assert(keys_upto(d, (i + 1) as nat) == ks);
                let mut members = copy_indices(&groups[t].members);
                members.push(i);
                let g = SegmentGroup {
                    displays: clone_strings(&groups[t].displays),
                    members,
                    out_of_range: groups[t].out_of_range,
                };
                groups.set(t, g);
                proof {
                    assert forall|q: int| 0 <= q < groups@.len() implies {
                        &&& (#[trigger] groups@[q]).displays.deep_view() == keys_upto(d, (i + 1) as nat)[q]
                        &&& groups@[q].members@ == members_upto(d, keys_upto(d, (i + 1) as nat)[q], (i + 1) as nat)
                        &&& members_upto(d, keys_upto(d, (i + 1) as nat)[q], (i + 1) as nat).len() > 0
                        &&& groups@[q].out_of_range == o[members_upto(
                            d,
                            keys_upto(d, (i + 1) as nat)[q],
                            (i + 1) as nat,
                        )[0] as int]
                    } by {
                        assert(og[q].displays.deep_view() == ks[q]);
                        lemma_members_first(d, ks[q], i as nat, (i + 1) as nat);
                        if q != t {
                            assert(ks[q] != ks[t as int]);
                            assert(groups@[q] == og[q]);
                        }
                    }
                }
            },
            None => {
                assert(!ks.contains(d[i as int]));
                let g = SegmentGroup {
                    displays: clone_strings(&units[i].displays),
                    members: vec![i],
                    out_of_range: units[i].out_of_range,
                };
                groups.push(g);
                proof {
                    assert(keys_upto(d, (i + 1) as nat) == ks.push(d[i as int]));
                    assert forall|q: int| 0 <= q < groups@.len() implies {
                        &&& (#[trigger] groups@[q]).displays.deep_view() == keys_upto(d, (i + 1) as nat)[q]
                        &&& groups@[q].members@ == members_upto(d, keys_upto(d, (i + 1) as nat)[q], (i + 1) as nat)
                        &&& members_upto(d, keys_upto(d, (i + 1) as nat)[q], (i + 1) as nat).len() > 0
                        &&& groups@[q].out_of_range == o[members_upto(
                            d,
                            keys_upto(d, (i + 1) as nat)[q],
                            (i + 1) as nat,
                        )[0] as int]
                    } by {
                        if q < ks.len() {
                            assert(og[q].displays.deep_view() == ks[q]);
                            assert(groups@[q] == og[q]);
                            assert(ks[q] != d[i as int]);
                            lemma_members_first(d, ks[q], i as nat, (i + 1) as nat);
                        } else {
                            lemma_members_absent(d, d[i as int], i as nat);
                            assert(members_upto(d, d[i as int], (i + 1) as nat) =~= seq![i]);
                        }
                    }
                }
            },
        }
        i += 1;
    }
    let ghost keys = keys_upto(d, d.len());
    assert(group_models(groups@) =~= segments_of(d, o));
    groups
}

/// The keys seen are distinct, and a key not yet seen has no members.
proof fn lemma_keys_distinct(d: Seq<Seq<Seq<char>>>, n: nat)
    requires
        n <= d.len(),
    ensures
        forall|a: int, b: int|
            0 <= a < b < keys_upto(d, n).len() ==> keys_upto(d, n)[a] != keys_upto(d, n)[b],
    decreases n,
{
    if n > 0 {
        lemma_keys_distinct(d, (n - 1) as nat);
        let prev = keys_upto(d, (n - 1) as nat);
        let ks = keys_upto(d, n);
        if !prev.contains(d[n - 1]) {
            assert forall|a: int, b: int| 0 <= a < b < ks.len() implies ks[a] != ks[b] by {
                if b == prev.len() {
                    assert(ks[a] == prev[a]);
                    assert(ks[b] == d[n - 1]);
                } else {
                    assert(ks[a] == prev[a] && ks[b] == prev[b]);
                }
            }
        }
    }
}

proof fn lemma_members_absent(d: Seq<Seq<Seq<char>>>, k: Seq<Seq<char>>, n: nat)
    requires
        n <= d.len(),
        !keys_upto(d, n).contains(k),
    ensures
        members_upto(d, k, n) == Seq::<usize>::empty(),
    decreases n,
{
    if n > 0 {
        let prev = keys_upto(d, (n - 1) as nat);
        if prev.contains(k) {
            let w = choose|w: int| 0 <= w < prev.len() && prev[w] == k;
            assert(keys_upto(d, n).contains(k)) by {
                if prev.contains(d[n - 1]) {
                    assert(keys_upto(d, n)[w] == k);
                } else {
                    assert(keys_upto(d, n)[w] == k);
                }
            }
        }
        lemma_members_absent(d, k, (n - 1) as nat);
        if d[n - 1] == k {
            assert(keys_upto(d, n).contains(k)) by {
                if prev.contains(d[n - 1]) {
                } else {
                    assert(keys_upto(d, n)[prev.len() as int] == k);
                }
            }
        }
    }
}

/// The refusal when the segments outnumber `--max-segments`.
pub open spec fn segment_cap_spec(n: nat, max: nat) -> Result<(), Seq<char>> {
    if n > max {
        Err(
            "resolved "@ + nat_decimal(n) + " segments, which exceeds --max-segments "@ + nat_decimal(max)
                + " — narrow the holdout, coarsen the buckets, or raise --max-segments"@,
        )
    } else {
        Ok(())
    }
}

/// Check the number of segments against `--max-segments`.
pub fn check_segment_count(n: usize, max: usize) -> (r: Result<(), String>)
    ensures
        match r {
            Ok(_) => segment_cap_spec(n as nat, max as nat) is Ok,
            Err(e) => segment_cap_spec(n as nat, max as nat) == Err::<(), Seq<char>>(e@),
        },
{
    if n > max {
        let mut m = lit("resolved ");
        let a = usize_to_string(n);
        push_str(&mut m, a.as_str());
        push_str(&mut m, " segments, which exceeds --max-segments ");
        let b = usize_to_string(max);
        push_str(&mut m, b.as_str());
        push_str(&mut m, " — narrow the holdout, coarsen the buckets, or raise --max-segments");
        Err(m)
    } else {
        Ok(())
    }
}

/// A segment's status: out of range wins, then too few units.
pub fn segment_status(out_of_range: bool, n_units: usize, min_n: usize) -> (r: SegmentStatus)
    ensures
        r == (if out_of_range {
            SegmentStatus::OutOfRange
        } else if n_units < min_n {
            SegmentStatus::BelowMinN
        } else {
            SegmentStatus::Okay
        }),
{
    if out_of_range {
        SegmentStatus::OutOfRange
    } else if n_units < min_n {
        SegmentStatus::BelowMinN
    } else {
        SegmentStatus::Okay
    }
}

/// Each name once, where it first occurs.
pub open spec fn dedup(s: Seq<Seq<char>>) -> Seq<Seq<char>>
    decreases s.len(),
{
    if s.len() == 0 {
        Seq::empty()
    } else {
        let p = dedup(s.drop_last());
        if p.contains(s.last()) {
            p
        } else {
            p.push(s.last())
        }
    }
}

/// The ingredients of the metrics, in order (with repeats).
pub open spec fn all_ingredients(ms: Seq<MetricExpr>) -> Seq<Seq<char>>
    decreases ms.len(),
{
    if ms.len() == 0 {
        Seq::empty()
    } else {
        all_ingredients(ms.drop_last()) + ms.last().ingredients.deep_view()
    }
}

/// The measures whose nulls a report counts: every ingredient of every
/// metric, once each, in order of first use.
pub fn ingredient_set(metrics: &Vec<MetricExpr>) -> (r: Vec<String>)
    ensures
        r.deep_view() == dedup(all_ingredients(metrics@)),
{
    let mut set: Vec<String> = Vec::new();
    let mut i: usize = 0;
    assert(set.deep_view() =~= dedup(all_ingredients(metrics@.take(0))));
    while i < metrics.len()
        invariant
            i <= metrics@.len(),
            set.deep_view() == dedup(all_ingredients(metrics@.take(i as int))),
        decreases metrics@.len() - i,
    {
        let ings = &metrics[i].ingredients;
        let ghost before = all_ingredients(metrics@.take(i as int));
        let ghost iv = ings.deep_view();
        let mut j: usize = 0;
        assert(before + iv.take(0) =~= before);
        while j < ings.len()
            invariant
                j <= ings@.len() == iv.len(),
                iv == ings.deep_view(),
                set.deep_view() == dedup(before + iv.take(j as int)),
            decreases ings@.len() - j,
        {
            let ghost prev = set.deep_view();
            assert((before + iv.take(j + 1)).drop_last() =~= before + iv.take(j as int));
            assert((before + iv.take(j + 1)).last() == iv[j as int]);
            assert(iv[j as int] == ings@[j as int]@);
            if !contains_str(&set, ings[j].as_str()) {
                set.push(ings[j].clone());
                assert(set.deep_view() =~= prev.push(iv[j as int]));
            }
            j += 1;
        }
        assert(metrics@.take(i + 1).drop_last() =~= metrics@.take(i as int));
        assert(iv.take(iv.len() as int) =~= iv);
        i += 1;
    }
    assert(metrics@.take(metrics@.len() as int) =~= metrics@);
    set
}

fn contains_str(v: &Vec<String>, s: &str) -> (r: bool)
    ensures
        r == v.deep_view().contains(s@),
{
    let mut i: usize = 0;
    while i < v.len()
        invariant
            i <= v@.len(),
            forall|j: int| 0 <= j < i ==> v@[j]@ != s@,
        decreases v@.len() - i,
    {
        if str_eq(v[i].as_str(), s) {
            assert(v.deep_view()[i as int] == s@);
            return true;
        }
        i += 1;
    }
    assert forall|j: int| 0 <= j < v.deep_view().len() implies v.deep_view()[j] != s@ by {
        assert(v.deep_view()[j] == v@[j]@);
    }
    false
}

proof fn lemma_members_exact(d: Seq<Seq<Seq<char>>>, k: Seq<Seq<char>>, n: nat)
    requires
        n <= d.len(),
        n <= usize::MAX,
    ensures
        forall|i: usize| members_upto(d, k, n).contains(i) <==> (i < n && d[i as int] == k),
        forall|a: int, b: int|
            0 <= a < b < members_upto(d, k, n).len() ==> members_upto(d, k, n)[a] < members_upto(d, k, n)[b],
        forall|a: int| 0 <= a < members_upto(d, k, n).len() ==> members_upto(d, k, n)[a] < n,
    decreases n,
{
    if n > 0 {
        lemma_members_exact(d, k, (n - 1) as nat);
        let p = members_upto(d, k, (n - 1) as nat);
        if d[n - 1] == k {
            let last = (n - 1) as usize;
            assert(last == n - 1);
            let q = p.push(last);
            assert(members_upto(d, k, n) == q);
            assert forall|i: usize| q.contains(i) <==> (i < n && d[i as int] == k) by {
                if i == last {
                    assert(q[p.len() as int] == i);
                }
                if q.contains(i) && i != last {
                    let w = choose|w: int| 0 <= w < q.len() && q[w] == i;
                    assert(w != p.len());
                    assert(p[w] == i);
                    assert(p.contains(i));
                }
                if i < n - 1 && d[i as int] == k {
                    let w = choose|w: int| 0 <= w < p.len() && p[w] == i;
                    assert(q[w] == i);
                }
            }
            assert forall|a: int, b: int| 0 <= a < b < q.len() implies q[a] < q[b] by {
                if b == p.len() {
                    assert(q[a] == p[a]);
                } else {
                    assert(q[a] == p[a] && q[b] == p[b]);
                }
            }
        }
    }
}

proof fn lemma_keys_cover(d: Seq<Seq<Seq<char>>>, n: nat)
    requires
        n <= d.len(),
    ensures
        forall|i: int| 0 <= i < n ==> keys_upto(d, n).contains(#[trigger] d[i]),
        forall|j: int| 0 <= j < keys_upto(d, n).len() ==> exists|i: int| 0 <= i < n && d[i] == #[trigger] keys_upto(d, n)[j],
    decreases n,
{
    if n > 0 {
        lemma_keys_cover(d, (n - 1) as nat);
        let prev = keys_upto(d, (n - 1) as nat);
        let ks = keys_upto(d, n);
        assert forall|i: int| 0 <= i < n implies ks.contains(#[trigger] d[i]) by {
            if i < n - 1 {
                let w = choose|w: int| 0 <= w < prev.len() && prev[w] == d[i];
                assert(ks[w] == d[i]);
            } else if !prev.contains(d[n - 1]) {
                assert(ks[prev.len() as int] == d[i]);
            }
        }
        assert forall|j: int| 0 <= j < ks.len() implies exists|i: int| 0 <= i < n && d[i] == #[trigger] ks[j] by {
            if j < prev.len() {
                assert(ks[j] == prev[j]);
                let i = choose|i: int| 0 <= i < n - 1 && d[i] == prev[j];
                assert(d[i] == ks[j]);
            } else {
                assert(d[n - 1] == ks[j]);
            }
        }
    }
}

/// The segments partition the units: segment keys are distinct, every
/// unit belongs to the segment of its own key and to no other, each
/// segment's members are ascending unit positions sharing its key, and no
/// segment is empty.
pub proof fn law_segments_partition_units(units: Seq<UnitKey>)
    requires
        units.len() <= usize::MAX,
    ensures
        ({
            let d = displays_model(units);
            let g = segments_of(d, flags_model(units));
            &&& forall|a: int, b: int| 0 <= a < b < g.len() ==> g[a].0 != g[b].0
            &&& forall|i: int|
                0 <= i < units.len() ==> exists|j: int| 0 <= j < g.len() && #[trigger] g[j].0 == #[trigger] d[i]
            &&& forall|j: int, i: usize|
                0 <= j < g.len() ==> ((#[trigger] g[j].1.contains(i)) <==> (i < units.len() && d[i as int] == g[j].0))
            &&& forall|j: int, a: int, b: int|
                0 <= j < g.len() && 0 <= a < b < g[j].1.len() ==> #[trigger] g[j].1[a] < #[trigger] g[j].1[b]
            &&& forall|j: int| 0 <= j < g.len() ==> (#[trigger] g[j].1).len() > 0
        }),
{
    let d = displays_model(units);
    let n = d.len();
    let g = segments_of(d, flags_model(units));
    let keys = keys_upto(d, n);
    lemma_keys_distinct(d, n);
    lemma_keys_cover(d, n);
    assert forall|i: int| 0 <= i < units.len() implies exists|j: int| 0 <= j < g.len() && #[trigger] g[j].0 == #[trigger] d[i] by {
        assert(keys.contains(d[i]));
        let j = choose|j: int| 0 <= j < keys.len() && keys[j] == d[i];
        assert(g[j].0 == d[i]);
    }
    assert forall|j: int, i: usize|
        0 <= j < g.len() implies ((#[trigger] g[j].1.contains(i)) <==> (i < units.len() && d[i as int] == g[j].0)) by {
        lemma_members_exact(d, keys[j], n);
    }
    assert forall|j: int, a: int, b: int|
        0 <= j < g.len() && 0 <= a < b < g[j].1.len() implies #[trigger] g[j].1[a] < #[trigger] g[j].1[b] by {
        lemma_members_exact(d, keys[j], n);
    }
    assert forall|j: int| 0 <= j < g.len() implies (#[trigger] g[j].1).len() > 0 by {
        lemma_members_nonempty(d, n, j);
    }
}

} // verus!
