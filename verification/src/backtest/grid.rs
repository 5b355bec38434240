//! The sweep grid of `mc model backtest`: its size, and the numbering of
//! its cells with the first axis slowest (most significant).
use vstd::arithmetic::div_mod::{
    lemma_fundamental_div_mod, lemma_fundamental_div_mod_converse, lemma_mod_bound,
};
use vstd::prelude::*;

verus! {

/// Number of cells of a grid whose axes have the given lengths.
pub open spec fn grid_size(lens: Seq<usize>) -> nat
    decreases lens.len(),
{
    if lens.len() == 0 {
        1
    } else {
        grid_size(lens.drop_last()) * (lens.last() as nat)
    }
}

/// Whether multiplying the axis lengths in order overflows `usize` at
/// some step.
pub open spec fn grid_overflows(lens: Seq<usize>) -> bool {
    exists|k: int| 0 <= k <= lens.len() && #[trigger] grid_size(lens.take(k)) > usize::MAX
}

/// The grid size, or an error when the running product overflows.
pub fn grid_total(lens: &[usize]) -> (r: Result<usize, String>)
    ensures
        match r {
            Ok(t) => !grid_overflows(lens@) && t == grid_size(lens@),
            Err(e) => grid_overflows(lens@) && e@ == "grid size overflows usize"@,
        },
{
    let mut total: usize = 1;
    let mut i: usize = 0;
    assert(lens@.take(0) =~= Seq::<usize>::empty());
    while i < lens.len()
        invariant
            i <= lens@.len(),
            total == grid_size(lens@.take(i as int)),
            forall|k: int| 0 <= k <= i ==> #[trigger] grid_size(lens@.take(k)) <= usize::MAX,
        decreases lens@.len() - i,
    {
        assert(lens@.take(i + 1).drop_last() =~= lens@.take(i as int));
        assert(lens@.take(i + 1).last() == lens@[i as int]);
        match total.checked_mul(lens[i]) {
            Some(t) => {
                total = t;
                i += 1;
            },
            None => {
                assert(grid_size(lens@.take(i + 1)) > usize::MAX);
                return Err(String::from_str("grid size overflows usize"));
            },
        }
    }
    assert(lens@.take(lens@.len() as int) =~= lens@);
    Ok(total)
}

/// The axis positions of cell `idx`: the mixed-radix digits of `idx`
/// over `lens`, the last axis varying fastest.
pub open spec fn cell_digits(lens: Seq<usize>, idx: nat) -> Seq<nat>
    decreases lens.len(),
{
    if lens.len() == 0 {
        seq![]
    } else {
        let l = lens.last() as nat;
        cell_digits(lens.drop_last(), idx / l).push(idx % l)
    }
}

/// The cell number of the given axis positions (the inverse numbering).
pub open spec fn cell_index(lens: Seq<usize>, digits: Seq<nat>) -> nat
    decreases lens.len(),
{
    if lens.len() == 0 || digits.len() == 0 {
        0
    } else {
        cell_index(lens.drop_last(), digits.drop_last()) * (lens.last() as nat) + digits.last()
    }
}

/// Every axis has at least one point.
pub open spec fn all_positive(lens: Seq<usize>) -> bool {
    forall|i: int| 0 <= i < lens.len() ==> #[trigger] lens[i] > 0
}

/// Positions that lie on the grid.
pub open spec fn digits_in_range(lens: Seq<usize>, digits: Seq<nat>) -> bool {
    &&& digits.len() == lens.len()
    &&& forall|i: int| 0 <= i < lens.len() ==> #[trigger] digits[i] < lens[i]
}

/// The position of each axis for grid cell `idx`, first axis slowest.
pub fn decode_cell(lens: &[usize], idx: usize) -> (r: Vec<usize>)
    requires
        all_positive(lens@),
    ensures
        r@.len() == lens@.len(),
        forall|i: int| 0 <= i < lens@.len() ==> r@[i] == #[trigger] cell_digits(lens@, idx as nat)[i],
{
    let n = lens.len();
    let mut values: Vec<usize> = Vec::new();
    while values.len() < n
        invariant
            values@.len() <= n,
            n == lens@.len(),
        decreases n - values@.len(),
    {
        values.push(0);
    }
    let mut rem: usize = idx;
    let mut i: usize = n;
    proof {
        lemma_digits_len(lens@, idx as nat);
        assert(lens@.take(n as int) =~= lens@);
    }
    while i > 0
        invariant
            i <= n == lens@.len() == values@.len(),
            all_positive(lens@),
            cell_digits(lens@, idx as nat) == cell_digits(lens@.take(i as int), rem as nat) + values@.subrange(
                i as int,
                n as int,
            ).map_values(|v: usize| v as nat),
        decreases i,
    {
        let len = lens[i - 1];
        assert(len == lens@[i - 1]);
        let d = rem % len;
        let ghost old_values = values@;
        let ghost old_rem = rem;
        values.set(i - 1, d);
        rem = rem / len;
        proof {
            let pre = lens@.take(i as int);
            assert(pre.drop_last() =~= lens@.take(i - 1));
            assert(pre.last() == len);
            assert(cell_digits(pre, old_rem as nat) == cell_digits(lens@.take(i - 1), rem as nat).push(
                d as nat,
            ));
            assert(values@.subrange(i - 1, n as int).map_values(|v: usize| v as nat) =~= seq![
                d as nat,
            ] + old_values.subrange(i as int, n as int).map_values(|v: usize| v as nat));
            assert(cell_digits(lens@.take(i - 1), rem as nat).push(d as nat) + old_values.subrange(
                i as int,
                n as int,
            ).map_values(|v: usize| v as nat) =~= cell_digits(lens@.take(i - 1), rem as nat)
                + values@.subrange(i - 1, n as int).map_values(|v: usize| v as nat));
        }
        i -= 1;
    }
    proof {
        assert(lens@.take(0) =~= Seq::<usize>::empty());
        assert(values@.subrange(0, n as int) =~= values@);
        assert forall|k: int| 0 <= k < lens@.len() implies values@[k] == #[trigger] cell_digits(
            lens@,
            idx as nat,
        )[k] by {
            assert(cell_digits(lens@, idx as nat)[k] == values@.map_values(|v: usize| v as nat)[k]);
        }
    }
    values
}

proof fn lemma_positive_init(lens: Seq<usize>)
    requires
        all_positive(lens),
        lens.len() > 0,
    ensures
        all_positive(lens.drop_last()),
        lens.last() > 0,
{
    assert(lens[lens.len() - 1] > 0);
    assert forall|i: int| 0 <= i < lens.len() - 1 implies #[trigger] lens.drop_last()[i] > 0 by {
        assert(lens.drop_last()[i] == lens[i]);
    }
}

proof fn lemma_digits_len(lens: Seq<usize>, idx: nat)
    requires
        all_positive(lens),
    ensures
        cell_digits(lens, idx).len() == lens.len(),
    decreases lens.len(),
{
    if lens.len() > 0 {
        lemma_positive_init(lens);
        lemma_digits_len(lens.drop_last(), idx / (lens.last() as nat));
    }
}

/// Numbering law: decoding a cell number below the grid size gives
/// positions on the grid, and numbering those positions gives the cell
/// number back.
pub proof fn law_decode_then_number(lens: Seq<usize>, idx: nat)
    requires
        all_positive(lens),
        idx < grid_size(lens),
    ensures
        digits_in_range(lens, cell_digits(lens, idx)),
        cell_index(lens, cell_digits(lens, idx)) == idx,
    decreases lens.len(),
{
    lemma_digits_len(lens, idx);
    if lens.len() > 0 {
        let l = lens.last() as nat;
        let init = lens.drop_last();
        assert(l > 0) by {
            assert(lens[lens.len() - 1] > 0);
        }
        lemma_fundamental_div_mod(idx as int, l as int);
        lemma_mod_bound(idx as int, l as int);
        let q = idx / l;
        let r = idx % l;
        let g = grid_size(init);
        assert(grid_size(lens) == g * l);
        assert(q < g) by (nonlinear_arith)
            requires
                idx == l * q + r,
                0 <= r,
                idx < g * l,
                l > 0,
                q >= 0,
        ;
        assert(all_positive(init)) by {
            assert forall|i: int| 0 <= i < init.len() implies #[trigger] init[i] > 0 by {
                assert(init[i] == lens[i]);
            }
        }
        law_decode_then_number(init, q);
        let d = cell_digits(lens, idx);
        assert(d.drop_last() =~= cell_digits(init, q));
        assert(cell_index(lens, d) == cell_index(init, cell_digits(init, q)) * l + r);
        assert(q * l + r == idx) by (nonlinear_arith)
            requires
                idx == l * q + r,
        ;
        assert forall|i: int| 0 <= i < lens.len() implies #[trigger] d[i] < lens[i] by {
            if i < lens.len() - 1 {
                assert(d[i] == cell_digits(init, q)[i]);
                assert(lens[i] == init[i]);
            }
        }
    }
}

/// Numbering law, the other way: positions on the grid get a cell number
/// below the grid size, and decoding it gives the same positions.
pub proof fn law_number_then_decode(lens: Seq<usize>, digits: Seq<nat>)
    requires
        all_positive(lens),
        digits_in_range(lens, digits),
    ensures
        cell_index(lens, digits) < grid_size(lens),
        cell_digits(lens, cell_index(lens, digits)) == digits,
    decreases lens.len(),
{
    if lens.len() == 0 {
        assert(digits =~= Seq::<nat>::empty());
    } else {
        let l = lens.last() as nat;
        let init = lens.drop_last();
        let dinit = digits.drop_last();
        assert(l > 0) by {
            assert(lens[lens.len() - 1] > 0);
        }
        assert(all_positive(init)) by {
            assert forall|i: int| 0 <= i < init.len() implies #[trigger] init[i] > 0 by {
                assert(init[i] == lens[i]);
            }
        }
        assert(digits_in_range(init, dinit)) by {
            assert forall|i: int| 0 <= i < init.len() implies #[trigger] dinit[i] < init[i] by {
                assert(dinit[i] == digits[i]);
                assert(init[i] == lens[i]);
            }
        }
        law_number_then_decode(init, dinit);
        let q = cell_index(init, dinit);
        let last = digits.last();
        assert(last < l) by {
            assert(digits[digits.len() - 1] < lens[lens.len() - 1]);
        }
        let idx = q * l + last;
        assert(cell_index(lens, digits) == idx);
        lemma_fundamental_div_mod_converse(idx as int, l as int, q as int, last as int);
        let g = grid_size(init);
        assert(grid_size(lens) == g * l);
        assert(idx < g * l) by (nonlinear_arith)
            requires
                idx == q * l + last,
                last < l,
                q < g,
                q >= 0,
        ;
        assert(cell_digits(lens, idx) =~= dinit.push(last));
        assert(dinit.push(last) =~= digits);
    }
}

} // verus!
