//! Replay metrics vocabulary: the recovery status of a drawdown, the
//! Monte Carlo resampling mode, and the block starts of a block
//! bootstrap.
use vstd::prelude::*;

verus! {

/// Recovery outcome relative to the max-drawdown trough.
#[derive(Debug, Clone, Copy, PartialEq, Eq, Structural)]
pub enum RecoveryStatus {
    /// The bankroll never dropped below a prior peak.
    NeverUnderwater,
    /// The trough recovered to the prior peak within the path.
    Recovered,
    /// The trough never recovered to the prior peak.
    Unrecovered,
}

impl RecoveryStatus {
    /// The status word written into reports.
    pub fn as_str(self) -> (r: &'static str)
        ensures
            r@ == match self {
                RecoveryStatus::NeverUnderwater => "never_underwater"@,
                RecoveryStatus::Recovered => "recovered"@,
                RecoveryStatus::Unrecovered => "unrecovered"@,
            },
    {
        match self {
            RecoveryStatus::NeverUnderwater => "never_underwater",
            RecoveryStatus::Recovered => "recovered",
            RecoveryStatus::Unrecovered => "unrecovered",
        }
    }
}

/// Monte Carlo resampling: independent draws, or blocks of a length
/// (0: chosen from the pool size).
#[derive(Debug, Clone, Copy, PartialEq, Eq, Structural)]
pub enum Resample {
    Iid,
    Block(usize),
}

/// The starts of the whole blocks of length `len` in a pool of `n`
/// (`0, len, 2·len, ...`), or the single start 0 when no whole block fits
/// or either is zero.
pub open spec fn block_starts_spec(n: nat, len: nat) -> Seq<nat> {
    if len == 0 || n == 0 || n / len == 0 {
        seq![0nat]
    } else {
        Seq::new(n / len, |i: int| (i * len) as nat)
    }
}

/// The values of a list of indices, as natural numbers.
pub open spec fn as_nats(s: Seq<usize>) -> Seq<nat> {
    s.map_values(|x: usize| x as nat)
}

/// The block starts of a block bootstrap.
pub fn block_starts(n: usize, len: usize) -> (r: Vec<usize>)
    requires
        len == 0 || n == 0 || (n / len + 1) * len <= usize::MAX,
    ensures
        as_nats(r@) == block_starts_spec(n as nat, len as nat),
{
    if len == 0 || n == 0 {
        let r = vec![0usize];
        assert(as_nats(r@) =~= seq![0nat]);
        return r;
    }
    let ghost k = n / len;
    let mut starts: Vec<usize> = Vec::new();
    let mut s: usize = 0;
    let mut c: usize = 0;
    proof {
        vstd::arithmetic::div_mod::lemma_fundamental_div_mod(n as int, len as int);
        assert(k * len <= n) by (nonlinear_arith)
            requires
                n == len * k + n % len,
                0 <= n % len,
        ;
        assert(n < (k + 1) * len) by (nonlinear_arith)
            requires
                n == len * k + n % len,
                n % len < len,
        ;
    }
    assert((0 + 1) * len == len) by (nonlinear_arith);
    assert(len <= (k + 1) * len) by (nonlinear_arith)
        requires
            len > 0,
    ;
    while s + len <= n
        invariant
            len > 0,
            k == n / len,
            k * len <= n < (k + 1) * len,
            (k + 1) * len <= usize::MAX,
            c <= k,
            s == c * len,
            s + len <= (k + 1) * len,
            starts@.len() == c,
            as_nats(starts@) == Seq::new(c as nat, |i: int| (i * len) as nat),
        decreases k - c,
    {
        assert((c + 1) * len == c * len + len) by (nonlinear_arith);
        assert(c + 1 <= k) by (nonlinear_arith)
            requires
                (c + 1) * len <= n,
                n < (k + 1) * len,
                s == c * len,
                len > 0,
        ;
        let ghost prev = starts@;
        starts.push(s);
        assert((c + 1) * len == c * len + len) by (nonlinear_arith);
        assert((c + 2) * len <= (k + 1) * len) by (nonlinear_arith)
            requires
                c + 1 <= k,
                len > 0,
        ;
        assert((c + 2) * len == (c + 1) * len + len) by (nonlinear_arith);
        s = s + len;
        c = c + 1;
        assert(as_nats(starts@) =~= Seq::new(c as nat, |i: int| (i * len) as nat)) by {
            assert(starts@ == prev.push(((c - 1) * len) as usize));
            assert forall|i: int| 0 <= i < c implies #[trigger] as_nats(starts@)[i] == (
            i * len) as nat by {
                if i < c - 1 {
                    assert(starts@[i] == prev[i]);
                    assert(as_nats(prev)[i] == (i * len) as nat);
                }
            }
        }
    }
    assert(c >= k) by (nonlinear_arith)
        requires
            s + len > n,
            s == c * len,
            k * len <= n,
            len > 0,
    ;
    if starts.len() == 0 {
        starts.push(0);
        assert(as_nats(starts@) =~= seq![0nat]);
    }
    starts
}

} // verus!
