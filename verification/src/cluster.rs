//! Two-cluster model over fingerprints in Hamming space.
//!
//! A batch of fingerprints is split into two clusters: a first centroid is
//! seeded as the per-bit majority vote of the whole batch, a second as the
//! batch member farthest from the first (its bitwise complement when the
//! batch is empty or degenerate). A fixed number of refinement rounds then
//! reassigns every fingerprint to its Hamming-closest centroid and recomputes
//! each non-empty cluster's centroid as the majority vote of its members.
//! For each final cluster the model keeps the exact in-cluster distance
//! statistics (member count, sum and sum of squares of distances), from which
//! the mean and standard deviation used by the presence rule derive.

use vstd::prelude::*;

use crate::fingerprint::bit64;
use crate::fingerprint::hamming;
use crate::fingerprint::hamming_distance;
use crate::fingerprint::lemma_hamming_self;

verus! {

/// Number of refinement rounds run after seeding.
pub const REFINE_ROUNDS: usize = 5;

/// Exact in-cluster distance statistics: `members` fingerprints, with
/// `dist_sum` and `dist_sq_sum` the sum and sum of squares of their Hamming
/// distances to the cluster's centroid. The learned mean is
/// `dist_sum / members` and the learned variance is
/// `(members * dist_sq_sum - dist_sum^2) / members^2`; keeping the integer
/// sums keeps both exact.
#[derive(Clone, Copy, Debug, PartialEq, Eq, Structural)]
pub struct ClusterStats {
    pub members: u64,
    pub dist_sum: u64,
    pub dist_sq_sum: u64,
}

/// The learned two-cluster model: two distinct centroids and, per centroid,
/// the distance statistics of its final cluster.
#[derive(Clone, Copy, Debug, PartialEq, Eq, Structural)]
pub struct ClusterModel {
    pub c0: u64,
    pub c1: u64,
    pub stats0: ClusterStats,
    pub stats1: ClusterStats,
}

impl ClusterStats {
    /// Bounds every learned statistic satisfies: distances are at most 64,
    /// their squares at most 4096, and the member count is bounded by the
    /// batch bound, so all the decision arithmetic fits in 128 bits.
    pub open spec fn wf(self) -> bool {
        &&& self.members <= 0x1_0000_0000
        &&& self.dist_sum <= 64 * self.members
        &&& self.dist_sq_sum <= 4096 * self.members
    }
}

impl ClusterModel {
    /// A well-formed model: distinct centroids and bounded statistics.
    pub open spec fn wf(self) -> bool {
        &&& self.c0 != self.c1
        &&& self.stats0.wf()
        &&& self.stats1.wf()
    }
}

/// Among the first `k` entries, how many are selected (`sel[j] == which`).
pub open spec fn count_sel_upto(sel: Seq<bool>, which: bool, k: int) -> nat
    decreases k,
{
    if k <= 0 {
        0
    } else {
        count_sel_upto(sel, which, k - 1) + (if sel[k - 1] == which {
            1nat
        } else {
            0nat
        })
    }
}

/// Among the first `k` fingerprints, how many are selected and have bit `i`
/// set.
pub open spec fn count_set_sel_upto(
    fps: Seq<u64>,
    sel: Seq<bool>,
    which: bool,
    i: u64,
    k: int,
) -> nat
    decreases k,
{
    if k <= 0 {
        0
    } else {
        count_set_sel_upto(fps, sel, which, i, k - 1) + (if sel[k - 1] == which && bit64(
            fps[k - 1],
            i,
        ) {
            1nat
        } else {
            0nat
        })
    }
}

/// Majority vote for bit `i` among the selected fingerprints: set when at
/// least half of them have it set, ties rounding in favour of setting.
pub open spec fn vote_bit(fps: Seq<u64>, sel: Seq<bool>, which: bool, i: u64) -> bool {
    2 * count_set_sel_upto(fps, sel, which, i, fps.len() as int) >= count_sel_upto(
        sel,
        which,
        fps.len() as int,
    )
}

/// `c` is the per-bit majority vote of the selected fingerprints.
pub open spec fn is_vote_word(fps: Seq<u64>, sel: Seq<bool>, which: bool, c: u64) -> bool {
    forall|i: u64| i < 64 ==> (#[trigger] bit64(c, i)) == vote_bit(fps, sel, which, i)
}

/// The selection that picks the whole batch.
pub open spec fn full_sel(n: int) -> Seq<bool> {
    Seq::new(n as nat, |j: int| true)
}

/// The first seed centroid: the per-bit majority vote of the whole batch.
pub open spec fn seed0_ok(fps: Seq<u64>, c0: u64) -> bool {
    is_vote_word(fps, full_sel(fps.len() as int), true, c0)
}

/// The second seed centroid: the earliest batch member at maximum Hamming
/// distance from `c0`, or the bitwise complement of `c0` when the batch is
/// empty or degenerate (every member at distance zero).
pub open spec fn seed1_ok(fps: Seq<u64>, c0: u64, c1: u64) -> bool {
    if forall|j: int| 0 <= j < fps.len() ==> hamming(#[trigger] fps[j], c0) == 0 {
        c1 == !c0
    } else {
        exists|i: int|
            0 <= i < fps.len() && c1 == fps[i] && (forall|j: int|
                0 <= j < fps.len() ==> hamming(#[trigger] fps[j], c0) <= hamming(fps[i], c0))
                && (forall|j: int|
                0 <= j < i ==> hamming(#[trigger] fps[j], c0) < hamming(fps[i], c0))
    }
}

/// Assignment of every fingerprint to its Hamming-closest centroid:
/// entry `j` is `true` when fingerprint `j` is strictly closer to `c1`
/// (ties favour the first cluster).
pub open spec fn assign_spec(fps: Seq<u64>, c0: u64, c1: u64) -> Seq<bool> {
    Seq::new(fps.len(), |j: int| hamming(fps[j], c1) < hamming(fps[j], c0))
}

/// One refinement round from centroid pair `prev`, recomputing the two
/// centroids as `v0` and `v1` and yielding `next`: reassign, then recompute
/// each non-empty cluster's centroid as the majority vote of its members (an
/// empty cluster keeps its centroid). A round whose two recomputed centroids
/// would coincide is rejected as degenerate and keeps the previous pair, so
/// distinct centroids stay distinct.
pub open spec fn round_rel_with(
    fps: Seq<u64>,
    prev: (u64, u64),
    next: (u64, u64),
    v0: u64,
    v1: u64,
) -> bool {
    let sel = assign_spec(fps, prev.0, prev.1);
    &&& (if count_sel_upto(sel, false, fps.len() as int) > 0 {
        is_vote_word(fps, sel, false, v0)
    } else {
        v0 == prev.0
    })
    &&& (if count_sel_upto(sel, true, fps.len() as int) > 0 {
        is_vote_word(fps, sel, true, v1)
    } else {
        v1 == prev.1
    })
    &&& (if v0 == v1 {
        next == prev
    } else {
        next == (v0, v1)
    })
}

/// One refinement round from centroid pair `prev` to `next`.
pub open spec fn round_rel(fps: Seq<u64>, prev: (u64, u64), next: (u64, u64)) -> bool {
    exists|v0: u64, v1: u64| #[trigger] round_rel_with(fps, prev, next, v0, v1)
}

/// `b` is reachable from `a` by exactly `n` refinement rounds.
pub open spec fn rounds_rel(fps: Seq<u64>, a: (u64, u64), b: (u64, u64), n: nat) -> bool
    decreases n,
{
    if n == 0 {
        a == b
    } else {
        exists|m: (u64, u64)|
            (#[trigger] round_rel(fps, a, m)) && rounds_rel(fps, m, b, (n - 1) as nat)
    }
}

proof fn lemma_rounds_snoc(fps: Seq<u64>, a: (u64, u64), m: (u64, u64), b: (u64, u64), n: nat)
    requires
        rounds_rel(fps, a, m, n),
        round_rel(fps, m, b),
    ensures
        rounds_rel(fps, a, b, n + 1),
    decreases n,
{
    if n == 0 {
        assert(round_rel(fps, a, b) && rounds_rel(fps, b, b, 0));
    } else {
        let mid = choose|mid: (u64, u64)|
            round_rel(fps, a, mid) && rounds_rel(fps, mid, m, (n - 1) as nat);
        lemma_rounds_snoc(fps, mid, m, b, (n - 1) as nat);
    }
}

/// Sum of the Hamming distances to `c` of the selected fingerprints among
/// the first `k`.
pub open spec fn dist_sum_upto(fps: Seq<u64>, sel: Seq<bool>, which: bool, c: u64, k: int) -> nat
    decreases k,
{
    if k <= 0 {
        0
    } else {
        dist_sum_upto(fps, sel, which, c, k - 1) + (if sel[k - 1] == which {
            hamming(fps[k - 1], c)
        } else {
            0nat
        })
    }
}

/// Sum of the squared Hamming distances to `c` of the selected fingerprints
/// among the first `k`.
pub open spec fn dist_sq_sum_upto(fps: Seq<u64>, sel: Seq<bool>, which: bool, c: u64, k: int) -> nat
    decreases k,
{
    if k <= 0 {
        0
    } else {
        dist_sq_sum_upto(fps, sel, which, c, k - 1) + (if sel[k - 1] == which {
            hamming(fps[k - 1], c) * hamming(fps[k - 1], c)
        } else {
            0nat
        })
    }
}

/// `st` holds exactly the distance statistics of the selected cluster with
/// centroid `c`.
pub open spec fn stats_ok(fps: Seq<u64>, sel: Seq<bool>, which: bool, c: u64, st: ClusterStats) -> bool {
    &&& st.members == count_sel_upto(sel, which, fps.len() as int)
    &&& st.dist_sum == dist_sum_upto(fps, sel, which, c, fps.len() as int)
    &&& st.dist_sq_sum == dist_sq_sum_upto(fps, sel, which, c, fps.len() as int)
}

/// The whole fit: seeds, exactly `REFINE_ROUNDS` refinement rounds, and the
/// exact statistics of the two clusters induced by the final centroids.
pub open spec fn fit_ok(fps: Seq<u64>, m: ClusterModel) -> bool {
    &&& exists|s0: u64, s1: u64|
        seed0_ok(fps, s0) && seed1_ok(fps, s0, s1) && rounds_rel(
            fps,
            (s0, s1),
            (m.c0, m.c1),
            REFINE_ROUNDS as nat,
        )
    &&& stats_ok(fps, assign_spec(fps, m.c0, m.c1), false, m.c0, m.stats0)
    &&& stats_ok(fps, assign_spec(fps, m.c0, m.c1), true, m.c1, m.stats1)
}

proof fn lemma_count_sel_bounds(fps: Seq<u64>, sel: Seq<bool>, which: bool, i: u64, k: int)
    requires
        k >= 0,
    ensures
        count_set_sel_upto(fps, sel, which, i, k) <= count_sel_upto(sel, which, k) <= k,
    decreases k,
{
    if k > 0 {
        lemma_count_sel_bounds(fps, sel, which, i, k - 1);
    }
}

/// Per-bit majority vote among the selected fingerprints.
pub fn majority_vote(fps: &Vec<u64>, sel: &Vec<bool>, which: bool) -> (c: u64)
    requires
        sel.len() == fps.len(),
    ensures
        is_vote_word(fps@, sel@, which, c),
{
    let n: usize = fps.len();
    let mut c: u64 = 0;
    proof {
        crate::fingerprint::lemma_u64_zero_bits();
    }
    let mut i: usize = 0;
    while i < 64
        invariant
            sel.len() == fps.len(),
            n == fps.len(),
            i <= 64,
            forall|j: u64| j < i ==> (#[trigger] bit64(c, j)) == vote_bit(fps@, sel@, which, j),
            forall|j: u64| i <= j < 64 ==> !(#[trigger] bit64(c, j)),
        decreases 64 - i,
    {
        let mut cnt: usize = 0;
        let mut m: usize = 0;
        let mut k: usize = 0;
        while k < n
            invariant
                sel.len() == fps.len(),
                n == fps.len(),
                i < 64,
                k <= n,
                cnt == count_set_sel_upto(fps@, sel@, which, i as u64, k as int),
                m == count_sel_upto(sel@, which, k as int),
                cnt <= m <= k,
            decreases n - k,
        {
            if sel[k] == which {
                m = m + 1;
                if (fps[k] >> (i as u64)) & 1u64 == 1u64 {
                    cnt = cnt + 1;
                }
            }
            k = k + 1;
        }
        if cnt >= m - cnt {
            let ghost old_c = c;
            c = c | (1u64 << (i as u64));
            proof {
                assert forall|j: u64| j < 64 implies (#[trigger] bit64(c, j)) == (if j == i {
                    true
                } else {
                    bit64(old_c, j)
                }) by {
                    crate::fingerprint::lemma_u64_set_bit(old_c, i as u64, j);
                }
                assert(vote_bit(fps@, sel@, which, i as u64));
            }
        } else {
            proof {
                assert(!vote_bit(fps@, sel@, which, i as u64));
            }
        }
        i = i + 1;
    }
    c
}

/// Seed the second centroid: the earliest batch member farthest from `c0`,
/// or the complement of `c0` for an empty or degenerate batch. The result
/// always differs from `c0`.
pub fn seed_second(fps: &Vec<u64>, c0: u64) -> (c1: u64)
    ensures
        seed1_ok(fps@, c0, c1),
        c1 != c0,
{
    let n: usize = fps.len();
    if n == 0 {
        proof {
            assert(!c0 != c0) by (bit_vector);
        }
        return !c0;
    }
    let mut best_i: usize = 0;
    let mut best_d: u32 = hamming_distance(fps[0], c0);
    let mut k: usize = 1;
    while k < n
        invariant
            n == fps.len(),
            1 <= k <= n,
            best_i < k,
            best_d == hamming(fps@[best_i as int], c0),
            forall|j: int| 0 <= j < k ==> hamming(#[trigger] fps@[j], c0) <= best_d,
            forall|j: int| 0 <= j < best_i ==> hamming(#[trigger] fps@[j], c0) < best_d,
        decreases n - k,
    {
        let d: u32 = hamming_distance(fps[k], c0);
        if d > best_d {
            best_i = k;
            best_d = d;
        }
        k = k + 1;
    }
    if best_d == 0 {
        proof {
            assert(!c0 != c0) by (bit_vector);
            assert forall|j: int| 0 <= j < fps@.len() implies hamming(#[trigger] fps@[j], c0)
                == 0 by {
                assert(hamming(fps@[j], c0) <= best_d);
            }
        }
        !c0
    } else {
        proof {
            lemma_hamming_self(c0);
            assert(hamming(fps@[best_i as int], c0) != 0);
        }
        fps[best_i]
    }
}

/// Assign every fingerprint to its Hamming-closest centroid.
pub fn assign(fps: &Vec<u64>, c0: u64, c1: u64) -> (sel: Vec<bool>)
    ensures
        sel@ == assign_spec(fps@, c0, c1),
{
    let n: usize = fps.len();
    let mut sel: Vec<bool> = Vec::new();
    let mut k: usize = 0;
    while k < n
        invariant
            n == fps.len(),
            k <= n,
            sel.len() == k,
            forall|j: int|
                0 <= j < k ==> sel@[j] == (hamming(#[trigger] fps@[j], c1) < hamming(fps@[j], c0)),
        decreases n - k,
    {
        let d0: u32 = hamming_distance(fps[k], c0);
        let d1: u32 = hamming_distance(fps[k], c1);
        sel.push(d1 < d0);
        k = k + 1;
    }
    proof {
        assert(sel@ =~= assign_spec(fps@, c0, c1));
    }
    sel
}

/// Exact distance statistics of the selected cluster around centroid `c`.
pub fn compute_stats(fps: &Vec<u64>, sel: &Vec<bool>, which: bool, c: u64) -> (st: ClusterStats)
    requires
        sel.len() == fps.len(),
        fps@.len() <= 0x1_0000_0000,
    ensures
        stats_ok(fps@, sel@, which, c, st),
        st.wf(),
{
    let n: usize = fps.len();
    let mut members: u64 = 0;
    let mut dist_sum: u64 = 0;
    let mut dist_sq_sum: u64 = 0;
    let mut k: usize = 0;
    while k < n
        invariant
            sel.len() == fps.len(),
            n == fps.len(),
            n <= 0x1_0000_0000,
            k <= n,
            members == count_sel_upto(sel@, which, k as int),
            dist_sum == dist_sum_upto(fps@, sel@, which, c, k as int),
            dist_sq_sum == dist_sq_sum_upto(fps@, sel@, which, c, k as int),
            members <= k,
            dist_sum <= 64 * members,
            dist_sq_sum <= 4096 * members,
        decreases n - k,
    {
        if sel[k] == which {
            let d: u32 = hamming_distance(fps[k], c);
            let dw: u64 = d as u64;
            proof {
                assert(dw * dw <= 4096) by (nonlinear_arith)
                    requires
                        dw <= 64,
                ;
            }
            members = members + 1;
            dist_sum = dist_sum + dw;
            dist_sq_sum = dist_sq_sum + dw * dw;
        }
        k = k + 1;
    }
    ClusterStats { members, dist_sum, dist_sq_sum }
}

/// Fit the two-cluster model to a batch of fingerprints: seed both
/// centroids, run the refinement rounds, and learn the per-cluster distance
/// statistics. The two learned centroids always differ.
pub fn fit_model(fps: &Vec<u64>) -> (m: ClusterModel)
    requires
        fps@.len() <= 0x1_0000_0000,
    ensures
        fit_ok(fps@, m),
        m.wf(),
{
    let n: usize = fps.len();
    let all: Vec<bool> = vec![true; n];
    proof {
        assert(all@ =~= full_sel(fps@.len() as int));
    }
    let s0: u64 = majority_vote(fps, &all, true);
    let s1: u64 = seed_second(fps, s0);
    let mut c0: u64 = s0;
    let mut c1: u64 = s1;
    let mut r: usize = 0;
    while r < REFINE_ROUNDS
        invariant
            n == fps.len(),
            n <= 0x1_0000_0000,
            r <= REFINE_ROUNDS,
            c0 != c1,
            seed0_ok(fps@, s0),
            seed1_ok(fps@, s0, s1),
            rounds_rel(fps@, (s0, s1), (c0, c1), r as nat),
        decreases REFINE_ROUNDS - r,
    {
        let ghost prev = (c0, c1);
        let sel: Vec<bool> = assign(fps, c0, c1);
        let mut in1: usize = 0;
        let mut in0: usize = 0;
        let mut k: usize = 0;
        while k < n
            invariant
                sel.len() == fps.len(),
                n == fps.len(),
                k <= n,
                in1 == count_sel_upto(sel@, true, k as int),
                in0 == count_sel_upto(sel@, false, k as int),
                in1 + in0 == k,
            decreases n - k,
        {
            if sel[k] {
                in1 = in1 + 1;
            } else {
                in0 = in0 + 1;
            }
            k = k + 1;
        }
        let v0: u64 = if in0 > 0 {
            majority_vote(fps, &sel, false)
        } else {
            c0
        };
        let v1: u64 = if in1 > 0 {
            majority_vote(fps, &sel, true)
        } else {
            c1
        };
        if v0 != v1 {
            c0 = v0;
            c1 = v1;
        }
        proof {
            assert(round_rel_with(fps@, prev, (c0, c1), v0, v1));
            assert(round_rel(fps@, prev, (c0, c1)));
            lemma_rounds_snoc(fps@, (s0, s1), prev, (c0, c1), r as nat);
        }
        r = r + 1;
    }
    let fsel: Vec<bool> = assign(fps, c0, c1);
    let stats0: ClusterStats = compute_stats(fps, &fsel, false, c0);
    let stats1: ClusterStats = compute_stats(fps, &fsel, true, c1);
    let m = ClusterModel { c0, c1, stats0, stats1 };
    proof {
        assert(seed0_ok(fps@, s0) && seed1_ok(fps@, s0, s1) && rounds_rel(
            fps@,
            (s0, s1),
            (m.c0, m.c1),
            REFINE_ROUNDS as nat,
        ));
    }
    m
}

/// The presence rule for one cluster: the distance `d` of a fingerprint to
/// its nearest centroid is an outlier when it exceeds `mean + k * stddev`
/// of that cluster, with `k` given in tenths. An empty cluster uses the
/// safe default `(mean, stddev) = (0, 1)`, and a cluster whose computed
/// standard deviation is zero has it clamped to 1, so the band never
/// degenerates to zero width. Stated over the exact integer statistics:
/// with `n` members, distance sum `s` and square sum `q`, the mean is
/// `s / n` and the variance `(n*q - s*s) / n^2`, and every comparison below
/// is the exact rational comparison with denominators cleared.
pub open spec fn outlier_spec(d: nat, st: ClusterStats, k: nat) -> bool {
    let n = st.members as int;
    let s = st.dist_sum as int;
    let q = st.dist_sq_sum as int;
    if n == 0 {
        10 * d > k
    } else if n * q <= s * s {
        10 * (n * d) > 10 * s + n * k
    } else {
        10 * (n * d) > 10 * s && 100 * ((n * d - s) * (n * d - s)) > (k * k) * (n * q - s * s)
    }
}

/// The model flags a fingerprint as present when its distance to the nearer
/// centroid (ties favouring the first) is an outlier for that cluster.
pub open spec fn model_flags_spec(m: ClusterModel, k: nat, fp: u64) -> bool {
    if hamming(fp, m.c0) <= hamming(fp, m.c1) {
        outlier_spec(hamming(fp, m.c0), m.stats0, k)
    } else {
        outlier_spec(hamming(fp, m.c1), m.stats1, k)
    }
}

fn outlier_check(d: u32, st: &ClusterStats, k_tenths: u32) -> (r: bool)
    requires
        st.wf(),
        d <= 64,
        k_tenths <= 0x100_0000,
    ensures
        r == outlier_spec(d as nat, *st, k_tenths as nat),
{
    let n: u128 = st.members as u128;
    let s: u128 = st.dist_sum as u128;
    let q: u128 = st.dist_sq_sum as u128;
    let dd: u128 = d as u128;
    let k: u128 = k_tenths as u128;
    if n == 0 {
        return 10 * dd > k;
    }
    proof {
        assert(n * q <= 0x1000_0000_0000_0000_0000 && s * s <= 0x1000_0000_0000_0000_0000 && n * dd
            <= 0x40_0000_0000 && n * k <= 0x100_0000_0000_0000 && k * k
            <= 0x1_0000_0000_0000) by (nonlinear_arith)
            requires
                n <= 0x1_0000_0000,
                s <= 64 * n,
                q <= 4096 * n,
                dd <= 64,
                k <= 0x100_0000,
        ;
    }
    let nq: u128 = n * q;
    let ss: u128 = s * s;
    let nd: u128 = n * dd;
    if nq <= ss {
        10 * nd > 10 * s + n * k
    } else {
        if 10 * nd <= 10 * s {
            false
        } else {
            let a: u128 = nd - s;
            let kk: u128 = k * k;
            proof {
                assert(a * a <= 0x1000_0000_0000_0000_0000) by (nonlinear_arith)
                    requires
                        a <= 0x40_0000_0000,
                ;
                assert(kk * (nq - ss) <= 0x1000_0000_0000_0000_0000_0000_0000_0000) by (
                nonlinear_arith)
                    requires
                        kk <= 0x1_0000_0000_0000,
                        nq - ss <= 0x1000_0000_0000_0000_0000,
                ;
            }
            100 * (a * a) > kk * (nq - ss)
        }
    }
}

/// Decide presence for one fingerprint against the learned model, with the
/// band width `k` given in tenths (25 means `k = 2.5`).
pub fn decide_fingerprint(m: &ClusterModel, k_tenths: u32, fp: u64) -> (present: bool)
    requires
        m.wf(),
        k_tenths <= 0x100_0000,
    ensures
        present == model_flags_spec(*m, k_tenths as nat, fp),
{
    let d0: u32 = hamming_distance(fp, m.c0);
    let d1: u32 = hamming_distance(fp, m.c1);
    if d0 <= d1 {
        outlier_check(d0, &m.stats0, k_tenths)
    } else {
        outlier_check(d1, &m.stats1, k_tenths)
    }
}

/// The two learned centroids of a fitted model are never bit-identical:
/// seeding makes the seeds differ, and a refinement round that would
/// collapse the two centroids onto one word keeps the previous pair
/// instead. This holds for every batch, in particular for any batch with at
/// least two distinct fingerprints.
pub proof fn lemma_centroids_distinct(fps: Seq<u64>, m: ClusterModel)
    requires
        fit_ok(fps, m),
    ensures
        m.c0 != m.c1,
{
    let (s0, s1) = choose|s0: u64, s1: u64|
        seed0_ok(fps, s0) && seed1_ok(fps, s0, s1) && rounds_rel(
            fps,
            (s0, s1),
            (m.c0, m.c1),
            REFINE_ROUNDS as nat,
        );
    lemma_seed_distinct(fps, s0, s1);
    lemma_rounds_preserve_distinct(fps, (s0, s1), (m.c0, m.c1), REFINE_ROUNDS as nat);
}

proof fn lemma_seed_distinct(fps: Seq<u64>, s0: u64, s1: u64)
    requires
        seed1_ok(fps, s0, s1),
    ensures
        s1 != s0,
{
    if forall|j: int| 0 <= j < fps.len() ==> hamming(#[trigger] fps[j], s0) == 0 {
        assert(!s0 != s0) by (bit_vector);
    } else {
        let i = choose|i: int|
            0 <= i < fps.len() && s1 == fps[i] && (forall|j: int|
                0 <= j < fps.len() ==> hamming(#[trigger] fps[j], s0) <= hamming(fps[i], s0)) && (
            forall|j: int| 0 <= j < i ==> hamming(#[trigger] fps[j], s0) < hamming(fps[i], s0));
        let w = choose|w: int| 0 <= w < fps.len() && hamming(fps[w], s0) != 0;
        assert(hamming(fps[w], s0) <= hamming(fps[i], s0));
        if s1 == s0 {
            lemma_hamming_self(s0);
        }
    }
}

proof fn lemma_rounds_preserve_distinct(fps: Seq<u64>, a: (u64, u64), b: (u64, u64), n: nat)
    requires
        rounds_rel(fps, a, b, n),
        a.0 != a.1,
    ensures
        b.0 != b.1,
    decreases n,
{
    if n > 0 {
        let mid = choose|mid: (u64, u64)|
            (#[trigger] round_rel(fps, a, mid)) && rounds_rel(fps, mid, b, (n - 1) as nat);
        let (v0, v1) = choose|v0: u64, v1: u64| #[trigger] round_rel_with(fps, a, mid, v0, v1);
        lemma_rounds_preserve_distinct(fps, mid, b, (n - 1) as nat);
    }
}

/// Refinement is idempotent after convergence: once a round maps the
/// centroid pair to itself, every further round still maps it to itself,
/// and in particular a second reassignment with the converged centroids
/// re-produces the same partition `assign_spec(fps, pair.0, pair.1)`.
pub proof fn lemma_refinement_idempotent(fps: Seq<u64>, pair: (u64, u64), n: nat)
    requires
        round_rel(fps, pair, pair),
    ensures
        rounds_rel(fps, pair, pair, n),
    decreases n,
{
    if n > 0 {
        lemma_refinement_idempotent(fps, pair, (n - 1) as nat);
    }
}

} // verus!
