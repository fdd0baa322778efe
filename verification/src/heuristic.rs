//! Intensity-heuristic presence detector.
//!
//! A blank background frame has low contrast: the detector samples the image
//! as a small grayscale grid and flags presence when the standard deviation
//! of the sampled intensities reaches a configured threshold (given in
//! tenths on the 0-255 intensity scale). With sample sum `s` and square sum
//! `q` over `n` pixels, the variance is `(n*q - s*s) / n^2` exactly, and the
//! comparison `stddev >= t` is decided as the exact rational comparison
//! `100 * (n*q - s*s) >= t^2 * n^2`, with no rounding.

use vstd::prelude::*;

verus! {

/// Sum of the first `k` sampled intensities.
pub open spec fn sum_upto(pixels: Seq<u8>, k: int) -> nat
    decreases k,
{
    if k <= 0 {
        0
    } else {
        sum_upto(pixels, k - 1) + pixels[k - 1] as nat
    }
}

/// Sum of the squares of the first `k` sampled intensities.
pub open spec fn sq_sum_upto(pixels: Seq<u8>, k: int) -> nat
    decreases k,
{
    if k <= 0 {
        0
    } else {
        sq_sum_upto(pixels, k - 1) + (pixels[k - 1] * pixels[k - 1]) as nat
    }
}

/// The heuristic presence rule: the sampled standard deviation is at least
/// the threshold `t` (in tenths). An empty sample is never present.
pub open spec fn sample_present_spec(pixels: Seq<u8>, t: nat) -> bool {
    let n = pixels.len() as int;
    let s = sum_upto(pixels, n) as int;
    let q = sq_sum_upto(pixels, n) as int;
    if n == 0 {
        false
    } else if n * q <= s * s {
        t == 0
    } else {
        100 * (n * q - s * s) >= (t * t) * (n * n)
    }
}

proof fn lemma_sums_bounded(pixels: Seq<u8>, k: int)
    requires
        0 <= k,
    ensures
        sum_upto(pixels, k) <= 255 * k,
        sq_sum_upto(pixels, k) <= 65025 * k,
    decreases k,
{
    if k > 0 {
        lemma_sums_bounded(pixels, k - 1);
        let p = pixels[k - 1];
        assert(p * p <= 65025) by (nonlinear_arith)
            requires
                p <= 255,
        ;
    }
}

/// Decide the heuristic presence rule for one grayscale sample.
pub fn sample_present(pixels: &Vec<u8>, t_tenths: u32) -> (present: bool)
    requires
        pixels@.len() <= 0x1_0000_0000,
        t_tenths <= 0x100_0000,
    ensures
        present == sample_present_spec(pixels@, t_tenths as nat),
{
    let n: usize = pixels.len();
    if n == 0 {
        return false;
    }
    let mut s: u64 = 0;
    let mut q: u64 = 0;
    let mut k: usize = 0;
    while k < n
        invariant
            n == pixels.len(),
            n <= 0x1_0000_0000,
            k <= n,
            s == sum_upto(pixels@, k as int),
            q == sq_sum_upto(pixels@, k as int),
            s <= 255 * k,
            q <= 65025 * k,
        decreases n - k,
    {
        let p: u64 = pixels[k] as u64;
        proof {
            assert(p * p <= 65025) by (nonlinear_arith)
                requires
                    p <= 255,
            ;
        }
        s = s + p;
        q = q + p * p;
        k = k + 1;
    }
    let nw: u128 = n as u128;
    let sw: u128 = s as u128;
    let qw: u128 = q as u128;
    let t: u128 = t_tenths as u128;
    proof {
        assert(nw * qw <= 0x1_0000_0000_0000_0000_0000 && sw * sw <= 0x1_0000_0000_0000_0000_0000
            && t * t <= 0x1_0000_0000_0000 && nw * nw <= 0x1_0000_0000_0000_0000 && (t * t) * (nw
            * nw) <= 0x1_0000_0000_0000_0000_0000_0000_0000) by (nonlinear_arith)
            requires
                nw <= 0x1_0000_0000,
                sw <= 255 * nw,
                qw <= 65025 * nw,
                t <= 0x100_0000,
        ;
    }
    let nq: u128 = nw * qw;
    let ss: u128 = sw * sw;
    if nq <= ss {
        t_tenths == 0
    } else {
        100 * (nq - ss) >= (t * t) * (nw * nw)
    }
}

proof fn lemma_uniform_sums(pixels: Seq<u8>, c: u8, k: int)
    requires
        0 <= k <= pixels.len(),
        forall|i: int| 0 <= i < pixels.len() ==> pixels[i] == c,
    ensures
        sum_upto(pixels, k) == k * c,
        sq_sum_upto(pixels, k) == k * (c * c),
    decreases k,
{
    if k > 0 {
        lemma_uniform_sums(pixels, c, k - 1);
        assert(pixels[k - 1] == c);
        assert((k - 1) * c + c == k * c) by (nonlinear_arith);
        assert((k - 1) * (c * c) + c * c == k * (c * c)) by (nonlinear_arith);
    } else {
        assert(k * c == 0 && k * (c * c) == 0) by (nonlinear_arith)
            requires
                k == 0,
        ;
    }
}

/// A uniform sample is never flagged as present for any positive threshold:
/// a blank frame has zero variance, below every non-degenerate band.
pub proof fn lemma_uniform_sample_not_present(pixels: Seq<u8>, t: nat)
    requires
        t >= 1,
        forall|i: int| 0 <= i < pixels.len() ==> #[trigger] pixels[i] == pixels[0],
    ensures
        !sample_present_spec(pixels, t),
{
    let n = pixels.len() as int;
    if n > 0 {
        let c = pixels[0];
        lemma_uniform_sums(pixels, c, n);
        assert(n * (n * (c * c)) == (n * c) * (n * c)) by (nonlinear_arith);
    }
}

} // verus!
