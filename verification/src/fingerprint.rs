//! 64-bit perceptual fingerprints and the Hamming distance between them.
//!
//! A fingerprint summarises one image: the image is reduced to a 9-wide,
//! 8-high grayscale grid, and bit `8 * row + col` of the fingerprint is set
//! exactly when the grid pixel at `(row, col)` is brighter than its right
//! neighbour. Fingerprints are compared only by Hamming distance.

use vstd::prelude::*;

verus! {

/// Width of the grayscale grid a fingerprint is computed from.
pub const GRID_COLS: u32 = 9;

/// Height of the grayscale grid a fingerprint is computed from.
pub const GRID_ROWS: u32 = 8;

/// True when bit `i` of `x` is set (`i < 64`).
pub open spec fn bit64(x: u64, i: u64) -> bool {
    (x >> i) & 1u64 == 1u64
}

/// Number of set bits of `x` among bit positions `0 .. n`.
pub open spec fn count_bits_upto(x: u64, n: int) -> nat
    decreases n,
{
    if n <= 0 {
        0
    } else {
        count_bits_upto(x, n - 1) + (if bit64(x, (n - 1) as u64) {
            1nat
        } else {
            0nat
        })
    }
}

/// Number of set bits of `x`.
pub open spec fn popcnt(x: u64) -> nat {
    count_bits_upto(x, 64)
}

/// Hamming distance: the count of bit positions where `a` and `b` differ.
pub open spec fn hamming(a: u64, b: u64) -> nat {
    popcnt(a ^ b)
}

proof fn lemma_count_bits_upto_bound(x: u64, n: int)
    requires
        0 <= n,
    ensures
        count_bits_upto(x, n) <= n,
    decreases n,
{
    if n > 0 {
        lemma_count_bits_upto_bound(x, n - 1);
    }
}

/// The set bits of a word determine the word.
proof fn lemma_bits_determine(a: u64, b: u64)
    requires
        forall|i: u64| i < 64 ==> (#[trigger] bit64(a, i)) == bit64(b, i),
    ensures
        a == b,
{
    if a != b {
        let d: u64 = a ^ b;
        assert(d != 0) by (bit_vector)
            requires
                a != b,
                d == a ^ b,
        ;
        vstd::std_specs::bits::axiom_u64_trailing_zeros(d);
        let t = vstd::std_specs::bits::u64_trailing_zeros(d) as u64;
        assert(((a >> t) & 1u64) != ((b >> t) & 1u64)) by (bit_vector)
            requires
                ((d >> t) & 1u64) == 1u64,
                d == a ^ b,
        ;
        assert((a >> t) & 1u64 == 0u64 || (a >> t) & 1u64 == 1u64) by (bit_vector);
        assert((b >> t) & 1u64 == 0u64 || (b >> t) & 1u64 == 1u64) by (bit_vector);
        assert(bit64(a, t) == bit64(b, t));
        assert(false);
    }
}

/// Count the set bits of `x`.
pub fn popcount(x: u64) -> (c: u32)
    ensures
        c == popcnt(x),
        c <= 64,
{
    let mut c: u32 = 0;
    let mut i: u64 = 0;
    while i < 64
        invariant
            i <= 64,
            c == count_bits_upto(x, i as int),
            c <= i,
        decreases 64 - i,
    {
        if (x >> i) & 1u64 == 1u64 {
            c = c + 1;
        }
        i = i + 1;
    }
    proof {
        lemma_count_bits_upto_bound(x, 64);
    }
    c
}

/// Hamming distance between two fingerprints; at most 64.
pub fn hamming_distance(a: u64, b: u64) -> (d: u32)
    ensures
        d == hamming(a, b),
        d <= 64,
{
    popcount(a ^ b)
}

/// Bit `i` of the fingerprint of `grid`: row `i / 8`, column `i % 8`, set
/// when the pixel there is strictly brighter than its right neighbour.
pub open spec fn hash_bit(grid: Seq<u8>, i: int) -> bool {
    grid[(i / 8) * 9 + (i % 8)] > grid[(i / 8) * 9 + (i % 8) + 1]
}

/// `f` is the fingerprint of the 9-by-8 grayscale grid `grid`.
pub open spec fn is_hash_of(grid: Seq<u8>, f: u64) -> bool {
    forall|i: u64| i < 64 ==> (#[trigger] bit64(f, i)) == hash_bit(grid, i as int)
}

/// A grid has exactly one fingerprint: fingerprints are content-determined.
/// Together with the fixed `u64` width this is the shape of every
/// fingerprint: 64 bits, identical for an image and any bit-identical
/// duplicate of it.
pub proof fn lemma_fingerprint_determined(grid: Seq<u8>, f1: u64, f2: u64)
    requires
        is_hash_of(grid, f1),
        is_hash_of(grid, f2),
    ensures
        f1 == f2,
{
    assert(forall|i: u64| i < 64 ==> (#[trigger] bit64(f1, i)) == bit64(f2, i));
    lemma_bits_determine(f1, f2);
}

proof fn lemma_count_bits_upto_zero(n: int)
    requires
        0 <= n <= 64,
    ensures
        count_bits_upto(0u64, n) == 0,
    decreases n,
{
    if n > 0 {
        lemma_count_bits_upto_zero(n - 1);
        let j = (n - 1) as u64;
        assert((0u64 >> j) & 1u64 != 1u64) by (bit_vector);
    }
}

/// A fingerprint is at Hamming distance zero from itself.
pub proof fn lemma_hamming_self(a: u64)
    ensures
        hamming(a, a) == 0,
{
    assert(a ^ a == 0u64) by (bit_vector);
    lemma_count_bits_upto_zero(64);
}

pub proof fn lemma_u64_zero_bits()
    ensures
        forall|j: u64| j < 64 ==> !bit64(0u64, j),
{
    assert(forall|j: u64| j < 64 ==> (0u64 >> j) & 1u64 != 1u64) by (bit_vector);
}

pub proof fn lemma_u64_set_bit(c: u64, i: u64, j: u64)
    requires
        i < 64,
        j < 64,
    ensures
        bit64(c | (1u64 << i), j) == (if i == j {
            true
        } else {
            bit64(c, j)
        }),
{
    assert(((c | (1u64 << i)) >> j) & 1u64 == (if i == j {
        1u64
    } else {
        (c >> j) & 1u64
    })) by (bit_vector)
        requires
            i < 64,
            j < 64,
    ;
}

/// Compute the fingerprint of a 9-by-8 grayscale grid, row-major.
pub fn hash_from_grid(grid: &Vec<u8>) -> (f: u64)
    requires
        grid.len() == 72,
    ensures
        is_hash_of(grid@, f),
{
    let mut f: u64 = 0;
    proof {
        lemma_u64_zero_bits();
    }
    let mut row: usize = 0;
    while row < 8
        invariant
            grid.len() == 72,
            row <= 8,
            forall|j: u64| j < row * 8 ==> (#[trigger] bit64(f, j)) == hash_bit(grid@, j as int),
            forall|j: u64| row * 8 <= j < 64 ==> !(#[trigger] bit64(f, j)),
        decreases 8 - row,
    {
        let mut col: usize = 0;
        while col < 8
            invariant
                grid.len() == 72,
                row < 8,
                col <= 8,
                forall|j: u64|
                    j < row * 8 + col ==> (#[trigger] bit64(f, j)) == hash_bit(grid@, j as int),
                forall|j: u64| row * 8 + col <= j < 64 ==> !(#[trigger] bit64(f, j)),
            decreases 8 - col,
        {
            let i: usize = row * 8 + col;
            let left: u8 = grid[row * 9 + col];
            let right: u8 = grid[row * 9 + col + 1];
            if left > right {
                let ghost old_f = f;
                f = f | (1u64 << (i as u64));
                proof {
                    assert forall|j: u64| j < 64 implies (#[trigger] bit64(f, j)) == (if j == i {
                        true
                    } else {
                        bit64(old_f, j)
                    }) by {
                        lemma_u64_set_bit(old_f, i as u64, j);
                    }
                    assert((i as int) / 8 == row && (i as int) % 8 == col);
                    assert(hash_bit(grid@, i as int));
                }
            } else {
                proof {
                    assert((i as int) / 8 == row && (i as int) % 8 == col);
                    assert(!hash_bit(grid@, i as int));
                }
            }
            col = col + 1;
        }
        row = row + 1;
    }
    f
}

/// The fingerprint of a grid, as a value: the unique word whose bits are
/// the grid's comparison bits.
pub open spec fn hash_of_grid(grid: Seq<u8>) -> u64 {
    choose|f: u64| is_hash_of(grid, f)
}

/// The fingerprint of one encoded image: the hash of its 9-by-8 grayscale
/// grid.
pub open spec fn fingerprint_of(bytes: Seq<u8>) -> u64 {
    hash_of_grid(crate::raster::gray_grid_of(bytes, 9, 8))
}

/// Fingerprint of one encoded image: decode to the 9-by-8 grayscale grid,
/// then hash the grid. Succeeds exactly when the bytes decode as an image;
/// a decode failure is reported to the caller, who treats the image as
/// "not present" rather than aborting a batch.
pub fn fingerprint_image(bytes: &Vec<u8>) -> (r: Result<u64, crate::raster::DecodeError>)
    ensures
        (r is Ok) == crate::raster::decodes(bytes@),
        r matches Ok(f) ==> f == fingerprint_of(bytes@),
        r is Err ==> r->Err_0 == crate::raster::DecodeError::Unreadable,
{
    match crate::raster::decode_gray_grid(bytes, GRID_COLS, GRID_ROWS) {
        Ok(grid) => {
            let f: u64 = hash_from_grid(&grid);
            proof {
                assert(exists|x: u64| is_hash_of(grid@, x));
                let c = hash_of_grid(grid@);
                assert(is_hash_of(grid@, c));
                lemma_fingerprint_determined(grid@, f, c);
            }
            Ok(f)
        },
        Err(e) => Err(e),
    }
}

} // verus!
