//! Preprocessing for the classifier: fixed square resize and channel-first
//! layout.
//!
//! The neural model expects a dense tensor in channel-first layout
//! `(1, 3, H, W)`. The verified part of the pipeline decodes and resizes an
//! image to a square RGBA grid and reorders it into three channel planes of
//! bytes, dropping alpha; the surrounding application then divides each byte
//! by 255 and applies the per-channel mean/std normalisation, which is
//! floating-point work.

use vstd::prelude::*;

use crate::raster::DecodeError;
use crate::raster::rgba_resized_of;

verus! {

/// `out` is the channel-first layout of the row-major RGBA grid `rgba` with
/// `npix` pixels: plane `c` of `out` holds channel `c` of every pixel, in
/// pixel order, and alpha is dropped.
pub open spec fn is_planar(rgba: Seq<u8>, npix: int, out: Seq<u8>) -> bool {
    &&& out.len() == 3 * npix
    &&& forall|c: int, i: int|
        0 <= c < 3 && 0 <= i < npix ==> #[trigger] out[c * npix + i] == rgba[4 * i + c]
}

/// Reorder a row-major RGBA buffer into three channel-first planes.
pub fn channel_first(rgba: &Vec<u8>, npix: usize) -> (out: Vec<u8>)
    requires
        rgba@.len() == 4 * npix,
    ensures
        is_planar(rgba@, npix as int, out@),
{
    let total: usize = rgba.len();
    let mut out: Vec<u8> = Vec::new();
    let mut c: usize = 0;
    while c < 3
        invariant
            rgba@.len() == 4 * npix,
            total == 4 * npix,
            c <= 3,
            out.len() == c * npix,
            forall|cc: int, ii: int|
                0 <= cc < c && 0 <= ii < npix ==> #[trigger] out@[cc * npix + ii] == rgba@[4 * ii
                    + cc],
        decreases 3 - c,
    {
        let mut i: usize = 0;
        while i < npix
            invariant
                rgba@.len() == 4 * npix,
                total == 4 * npix,
                c < 3,
                i <= npix,
                out.len() == c * npix + i,
                forall|cc: int, ii: int|
                    0 <= cc < c && 0 <= ii < npix ==> #[trigger] out@[cc * npix + ii] == rgba@[4
                        * ii + cc],
                forall|ii: int|
                    0 <= ii < i ==> #[trigger] out@[c * npix + ii] == rgba@[4 * ii + c],
            decreases npix - i,
        {
            out.push(rgba[4 * i + c]);
            proof {
                assert forall|cc: int, ii: int| 0 <= cc < c && 0 <= ii < npix implies #[trigger] out@[cc
                    * npix + ii] == rgba@[4 * ii + cc] by {
                    assert(cc * npix + ii < c * npix) by (nonlinear_arith)
                        requires
                            0 <= cc,
                            cc < c,
                            0 <= ii,
                            ii < npix,
                    ;
                }
            }
            i = i + 1;
        }
        proof {
            assert((c + 1) * npix == c * npix + npix) by (nonlinear_arith);
        }
        c = c + 1;
    }
    out
}

/// Decode one encoded image, resize it to a `size`-by-`size` square and lay
/// it out as three channel-first planes of bytes. Succeeds exactly when
/// the bytes decode as an image.
pub fn prepare_planar(bytes: &Vec<u8>, size: u32) -> (r: Result<Vec<u8>, DecodeError>)
    requires
        1 <= size <= 16384,
    ensures
        (r is Ok) == crate::raster::decodes(bytes@),
        r matches Ok(p) ==> is_planar(
            rgba_resized_of(bytes@, size as int),
            (size * size) as int,
            p@,
        ),
        r is Err ==> r == Err::<Vec<u8>, DecodeError>(DecodeError::Unreadable),
{
    match crate::raster::decode_rgba_resized(bytes, size) {
        Ok(rgba) => {
            let su: usize = size as usize;
            proof {
                assert(su * su <= 0x1000_0000 && 4 * ((size as int) * (size as int)) == 4 * (size
                    as int) * (size as int)) by (nonlinear_arith)
                    requires
                        su <= 16384,
                        su == size,
                ;
            }
            let npix: usize = su * su;
            Ok(channel_first(&rgba, npix))
        },
        Err(e) => Err(e),
    }
}

} // verus!
