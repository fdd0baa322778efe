//! Trusted decoding layer over the `image` crate.
//!
//! Everything the verified logic needs from an image is a small grid of
//! plain bytes: a grayscale grid for the fingerprint and the heuristic
//! detector, and an RGBA grid for the classifier's preprocessing. Decoding
//! and resizing are pure functions of the encoded bytes, so their results
//! are given names (`gray_grid_of`, `rgba_resized_of`) that the rest of the
//! library reasons with; nothing else is assumed about them beyond their
//! size.

use vstd::prelude::*;

verus! {

/// An image that could not be decoded. Per-image decode failures are
/// isolated by the callers: they fall back to "not present" and never abort
/// a batch.
#[derive(Clone, Copy, Debug, PartialEq, Eq, Structural)]
pub enum DecodeError {
    /// The bytes do not decode as a supported raster image.
    Unreadable,
}

/// Whether `bytes` decode as a raster image at all: the success of
/// `image::load_from_memory`, a function of the bytes alone. (The `image`
/// crate also consults a process-global hook registry during format
/// detection; neither this crate nor its application registers any hook,
/// so decoding stays a pure function of the bytes.)
pub uninterp spec fn decodes(bytes: Seq<u8>) -> bool;

/// The grayscale `w`-by-`h` grid (row-major, one byte per pixel) that
/// decoding `bytes`, converting to grayscale and resizing with the
/// nearest-neighbour filter yields. A pure function of the encoded bytes.
pub uninterp spec fn gray_grid_of(bytes: Seq<u8>, w: int, h: int) -> Seq<u8>;

/// The RGBA `size`-by-`size` grid (row-major, four bytes per pixel) that
/// decoding `bytes` and resizing with the triangle filter yields. A pure
/// function of the encoded bytes.
pub uninterp spec fn rgba_resized_of(bytes: Seq<u8>, size: int) -> Seq<u8>;

/// Relies on `image::load_from_memory`, `DynamicImage::grayscale`,
/// `DynamicImage::resize_exact` (nearest-neighbour) and
/// `DynamicImage::to_luma8`: decoding is a pure function of the bytes, the
/// chain fails exactly when `load_from_memory` does (the later steps are
/// infallible), and the resized grayscale buffer holds exactly `w * h`
/// bytes, row-major.
#[verifier::external_body]
pub(crate) fn decode_gray_grid(bytes: &Vec<u8>, w: u32, h: u32) -> (r: Result<Vec<u8>, DecodeError>)
    requires
        1 <= w <= 16384,
        1 <= h <= 16384,
    ensures
        (r is Ok) == decodes(bytes@),
        r is Ok ==> r->Ok_0@ == gray_grid_of(bytes@, w as int, h as int) && r->Ok_0@.len() == w
            * h,
        r is Err ==> r->Err_0 == DecodeError::Unreadable,
{
    match image::load_from_memory(bytes) {
        Ok(img) => Ok(
            img.grayscale().resize_exact(w, h, image::imageops::FilterType::Nearest).to_luma8().into_raw(),
        ),
        Err(_) => Err(DecodeError::Unreadable),
    }
}

/// Relies on `image::load_from_memory`, `DynamicImage::resize_exact`
/// (triangle filter) and `DynamicImage::to_rgba8`: decoding is a pure
/// function of the bytes, the chain fails exactly when `load_from_memory`
/// does (the later steps are infallible), and the resized RGBA buffer
/// holds exactly `4 * size * size` bytes, row-major with four bytes per
/// pixel.
#[verifier::external_body]
pub(crate) fn decode_rgba_resized(bytes: &Vec<u8>, size: u32) -> (r: Result<
    Vec<u8>,
    DecodeError,
>)
    requires
        1 <= size <= 16384,
    ensures
        (r is Ok) == decodes(bytes@),
        r is Ok ==> r->Ok_0@ == rgba_resized_of(bytes@, size as int) && r->Ok_0@.len() == 4
            * size * size,
        r is Err ==> r->Err_0 == DecodeError::Unreadable,
{
    match image::load_from_memory(bytes) {
        Ok(img) => Ok(
            img.resize_exact(size, size, image::imageops::FilterType::Triangle).to_rgba8().into_raw(),
        ),
        Err(_) => Err(DecodeError::Unreadable),
    }
}

} // verus!
