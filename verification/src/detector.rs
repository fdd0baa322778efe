//! The presence detector: one capability, two variants.
//!
//! Both variants implement prepare-from-batch (a no-op for the heuristic)
//! and decide-for-one. The heuristic variant flags presence when the
//! grayscale standard deviation of a small sample of the image reaches a
//! threshold; the cluster-backed variant fingerprints the whole batch once,
//! fits the two-cluster Hamming model, and flags images whose fingerprint
//! is an outlier even for its nearer centroid. A per-image decode failure
//! is never fatal: the image is treated as "not present".

use vstd::prelude::*;

use crate::cluster::ClusterModel;
use crate::cluster::decide_fingerprint;
use crate::cluster::fit_model;
use crate::cluster::fit_ok;
use crate::cluster::model_flags_spec;
use crate::fingerprint::fingerprint_image;
use crate::fingerprint::fingerprint_of;
use crate::heuristic::sample_present;
use crate::heuristic::sample_present_spec;
use crate::raster::DecodeError;
use crate::raster::decode_gray_grid;
use crate::raster::gray_grid_of;
use crate::records::ImageInfo;

verus! {

/// The intensity-heuristic variant: no batch step; presence is flagged when
/// the grayscale standard deviation over a `sample_size`-square sample
/// reaches `stddev_threshold_tenths / 10` on the 0-255 scale.
#[derive(Debug, Clone, Copy, PartialEq, Eq, Structural)]
pub struct HeuristicDetector {
    /// Presence threshold on the sampled standard deviation, in tenths.
    pub stddev_threshold_tenths: u32,
    /// Side length of the square grayscale sample.
    pub sample_size: u32,
}

impl HeuristicDetector {
    /// Parameter bounds under which all decision arithmetic is exact.
    pub open spec fn wf(self) -> bool {
        &&& self.stddev_threshold_tenths <= 0x100_0000
        &&& 1 <= self.sample_size <= 16384
    }
}

impl Default for HeuristicDetector {
    /// Default: threshold 10.0 on the 0-255 scale, sampled at 64-by-64.
    fn default() -> (d: Self)
        ensures
            d == (HeuristicDetector { stddev_threshold_tenths: 100, sample_size: 64 }),
            d.wf(),
    {
        HeuristicDetector { stddev_threshold_tenths: 100, sample_size: 64 }
    }
}

/// The cluster-model-backed variant: `prepare` fingerprints the batch and
/// fits the two-cluster model; `decide` flags a fingerprint whose distance
/// to its nearer centroid exceeds `mean + k * stddev` for that cluster,
/// with `k` given in tenths.
#[derive(Debug, Clone, Copy, PartialEq, Eq, Structural)]
pub struct ClusterDetector {
    /// Width of the outlier band in tenths of a standard deviation.
    pub k_tenths: u32,
    /// The model learned by `prepare`; `None` until a batch was prepared.
    pub model: Option<ClusterModel>,
}

impl ClusterDetector {
    /// Parameter bounds under which all decision arithmetic is exact, and
    /// well-formedness of the learned model once there is one.
    pub open spec fn wf(self) -> bool {
        &&& self.k_tenths <= 0x100_0000
        &&& (self.model is Some ==> self.model->0.wf())
    }
}

impl Default for ClusterDetector {
    /// Default: a band of 2.5 standard deviations, no model yet.
    fn default() -> (d: Self)
        ensures
            d == (ClusterDetector { k_tenths: 25, model: None }),
            d.wf(),
    {
        ClusterDetector { k_tenths: 25, model: None }
    }
}

/// The presence detector capability: prepare-from-batch, decide-for-one.
#[derive(Debug, Clone, Copy, PartialEq, Eq, Structural)]
pub enum PresenceDetector {
    /// Intensity-heuristic detector; its batch step is a no-op.
    Heuristic(HeuristicDetector),
    /// Detector backed by the two-cluster Hamming model.
    ClusterBacked(ClusterDetector),
}

impl PresenceDetector {
    /// Parameter and model well-formedness of the active variant.
    pub open spec fn wf(self) -> bool {
        match self {
            PresenceDetector::Heuristic(h) => h.wf(),
            PresenceDetector::ClusterBacked(c) => c.wf(),
        }
    }

    /// The detector may decide: its batch step has run. `prepare` is a
    /// barrier: the cluster-backed `decide` reads the finished model.
    pub open spec fn ready(self) -> bool {
        match self {
            PresenceDetector::Heuristic(_) => true,
            PresenceDetector::ClusterBacked(c) => c.model is Some,
        }
    }
}

/// The presence rule of detector `det` on the decoded content of `bytes`:
/// exactly what `decide` returns whenever the image decodes.
pub open spec fn may_flag(det: PresenceDetector, bytes: Seq<u8>) -> bool {
    match det {
        PresenceDetector::Heuristic(h) => sample_present_spec(
            gray_grid_of(bytes, h.sample_size as int, h.sample_size as int),
            h.stddev_threshold_tenths as nat,
        ),
        PresenceDetector::ClusterBacked(c) => c.model is Some && model_flags_spec(
            c.model->0,
            c.k_tenths as nat,
            fingerprint_of(bytes),
        ),
    }
}

/// Whether a record with these bytes ends up flagged present: the bytes
/// decode as an image and the detector's rule flags the decoded content.
pub open spec fn flags_present(det: PresenceDetector, bytes: Seq<u8>) -> bool {
    crate::raster::decodes(bytes) && may_flag(det, bytes)
}

/// The fingerprints of the images of the batch that decode, in batch
/// order: the batch the cluster model is fit to.
pub open spec fn batch_fingerprints(images: Seq<Seq<u8>>) -> Seq<u64>
    decreases images.len(),
{
    if images.len() == 0 {
        Seq::empty()
    } else {
        let rest = batch_fingerprints(images.drop_last());
        if crate::raster::decodes(images.last()) {
            rest.push(fingerprint_of(images.last()))
        } else {
            rest
        }
    }
}

proof fn lemma_batch_fingerprints_len(images: Seq<Seq<u8>>)
    ensures
        batch_fingerprints(images).len() <= images.len(),
    decreases images.len(),
{
    if images.len() > 0 {
        lemma_batch_fingerprints_len(images.drop_last());
    }
}

/// Prepare the detector on a whole batch of encoded images: a no-op for the
/// heuristic variant; for the cluster-backed variant, fingerprint every
/// image that decodes and fit the two-cluster model to exactly those
/// fingerprints, in batch order. After `prepare` the detector is ready to
/// decide. Returns how many images of the batch did not decode and so
/// contributed no fingerprint, for the caller to report.
pub fn prepare(det: &mut PresenceDetector, images: &Vec<Vec<u8>>) -> (skipped: usize)
    requires
        old(det).wf(),
        images@.len() <= 0x1_0000_0000,
    ensures
        final(det).wf(),
        final(det).ready(),
        (*final(det) is Heuristic) == (*old(det) is Heuristic),
        *final(det) is Heuristic ==> *final(det) == *old(det) && skipped == 0,
        *final(det) is ClusterBacked ==> (*final(det))->ClusterBacked_0.k_tenths == (*old(
            det,
        ))->ClusterBacked_0.k_tenths,
        *final(det) is ClusterBacked ==> (*final(det))->ClusterBacked_0.model is Some,
        *final(det) is ClusterBacked ==> fit_ok(
            batch_fingerprints(images.deep_view()),
            (*final(det))->ClusterBacked_0.model->0,
        ),
        *final(det) is ClusterBacked ==> skipped == images@.len() - batch_fingerprints(
            images.deep_view(),
        ).len(),
{
    match det {
        PresenceDetector::Heuristic(_) => 0,
        PresenceDetector::ClusterBacked(c) => {
            let n: usize = images.len();
            let mut fps: Vec<u64> = Vec::new();
            let mut k: usize = 0;
            while k < n
                invariant
                    n == images.len(),
                    k <= n,
                    fps.len() <= k,
                    fps@ == batch_fingerprints(images.deep_view().take(k as int)),
                decreases n - k,
            {
                proof {
                    let iv = images.deep_view();
                    assert(iv.take(k + 1).drop_last() =~= iv.take(k as int));
                    assert(iv.take(k + 1).last() == iv[k as int]);
                    assert(images.deep_view()[k as int] == images@[k as int]@);
                }
                match fingerprint_image(&images[k]) {
                    Ok(f) => fps.push(f),
                    Err(_) => {
                    },
                }
                k = k + 1;
            }
            proof {
                assert(images.deep_view().take(n as int) =~= images.deep_view());
            }
            let m: ClusterModel = fit_model(&fps);
            c.model = Some(m);
            n - fps.len()
        },
    }
}

/// Decide presence for one encoded image. Succeeds exactly when the bytes
/// decode, and then returns exactly the detector's rule on the decoded
/// content; the caller decides how to report a decode failure.
pub fn decide(det: &PresenceDetector, bytes: &Vec<u8>) -> (r: Result<bool, DecodeError>)
    requires
        det.wf(),
        det.ready(),
    ensures
        (r is Ok) == crate::raster::decodes(bytes@),
        r matches Ok(present) ==> present == may_flag(*det, bytes@),
        r is Err ==> r->Err_0 == DecodeError::Unreadable,
{
    match det {
        PresenceDetector::Heuristic(h) => {
            match decode_gray_grid(bytes, h.sample_size, h.sample_size) {
                Ok(sample) => {
                    proof {
                        assert(sample@.len() <= 0x1000_0000) by (nonlinear_arith)
                            requires
                                sample@.len() == h.sample_size * h.sample_size,
                                h.sample_size <= 16384,
                        ;
                    }
                    Ok(sample_present(&sample, h.stddev_threshold_tenths))
                },
                Err(e) => Err(e),
            }
        },
        PresenceDetector::ClusterBacked(c) => {
            match fingerprint_image(bytes) {
                Ok(f) => {
                    match &c.model {
                        Some(m) => Ok(decide_fingerprint(m, c.k_tenths, f)),
                        None => {
                            // Unreachable: readiness means the model is there.
                            proof {
                                assert(false);
                            }
                            Err(DecodeError::Unreadable)
                        },
                    }
                },
                Err(e) => Err(e),
            }
        },
    }
}

/// Apply the presence decision to a whole batch of records, in place.
/// `images[j]` holds the encoded bytes of record `j`, or `None` when the
/// file could not be read. Every record keeps its file and classification,
/// and its presence bit becomes exactly the detector's rule on its decoded
/// content: a record whose image could not be read or decoded is not
/// present. The batch always completes; a caller that wants to report the
/// per-image failures drives `decide` itself instead.
pub fn apply_presence(rows: &mut Vec<ImageInfo>, images: &Vec<Option<Vec<u8>>>, det: &PresenceDetector)
    requires
        old(rows)@.len() == images@.len(),
        det.wf(),
        det.ready(),
    ensures
        final(rows)@.len() == old(rows)@.len(),
        forall|j: int|
            0 <= j < old(rows)@.len() ==> {
                &&& (#[trigger] final(rows)@[j]).file == old(rows)@[j].file
                &&& final(rows)@[j].classification == old(rows)@[j].classification
                &&& final(rows)@[j].present == (images@[j] is Some && flags_present(
                    *det,
                    images@[j]->0@,
                ))
            },
{
    let n: usize = rows.len();
    let mut j: usize = 0;
    while j < n
        invariant
            n == rows.len(),
            rows@.len() == images@.len(),
            det.wf(),
            det.ready(),
            j <= n,
            forall|i: int|
                j <= i < n ==> #[trigger] rows@[i] == old(rows)@[i],
            forall|i: int|
                0 <= i < j ==> {
                    &&& (#[trigger] rows@[i]).file == old(rows)@[i].file
                    &&& rows@[i].classification == old(rows)@[i].classification
                    &&& rows@[i].present == (images@[i] is Some && flags_present(
                        *det,
                        images@[i]->0@,
                    ))
                },
        decreases n - j,
    {
        let present: bool = match &images[j] {
            Some(bytes) => match decide(det, bytes) {
                Ok(p) => p,
                Err(_) => false,
            },
            None => false,
        };
        rows[j].present = present;
        j = j + 1;
    }
}

} // verus!
