//! The per-image result records the pipeline produces and mutates.

use vstd::prelude::*;

verus! {

/// Classification decision for one image.
#[derive(Debug, Clone, PartialEq, Eq)]
pub enum Decision {
    /// Abstain from labeling; treat as unknown class.
    Unknown,
    /// Labeled with a species name.
    Label(String),
}

/// Classification result with decision and confidence.
///
/// `confidence` is the top-1 probability mass, held as the IEEE-754 bit
/// pattern of the 32-bit float the probability pipeline produced. For the
/// non-negative values a probability distribution consists of, the unsigned
/// order of the bit patterns is exactly the numeric order of the floats, so
/// every threshold comparison on these bits is the exact float comparison.
#[derive(Debug, Clone, PartialEq)]
pub struct Classification {
    pub decision: Decision,
    /// Top-1 probability in `[0, 1]`, as IEEE-754 bits.
    pub confidence: u32,
}

/// Core image information gathered by the pipeline: one record per image,
/// created by the folder scan, then mutated in place by the presence
/// detector and the classifier.
#[derive(Debug, Clone, PartialEq)]
pub struct ImageInfo {
    /// Path of the source image, as text.
    pub file: String,
    /// Whether a subject is present.
    pub present: bool,
    /// Classifier output; meaningful only when `present` is true, `None`
    /// when presence is false or inference failed for this image.
    pub classification: Option<Classification>,
}

/// Options controlling how folder scanning behaves.
#[derive(Debug, Clone, Copy, PartialEq, Eq, Structural)]
pub struct ScanOptions {
    /// When true, scan subdirectories recursively.
    pub recursive: bool,
}

impl Default for ScanOptions {
    /// The default scan is non-recursive.
    fn default() -> (opts: Self)
        ensures
            opts == (ScanOptions { recursive: false }),
    {
        ScanOptions { recursive: false }
    }
}

} // verus!
