//! Core decision pipeline for a fixed-camera wildlife feeder monitor.
//!
//! The crate decides, per still image, whether a subject is present and, if
//! so, which species it is, abstaining when confidence is too low. Stage A is
//! an unsupervised presence detector built on 64-bit perceptual fingerprints
//! and a two-cluster Hamming-space model; stage B is a confidence-gated
//! species classifier driven by score vectors coming back from a neural
//! inference engine. All decision logic is verified; image decoding is
//! reached through a small trusted layer over the `image` crate, and file
//! I/O, floating-point preprocessing and the inference engine itself live in
//! the surrounding application.

pub mod classify;
pub mod cluster;
pub mod detector;
pub mod fingerprint;
pub mod heuristic;
pub mod labels;
pub mod preprocess;
pub mod raster;
pub mod records;
pub mod report;
pub mod scan;
pub mod textnum;

pub use classify::ClassifierConfig;
pub use classify::ClassifierCore;
pub use detector::ClusterDetector;
pub use detector::HeuristicDetector;
pub use detector::PresenceDetector;
pub use fingerprint::hamming_distance;
pub use fingerprint::hash_from_grid;
pub use records::Classification;
pub use records::Decision;
pub use records::ImageInfo;
pub use records::ScanOptions;
pub use scan::is_supported_image;
pub use scan::scan_records;
