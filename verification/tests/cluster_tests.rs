use feeder_core::cluster::decide_fingerprint;
use feeder_core::cluster::fit_model;
use feeder_core::cluster::majority_vote;

#[test]
fn majority_vote_ties_round_towards_set() {
    let fps: Vec<u64> = vec![0b01, 0b10];
    let sel: Vec<bool> = vec![true, true];
    // Each bit is set in exactly one of two members: a tie, rounded to set.
    assert_eq!(majority_vote(&fps, &sel, true), 0b11);
}

#[test]
fn fit_model_separates_two_groups() {
    let fps: Vec<u64> = vec![0b0000, 0b0001, 0b1110, 0b1111];
    let m = fit_model(&fps);
    // Seed: majority of all is 0b1111 (every bit ties 2-2, rounded to set);
    // the farthest member is 0b0000. Refinement settles on the two group
    // centroids.
    assert_eq!(m.c0, 0b1111);
    assert_eq!(m.c1, 0b0001);
    assert_eq!(m.stats0.members, 2);
    assert_eq!(m.stats0.dist_sum, 1);
    assert_eq!(m.stats0.dist_sq_sum, 1);
    assert_eq!(m.stats1.members, 2);
    assert_eq!(m.stats1.dist_sum, 1);
    assert_eq!(m.stats1.dist_sq_sum, 1);
}

#[test]
fn learned_centroids_always_differ() {
    // A batch of two distinct fingerprints.
    let m = fit_model(&vec![5u64, 9u64]);
    assert_ne!(m.c0, m.c1);
    // A degenerate batch: every member identical.
    let m2 = fit_model(&vec![7u64, 7u64, 7u64]);
    assert_ne!(m2.c0, m2.c1);
    // An empty batch.
    let m3 = fit_model(&vec![]);
    assert_ne!(m3.c0, m3.c1);
}

#[test]
fn refit_of_same_batch_is_identical() {
    let fps: Vec<u64> = vec![3, 5, 9, 0xF0, 0xF1];
    let m1 = fit_model(&fps);
    let m2 = fit_model(&fps);
    assert_eq!(m1, m2);
}

#[test]
fn decide_flags_outliers_only() {
    let fps: Vec<u64> = vec![0b0000, 0b0001, 0b1110, 0b1111];
    let m = fit_model(&fps);
    // Distance 2 from the nearer centroid, against mean 0.5 and a clamped
    // band: well outside mean + 2.5 * stddev.
    assert!(decide_fingerprint(&m, 25, 0b0110));
    // A batch member sitting on its centroid is typical.
    assert!(!decide_fingerprint(&m, 25, 0b1111));
    assert!(!decide_fingerprint(&m, 25, 0b0001));
}

#[test]
fn decide_with_empty_model_uses_safe_default() {
    // An empty batch learns (mean, stddev) = (0, 1) for both clusters: a
    // fingerprint at distance 0 from the nearer centroid is typical, one at
    // distance 3 or more exceeds 0 + 2.5 * 1.
    let m = fit_model(&vec![]);
    assert!(!decide_fingerprint(&m, 25, m.c1));
    assert!(decide_fingerprint(&m, 25, m.c1 ^ 0b111));
}
