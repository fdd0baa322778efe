use feeder_core::heuristic::sample_present;

fn blank_sample(side: usize, value: u8) -> Vec<u8> {
    vec![value; side * side]
}

fn sample_with_block(side: usize, background: u8, block: u8, block_side: usize) -> Vec<u8> {
    let mut pixels = vec![background; side * side];
    for y in 0..block_side {
        for x in 0..block_side {
            pixels[y * side + x] = block;
        }
    }
    pixels
}

#[test]
fn uniform_blank_sample_is_not_present() {
    // A uniform 64x64 frame has zero variance: below the default threshold
    // of 10.0.
    let pixels = blank_sample(64, 128);
    assert!(!sample_present(&pixels, 100));
}

#[test]
fn contrasting_block_is_present() {
    // The same 64x64 frame with a 32x32 contrasting block: the sampled
    // standard deviation is far above 10.0.
    let pixels = sample_with_block(64, 128, 255, 32);
    assert!(sample_present(&pixels, 100));
}

#[test]
fn zero_threshold_accepts_even_uniform_samples() {
    // stddev >= 0 holds for any non-empty sample.
    let pixels = blank_sample(4, 5);
    assert!(sample_present(&pixels, 0));
}

#[test]
fn empty_sample_is_never_present() {
    let pixels: Vec<u8> = Vec::new();
    assert!(!sample_present(&pixels, 0));
    assert!(!sample_present(&pixels, 100));
}

#[test]
fn threshold_boundary_is_inclusive() {
    // Two pixels 0 and 20: mean 10, variance 100, stddev exactly 10.0.
    // The rule is "stddev >= threshold", so 10.0 is accepted at threshold
    // 10.0 and rejected at 10.1.
    let pixels = vec![0u8, 20u8];
    assert!(sample_present(&pixels, 100));
    assert!(!sample_present(&pixels, 101));
}
