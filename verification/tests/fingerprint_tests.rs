use feeder_core::fingerprint::fingerprint_image;
use feeder_core::hash_from_grid;
use feeder_core::hamming_distance;
use feeder_core::fingerprint::popcount;

fn encode_gray_png(width: u32, height: u32, pixels: Vec<u8>) -> Vec<u8> {
    let img = image::GrayImage::from_raw(width, height, pixels).unwrap();
    let mut bytes: Vec<u8> = Vec::new();
    image::DynamicImage::ImageLuma8(img)
        .write_to(
            &mut std::io::Cursor::new(&mut bytes),
            image::ImageFormat::Png,
        )
        .unwrap();
    bytes
}

#[test]
fn popcount_counts_bits() {
    assert_eq!(popcount(0), 0);
    assert_eq!(popcount(1), 1);
    assert_eq!(popcount(u64::MAX), 64);
    assert_eq!(popcount(0b1011_0001), 4);
}

#[test]
fn hamming_distance_counts_differing_bits() {
    assert_eq!(hamming_distance(0, 0), 0);
    assert_eq!(hamming_distance(0xFF, 0x0F), 4);
    assert_eq!(hamming_distance(u64::MAX, 0), 64);
    assert_eq!(hamming_distance(0b1010, 0b0101), 4);
    assert_eq!(hamming_distance(42, 42), 0);
}

#[test]
fn hash_from_grid_compares_horizontal_neighbours() {
    // Each row alternates 1,0,1,0,...: every even column is brighter than
    // its right neighbour, so bits 0,2,4,6 of every row byte are set.
    let mut grid: Vec<u8> = Vec::new();
    for _row in 0..8 {
        for col in 0..9 {
            grid.push(if col % 2 == 0 { 1 } else { 0 });
        }
    }
    assert_eq!(hash_from_grid(&grid), 0x5555_5555_5555_5555);
}

#[test]
fn hash_from_grid_flat_grid_is_zero() {
    let grid = vec![7u8; 72];
    assert_eq!(hash_from_grid(&grid), 0);
}

#[test]
fn fingerprint_is_64_bits_and_content_determined() {
    // A 9x8 grayscale source decodes back to exactly its own pixel grid, so
    // the fingerprint of the encoded image must equal the hash of the raw
    // grid; a byte-identical duplicate must give the identical fingerprint.
    let mut pixels: Vec<u8> = Vec::new();
    for row in 0..8u32 {
        for col in 0..9u32 {
            pixels.push(((row * 31 + col * 17) % 251) as u8);
        }
    }
    let bytes = encode_gray_png(9, 8, pixels.clone());
    let duplicate = bytes.clone();
    let f1: u64 = fingerprint_image(&bytes).unwrap();
    let f2: u64 = fingerprint_image(&duplicate).unwrap();
    assert_eq!(f1, f2);
    assert_eq!(f1, hash_from_grid(&pixels));
}

#[test]
fn fingerprint_image_rejects_garbage() {
    let garbage = vec![1u8, 2, 3, 4, 5];
    assert!(fingerprint_image(&garbage).is_err());
}
