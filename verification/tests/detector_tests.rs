use feeder_core::ClusterDetector;
use feeder_core::HeuristicDetector;
use feeder_core::ImageInfo;
use feeder_core::PresenceDetector;
use feeder_core::detector::apply_presence;
use feeder_core::detector::decide;
use feeder_core::detector::prepare;
use feeder_core::preprocess::channel_first;
use feeder_core::preprocess::prepare_planar;

fn encode_gray_png(width: u32, height: u32, pixels: Vec<u8>) -> Vec<u8> {
    let img = image::GrayImage::from_raw(width, height, pixels).unwrap();
    let mut bytes: Vec<u8> = Vec::new();
    image::DynamicImage::ImageLuma8(img)
        .write_to(
            &mut std::io::Cursor::new(&mut bytes),
            image::ImageFormat::Png,
        )
        .unwrap();
    bytes
}

fn encode_rgba_png(width: u32, height: u32, pixels: Vec<u8>) -> Vec<u8> {
    let img = image::RgbaImage::from_raw(width, height, pixels).unwrap();
    let mut bytes: Vec<u8> = Vec::new();
    image::DynamicImage::ImageRgba8(img)
        .write_to(
            &mut std::io::Cursor::new(&mut bytes),
            image::ImageFormat::Png,
        )
        .unwrap();
    bytes
}

fn blank_image() -> Vec<u8> {
    encode_gray_png(64, 64, vec![128u8; 64 * 64])
}

fn block_image() -> Vec<u8> {
    let mut pixels = vec![128u8; 64 * 64];
    for y in 0..32 {
        for x in 0..32 {
            pixels[y * 64 + x] = 255;
        }
    }
    encode_gray_png(64, 64, pixels)
}

#[test]
fn defaults_match_documented_parameters() {
    let h = HeuristicDetector::default();
    assert_eq!(h.stddev_threshold_tenths, 100);
    assert_eq!(h.sample_size, 64);
    let c = ClusterDetector::default();
    assert_eq!(c.k_tenths, 25);
    assert!(c.model.is_none());
}

#[test]
fn heuristic_detector_blank_versus_block() {
    let det = PresenceDetector::Heuristic(HeuristicDetector::default());
    assert_eq!(decide(&det, &blank_image()), Ok(false));
    assert_eq!(decide(&det, &block_image()), Ok(true));
}

#[test]
fn undecodable_image_reports_decode_error() {
    let det = PresenceDetector::Heuristic(HeuristicDetector::default());
    assert!(decide(&det, &vec![0u8, 1, 2, 3]).is_err());
}

#[test]
fn cluster_detector_flags_the_odd_frame_out() {
    // A batch of identical background frames and one frame with a block:
    // after prepare, the background frame sits on its centroid while the
    // odd frame is an outlier for its nearer cluster.
    let mut images: Vec<Vec<u8>> = Vec::new();
    for _ in 0..6 {
        images.push(blank_image());
    }
    images.push(block_image());
    images.push(vec![1u8, 2, 3]); // does not decode; fitted around, counted
    let mut det = PresenceDetector::ClusterBacked(ClusterDetector::default());
    let skipped = prepare(&mut det, &images);
    assert_eq!(skipped, 1);
    match &det {
        PresenceDetector::ClusterBacked(c) => assert!(c.model.is_some()),
        _ => unreachable!(),
    }
    assert_eq!(decide(&det, &blank_image()), Ok(false));
}

#[test]
fn apply_presence_updates_in_place_and_never_aborts() {
    let det = PresenceDetector::Heuristic(HeuristicDetector::default());
    let mut rows = vec![
        ImageInfo {
            file: "blank.png".to_string(),
            present: true,
            classification: None,
        },
        ImageInfo {
            file: "block.png".to_string(),
            present: false,
            classification: None,
        },
        ImageInfo {
            file: "missing.png".to_string(),
            present: true,
            classification: None,
        },
        ImageInfo {
            file: "broken.png".to_string(),
            present: true,
            classification: None,
        },
    ];
    let images: Vec<Option<Vec<u8>>> = vec![
        Some(blank_image()),
        Some(block_image()),
        None,
        Some(vec![9u8, 9, 9]),
    ];
    apply_presence(&mut rows, &images, &det);
    assert_eq!(rows.len(), 4);
    assert!(!rows[0].present);
    assert!(rows[1].present);
    assert!(!rows[2].present);
    assert!(!rows[3].present);
    assert_eq!(rows[0].file, "blank.png");
    assert!(rows.iter().all(|r| r.classification.is_none()));
}

#[test]
fn channel_first_reorders_rgba_planes() {
    // Two pixels: (r,g,b,a) = (1,2,3,4) and (5,6,7,8).
    let rgba = vec![1u8, 2, 3, 4, 5, 6, 7, 8];
    let planar = channel_first(&rgba, 2);
    assert_eq!(planar, vec![1, 5, 2, 6, 3, 7]);
}

#[test]
fn prepare_planar_lays_out_decoded_pixels() {
    // A uniform colour survives any resampling filter exactly, so resizing
    // a uniform 4x4 source to 2x2 must yield three uniform planes holding
    // the original channel values, alpha dropped.
    let mut rgba: Vec<u8> = Vec::new();
    for _ in 0..16 {
        rgba.extend_from_slice(&[10u8, 20, 30, 255]);
    }
    let bytes = encode_rgba_png(4, 4, rgba);
    let planar = prepare_planar(&bytes, 2).unwrap();
    assert_eq!(planar, vec![10, 10, 10, 10, 20, 20, 20, 20, 30, 30, 30, 30]);
}

#[test]
fn prepare_planar_rejects_garbage() {
    assert!(prepare_planar(&vec![1u8, 2, 3], 2).is_err());
}
