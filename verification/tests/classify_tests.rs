use feeder_core::Classification;
use feeder_core::Decision;
use feeder_core::ImageInfo;
use feeder_core::classify::ClassifierCore;
use feeder_core::classify::ClassifyError;
use feeder_core::classify::classify_records;
use feeder_core::textnum::decimal_string;

fn core_with(labels: &[&str], threshold: f32) -> ClassifierCore {
    ClassifierCore {
        labels: labels.iter().map(|s| s.to_string()).collect(),
        presence_threshold: threshold.to_bits(),
        input_size: 512,
    }
}

fn bits(probs: &[f32]) -> Vec<u32> {
    probs.iter().map(|p| p.to_bits()).collect()
}

#[test]
fn argmax_probability_at_threshold_is_accepted() {
    let core = core_with(&["A", "B", "C"], 0.5);
    let (present, cls) = core
        .classify_scores(&bits(&[0.3, 0.5, 0.2]))
        .unwrap();
    assert!(present);
    assert_eq!(cls.decision, Decision::Label("B".to_string()));
    assert_eq!(cls.confidence, 0.5f32.to_bits());
}

#[test]
fn probability_below_threshold_abstains() {
    let core = core_with(&["A", "B", "C"], 0.6);
    let (present, cls) = core
        .classify_scores(&bits(&[0.3, 0.5, 0.2]))
        .unwrap();
    assert!(!present);
    assert_eq!(cls.decision, Decision::Unknown);
    // Confidence reflects "how sure", not "whether accepted".
    assert_eq!(cls.confidence, 0.5f32.to_bits());
}

#[test]
fn equal_maxima_pick_the_last_index() {
    let core = core_with(&["A", "B"], 0.1);
    let (present, cls) = core.classify_scores(&bits(&[0.4, 0.4])).unwrap();
    assert!(present);
    assert_eq!(cls.decision, Decision::Label("B".to_string()));
}

#[test]
fn empty_scores_are_an_error() {
    let core = core_with(&["A"], 0.5);
    assert_eq!(
        core.classify_scores(&Vec::new()),
        Err(ClassifyError::EmptyScores)
    );
}

#[test]
fn index_beyond_label_table_gets_fallback_name() {
    let core = core_with(&["Only"], 0.5);
    let (present, cls) = core.classify_scores(&bits(&[0.1, 0.9])).unwrap();
    assert!(present);
    assert_eq!(cls.decision, Decision::Label("class_1".to_string()));
}

#[test]
fn underflowed_distribution_abstains() {
    // When the softmax mass underflows, the application hands in an
    // all-zero distribution: the arg-max is zero, below any positive
    // threshold, so the classifier abstains with zero confidence.
    let core = core_with(&["A", "B", "C"], 0.5);
    let (present, cls) = core.classify_scores(&bits(&[0.0, 0.0, 0.0])).unwrap();
    assert!(!present);
    assert_eq!(cls.decision, Decision::Unknown);
    assert_eq!(cls.confidence, 0.0f32.to_bits());
}

#[test]
fn decimal_string_renders_exactly() {
    assert_eq!(decimal_string(0), "0");
    assert_eq!(decimal_string(7), "7");
    assert_eq!(decimal_string(10), "10");
    assert_eq!(decimal_string(345), "345");
    assert_eq!(decimal_string(18446744073709551615), "18446744073709551615");
}

#[test]
fn classify_records_isolates_per_item_failures() {
    let core = core_with(&["Sparrow", "Crow"], 0.5);
    let mut rows = vec![
        ImageInfo {
            file: "a.jpg".to_string(),
            present: true,
            classification: Some(Classification {
                decision: Decision::Unknown,
                confidence: 0.9f32.to_bits(),
            }),
        },
        ImageInfo {
            file: "b.jpg".to_string(),
            present: false,
            classification: None,
        },
        ImageInfo {
            file: "c.jpg".to_string(),
            present: false,
            classification: None,
        },
    ];
    let outcomes: Vec<Option<Vec<u32>>> = vec![
        None,                               // decode or inference failed
        Some(Vec::new()),                   // empty output tensor
        Some(bits(&[0.05, 0.95])),          // a confident detection
    ];
    classify_records(&mut rows, &outcomes, &core);
    assert_eq!(rows.len(), 3);
    // Failures resolve to the safe default without stopping the batch.
    assert_eq!(rows[0].file, "a.jpg");
    assert!(!rows[0].present);
    assert_eq!(rows[0].classification, None);
    assert!(!rows[1].present);
    assert_eq!(rows[1].classification, None);
    // The healthy record is classified.
    assert_eq!(rows[2].file, "c.jpg");
    assert!(rows[2].present);
    let cls = rows[2].classification.as_ref().unwrap();
    assert_eq!(cls.decision, Decision::Label("Crow".to_string()));
    assert_eq!(cls.confidence, 0.95f32.to_bits());
}
