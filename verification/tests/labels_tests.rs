use feeder_core::classify::ClassifierConfig;
use feeder_core::classify::ClassifierCore;
use feeder_core::classify::SetupError;
use feeder_core::labels::parse_labels;

#[test]
fn parse_labels_trims_drops_empties_and_dedups() {
    let raw = "Sparrow\n  Robin \n\nSparrow\nCrow\n";
    let names = parse_labels(raw);
    assert_eq!(names, vec!["Sparrow", "Robin", "Crow"]);
}

#[test]
fn parse_labels_keeps_first_seen_order() {
    let raw = "b\na\nc\nb\na";
    let names = parse_labels(raw);
    assert_eq!(names, vec!["b", "a", "c"]);
}

#[test]
fn parse_labels_handles_crlf_and_tabs() {
    let raw = "Great Tit\r\n\tBlue Tit\r\n";
    let names = parse_labels(raw);
    assert_eq!(names, vec!["Great Tit", "Blue Tit"]);
}

#[test]
fn parse_labels_trims_unicode_whitespace() {
    // str::trim removes all Unicode white space, not only the ASCII kinds.
    let raw = "\u{A0}Sparrow\u{A0}\n\u{2003}Crow \n";
    assert_eq!(parse_labels(raw), vec!["Sparrow", "Crow"]);
}

#[test]
fn parse_labels_of_blank_text_is_empty() {
    assert!(parse_labels("").is_empty());
    assert!(parse_labels("  \n\t\n\r\n").is_empty());
}

#[test]
fn classifier_core_requires_labels() {
    let cfg = ClassifierConfig::default();
    assert_eq!(
        ClassifierCore::new(&cfg, "\n  \n"),
        Err(SetupError::NoLabels)
    );
    let core = ClassifierCore::new(&cfg, "Sparrow\nCrow\n").unwrap();
    assert_eq!(core.labels, vec!["Sparrow", "Crow"]);
    assert_eq!(core.presence_threshold, cfg.presence_threshold);
    assert_eq!(core.input_size, 512);
}

#[test]
fn default_config_matches_documented_values() {
    let cfg = ClassifierConfig::default();
    assert_eq!(cfg.model_path, "models/efficientnet_b0.onnx");
    assert_eq!(cfg.labels_path, "models/labels.txt");
    assert_eq!(cfg.input_size, 512);
    assert_eq!(cfg.presence_threshold, 0.5f32.to_bits());
}
