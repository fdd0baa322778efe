use feeder_core::is_supported_image;
use feeder_core::scan_records;

#[test]
fn supported_extensions_in_any_case() {
    assert!(is_supported_image("a.JPG"));
    assert!(is_supported_image("b.jpeg"));
    assert!(is_supported_image("c.png"));
    assert!(is_supported_image("x.PnG"));
    assert!(is_supported_image("y.JpEg"));
    assert!(is_supported_image("/camera/shot.jpg"));
}

#[test]
fn unsupported_names_are_rejected() {
    assert!(!is_supported_image("not-image.txt"));
    assert!(!is_supported_image("noext"));
    assert!(!is_supported_image(".hidden"));
    assert!(!is_supported_image(".jpg"));
    assert!(!is_supported_image("trailingdot."));
    assert!(!is_supported_image("archive.jpg.zip"));
    assert!(!is_supported_image("dir.png/file"));
    assert!(!is_supported_image(""));
}

#[test]
fn extension_is_taken_from_final_component() {
    assert!(is_supported_image("some.dir/photo.png"));
    assert!(!is_supported_image("some.png/notes"));
    assert!(is_supported_image("nested/d.jpg"));
}

#[test]
fn scan_records_empty_input_is_empty() {
    let rows = scan_records(&Vec::new());
    assert!(rows.is_empty());
}

#[test]
fn scan_lists_only_images_non_recursive() {
    // What a non-recursive walk of the folder hands over: the four files at
    // depth one; the nested folder's file is not walked.
    let names: Vec<String> = vec![
        "t/a.JPG".to_string(),
        "t/b.jpeg".to_string(),
        "t/c.png".to_string(),
        "t/not-image.txt".to_string(),
    ];
    let rows = scan_records(&names);
    let files: Vec<&str> = rows.iter().map(|r| r.file.as_str()).collect();
    assert_eq!(files, vec!["t/a.JPG", "t/b.jpeg", "t/c.png"]);
    for row in &rows {
        assert!(!row.present);
        assert!(row.classification.is_none());
    }
}

#[test]
fn scan_lists_images_recursive_when_enabled() {
    // A recursive walk additionally hands over the nested folder's file.
    let names: Vec<String> = vec![
        "t/a.JPG".to_string(),
        "t/b.jpeg".to_string(),
        "t/c.png".to_string(),
        "t/not-image.txt".to_string(),
        "t/nested/d.jpg".to_string(),
    ];
    let rows = scan_records(&names);
    let files: Vec<&str> = rows.iter().map(|r| r.file.as_str()).collect();
    assert_eq!(files, vec!["t/a.JPG", "t/b.jpeg", "t/c.png", "t/nested/d.jpg"]);
}
