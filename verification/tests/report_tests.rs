use feeder_core::Classification;
use feeder_core::Decision;
use feeder_core::ImageInfo;
use feeder_core::report::csv_header;
use feeder_core::report::csv_row;

fn confidence_text(info: &ImageInfo) -> String {
    match (&info.classification, info.present) {
        (Some(cls), true) => format!("{}", f32::from_bits(cls.confidence)),
        _ => String::new(),
    }
}

fn export_csv(rows: &[ImageInfo], path: &std::path::Path) {
    let mut wtr = csv::Writer::from_path(path).unwrap();
    wtr.write_record(csv_header().iter()).unwrap();
    for info in rows {
        let row = csv_row(info, confidence_text(info));
        wtr.write_record(row.iter()).unwrap();
    }
    wtr.flush().unwrap();
}

#[test]
fn export_csv_writes_expected_headers_and_rows() {
    let dir = tempfile::tempdir().unwrap();
    let path = dir.path().join("out.csv");
    let rows = vec![
        ImageInfo {
            file: "a.jpg".to_string(),
            present: false,
            classification: None,
        },
        ImageInfo {
            file: "b.jpg".to_string(),
            present: true,
            classification: Some(Classification {
                decision: Decision::Unknown,
                confidence: 0.42f32.to_bits(),
            }),
        },
        ImageInfo {
            file: "c.jpg".to_string(),
            present: true,
            classification: Some(Classification {
                decision: Decision::Label("Sparrow".into()),
                confidence: 0.91f32.to_bits(),
            }),
        },
    ];

    export_csv(&rows, &path);

    let mut rdr = csv::Reader::from_path(&path).unwrap();
    let headers = rdr.headers().unwrap().clone();
    assert_eq!(
        headers.iter().collect::<Vec<_>>(),
        vec!["file", "present", "species", "confidence"]
    );

    let mut recs = rdr.records();
    let r1 = recs.next().unwrap().unwrap();
    assert_eq!(&r1[0], "a.jpg");
    assert_eq!(&r1[1], "false");
    assert_eq!(&r1[2], "");
    assert_eq!(&r1[3], "");

    let r2 = recs.next().unwrap().unwrap();
    assert_eq!(&r2[0], "b.jpg");
    assert_eq!(&r2[1], "true");
    assert_eq!(&r2[2], "Unknown");
    assert_eq!(&r2[3], "0.42");

    let r3 = recs.next().unwrap().unwrap();
    assert_eq!(&r3[0], "c.jpg");
    assert_eq!(&r3[1], "true");
    assert_eq!(&r3[2], "Sparrow");
    assert_eq!(&r3[3], "0.91");

    assert!(recs.next().is_none());
}

#[test]
fn row_without_presence_hides_stale_classification() {
    // A record that is not present reports neither species nor confidence,
    // even if a classification value is still attached.
    let info = ImageInfo {
        file: "x.jpg".to_string(),
        present: false,
        classification: Some(Classification {
            decision: Decision::Label("Crow".into()),
            confidence: 0.8f32.to_bits(),
        }),
    };
    let row = csv_row(&info, "0.8".to_string());
    assert_eq!(row, vec!["x.jpg", "false", "", ""]);
}

#[test]
fn present_record_without_classification_has_empty_cells() {
    let info = ImageInfo {
        file: "y.jpg".to_string(),
        present: true,
        classification: None,
    };
    let row = csv_row(&info, String::new());
    assert_eq!(row, vec!["y.jpg", "true", "", ""]);
}
