//! The CSV export's row contract.
//!
//! The export writes one row per record with columns
//! `file, present, species, confidence`. The cells are computed here;
//! encoding and writing the file, and rendering the stored confidence bits
//! as a decimal number, are floating-point and I/O work that belongs to the
//! surrounding application, which hands the rendered text in.

use vstd::prelude::*;

use vstd::string::StringExecFns;

use crate::records::Decision;
use crate::records::ImageInfo;

verus! {

/// The `species` cell of a record: the species name when labeled,
/// `Unknown` when present but abstained, and empty when not present or
/// without classification.
pub open spec fn species_cell(info: ImageInfo) -> Seq<char> {
    if info.present {
        match info.classification {
            Some(cls) => match cls.decision {
                Decision::Unknown => "Unknown"@,
                Decision::Label(name) => name@,
            },
            None => Seq::empty(),
        }
    } else {
        Seq::empty()
    }
}

/// Whether the record reports a confidence: only a present record with a
/// classification does.
pub open spec fn has_confidence(info: ImageInfo) -> bool {
    info.present && info.classification is Some
}

/// The CSV header row: `file, present, species, confidence`.
pub fn csv_header() -> (h: Vec<String>)
    ensures
        h.deep_view() =~= seq!["file"@, "present"@, "species"@, "confidence"@],
{
    let mut h: Vec<String> = Vec::new();
    h.push(String::from_str("file"));
    h.push(String::from_str("present"));
    h.push(String::from_str("species"));
    h.push(String::from_str("confidence"));
    h
}

/// The CSV cells of one record. `confidence_text` is the decimal rendering
/// of the record's confidence, supplied by the caller; it is emitted
/// exactly when the record has a classification to report, and the cell is
/// empty otherwise.
pub fn csv_row(info: &ImageInfo, confidence_text: String) -> (row: Vec<String>)
    ensures
        row@.len() == 4,
        row.deep_view()[0] == info.file@,
        row.deep_view()[1] == (if info.present {
            "true"@
        } else {
            "false"@
        }),
        row.deep_view()[2] == species_cell(*info),
        row.deep_view()[3] == (if has_confidence(*info) {
            confidence_text@
        } else {
            Seq::<char>::empty()
        }),
{
    let mut row: Vec<String> = Vec::new();
    row.push(info.file.clone());
    if info.present {
        row.push(String::from_str("true"));
    } else {
        row.push(String::from_str("false"));
    }
    let species: String = if info.present {
        match &info.classification {
            Some(cls) => match &cls.decision {
                Decision::Unknown => String::from_str("Unknown"),
                Decision::Label(name) => name.clone(),
            },
            None => String::new(),
        }
    } else {
        String::new()
    };
    row.push(species);
    if info.present {
        match &info.classification {
            Some(_) => row.push(confidence_text),
            None => row.push(String::new()),
        }
    } else {
        row.push(String::new());
    }
    row
}

} // verus!
