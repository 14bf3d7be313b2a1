use license_compat::error::ConfigError;
use license_compat::license::{
    cell_verdict, is_compatibile, load_matrix, matrix_verdict, Verdict,
};
use license_compat::spdx::SPDXLicense;

const ALL: [SPDXLicense; 6] = [
    SPDXLicense::MIT,
    SPDXLicense::Apache2,
    SPDXLicense::MPL,
    SPDXLicense::GPL3,
    SPDXLicense::BSD3,
    SPDXLicense::PSFL,
];

fn matrix() -> serde_json::Value {
    let text = r#"{
        "MIT": {
            "MIT": "Same",
            "Apache-2.0": "Yes",
            "GPL-3.0-only": "No",
            "BSD-3-Clause": "Yes",
            "MPL-2.0": "Unknown",
            "PSF-2.0": 1
        },
        "Apache-2.0": { "Apache-2.0": "Same", "MIT": "Yes", "GPL-3.0-only": "Yes" },
        "GPL-3.0-only": { "GPL-3.0-only": "Same", "MIT": "Yes", "Apache-2.0": "No" },
        "BSD-3-Clause": { "BSD-3-Clause": "No" },
        "MPL-2.0": "Yes",
        "PSF-2.0": { "PSF-2.0": "same" }
    }"#;
    load_matrix(text).unwrap()
}

#[test]
fn unknown_license_is_never_compatible() {
    let matrix = matrix();
    assert!(!is_compatibile(&None, &None, &matrix));
    for license in ALL {
        assert!(!is_compatibile(&None, &Some(license), &matrix));
        assert!(!is_compatibile(&Some(license), &None, &matrix));
        assert_eq!(matrix_verdict(&None, &Some(license), &matrix), Verdict::MissingLicense);
        assert_eq!(matrix_verdict(&Some(license), &None, &matrix), Verdict::MissingLicense);
    }
    assert_eq!(Verdict::MissingLicense.diagnostic(), None);
}

#[test]
fn yes_and_same_are_compatible() {
    let matrix = matrix();
    assert!(is_compatibile(&Some(SPDXLicense::MIT), &Some(SPDXLicense::MIT), &matrix));
    assert!(is_compatibile(&Some(SPDXLicense::MIT), &Some(SPDXLicense::Apache2), &matrix));
    assert_eq!(
        matrix_verdict(&Some(SPDXLicense::MIT), &Some(SPDXLicense::BSD3), &matrix),
        Verdict::Compatible
    );
    assert_eq!(Verdict::Compatible.diagnostic(), None);
    assert!(Verdict::Compatible.is_compatible());
}

#[test]
fn self_compatibility_is_the_diagonal_cell() {
    let matrix = matrix();
    let same = [SPDXLicense::MIT, SPDXLicense::Apache2, SPDXLicense::GPL3];
    for license in same {
        assert!(is_compatibile(&Some(license), &Some(license), &matrix));
    }
    // "No" on the diagonal, a diagonal in the wrong case, and no diagonal at all.
    assert!(!is_compatibile(&Some(SPDXLicense::BSD3), &Some(SPDXLicense::BSD3), &matrix));
    assert!(!is_compatibile(&Some(SPDXLicense::PSFL), &Some(SPDXLicense::PSFL), &matrix));
    assert!(!is_compatibile(&Some(SPDXLicense::MPL), &Some(SPDXLicense::MPL), &matrix));
}

#[test]
fn any_other_text_is_incompatible_and_reported() {
    let matrix = matrix();
    let verdict = matrix_verdict(&Some(SPDXLicense::MIT), &Some(SPDXLicense::GPL3), &matrix);
    assert_eq!(verdict, Verdict::UnexpectedValue(String::from("No")));
    assert!(!verdict.is_compatible());
    assert_eq!(verdict.diagnostic(), Some(String::from("Unexpected value in matrix: No")));
    assert!(!is_compatibile(&Some(SPDXLicense::MIT), &Some(SPDXLicense::GPL3), &matrix));

    let verdict = matrix_verdict(&Some(SPDXLicense::MIT), &Some(SPDXLicense::MPL), &matrix);
    assert_eq!(verdict.diagnostic(), Some(String::from("Unexpected value in matrix: Unknown")));

    let verdict = matrix_verdict(&Some(SPDXLicense::PSFL), &Some(SPDXLicense::PSFL), &matrix);
    assert_eq!(verdict, Verdict::UnexpectedValue(String::from("same")));
}

#[test]
fn missing_entry_is_incompatible_and_reported() {
    let matrix = matrix();
    // No row, no cell in the row, a row that is no object, a cell that is no string.
    let missing = [
        (SPDXLicense::BSD3, SPDXLicense::MIT),
        (SPDXLicense::Apache2, SPDXLicense::BSD3),
        (SPDXLicense::MPL, SPDXLicense::MIT),
        (SPDXLicense::MIT, SPDXLicense::PSFL),
    ];
    for (a, b) in missing {
        assert!(!is_compatibile(&Some(a), &Some(b), &matrix));
        assert_eq!(matrix_verdict(&Some(a), &Some(b), &matrix), Verdict::EntryNotFound(a, b));
    }
    assert_eq!(
        Verdict::EntryNotFound(SPDXLicense::MIT, SPDXLicense::GPL3).diagnostic(),
        Some(String::from("Entry not found in matrix for MIT and GPL-3.0-only"))
    );
    assert_eq!(
        Verdict::EntryNotFound(SPDXLicense::MPL, SPDXLicense::PSFL).diagnostic(),
        Some(String::from("Entry not found in matrix for MPL-2.0 and PSF-2.0"))
    );
}

#[test]
fn lookup_is_directed() {
    let matrix = matrix();
    assert!(!is_compatibile(&Some(SPDXLicense::MIT), &Some(SPDXLicense::GPL3), &matrix));
    assert!(is_compatibile(&Some(SPDXLicense::GPL3), &Some(SPDXLicense::MIT), &matrix));
    assert!(is_compatibile(&Some(SPDXLicense::Apache2), &Some(SPDXLicense::GPL3), &matrix));
    assert!(!is_compatibile(&Some(SPDXLicense::GPL3), &Some(SPDXLicense::Apache2), &matrix));
}

#[test]
fn matrix_of_another_shape_has_no_cells() {
    for text in ["{}", "[]", "null", "\"Yes\"", "42", r#"[{"MIT": {"MIT": "Same"}}]"#] {
        let matrix = load_matrix(text).unwrap();
        for a in ALL {
            for b in ALL {
                assert_eq!(
                    matrix_verdict(&Some(a), &Some(b), &matrix),
                    Verdict::EntryNotFound(a, b)
                );
            }
        }
    }
}

#[test]
fn matrix_that_is_not_json_is_refused() {
    for text in ["", "{", r#"{"MIT": {"MIT": "Same"}"#, "{'MIT': {}}", "MIT"] {
        assert_eq!(load_matrix(text).err(), Some(ConfigError::MalformedMatrix));
    }
    assert_eq!(
        ConfigError::MalformedMatrix.message(),
        "Could not parse the compatibility matrix"
    );
}

#[test]
fn matrix_built_by_hand_is_read_like_a_loaded_one() {
    let mut row = serde_json::Map::new();
    row.insert(String::from("MIT"), serde_json::Value::String(String::from("Same")));
    let mut rows = serde_json::Map::new();
    rows.insert(String::from("MIT"), serde_json::Value::Object(row));
    let matrix = serde_json::Value::Object(rows);
    assert!(is_compatibile(&Some(SPDXLicense::MIT), &Some(SPDXLicense::MIT), &matrix));
    assert!(!is_compatibile(&Some(SPDXLicense::MIT), &Some(SPDXLicense::BSD3), &matrix));
}

#[test]
fn verdict_on_a_given_cell() {
    let mit = Some(SPDXLicense::MIT);
    let gpl = Some(SPDXLicense::GPL3);
    assert_eq!(cell_verdict(&mit, &gpl, Some("Yes")), Verdict::Compatible);
    assert_eq!(cell_verdict(&mit, &gpl, Some("Same")), Verdict::Compatible);
    assert_eq!(cell_verdict(&mit, &gpl, Some("No")), Verdict::UnexpectedValue(String::from("No")));
    assert_eq!(cell_verdict(&mit, &gpl, Some("yes")), Verdict::UnexpectedValue(String::from("yes")));
    assert_eq!(cell_verdict(&mit, &gpl, Some("")), Verdict::UnexpectedValue(String::new()));
    assert_eq!(
        cell_verdict(&mit, &gpl, None),
        Verdict::EntryNotFound(SPDXLicense::MIT, SPDXLicense::GPL3)
    );
    assert_eq!(
        cell_verdict(&gpl, &mit, None),
        Verdict::EntryNotFound(SPDXLicense::GPL3, SPDXLicense::MIT)
    );
}

#[test]
fn verdict_without_a_license_ignores_the_cell() {
    let mit = Some(SPDXLicense::MIT);
    assert_eq!(cell_verdict(&None, &mit, Some("Yes")), Verdict::MissingLicense);
    assert_eq!(cell_verdict(&mit, &None, Some("Same")), Verdict::MissingLicense);
    assert_eq!(cell_verdict(&None, &None, None), Verdict::MissingLicense);
}
