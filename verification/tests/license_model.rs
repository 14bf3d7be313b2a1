use license_compat::classifier::license_name;
use license_compat::spdx::{SPDXLicense, OVERSIZED_TEXT_BYTES};
use license_compat::text::{leading_words, same_text, separates};

const ALL: [SPDXLicense; 6] = [
    SPDXLicense::MIT,
    SPDXLicense::Apache2,
    SPDXLicense::MPL,
    SPDXLicense::GPL3,
    SPDXLicense::BSD3,
    SPDXLicense::PSFL,
];

fn aliases(license: SPDXLicense) -> Vec<&'static str> {
    match license {
        SPDXLicense::MIT => vec!["MIT", "MIT License"],
        SPDXLicense::Apache2 => vec!["Apache-2.0", "Apache 2.0", "Apache", "Apache License 2.0"],
        SPDXLicense::MPL => vec!["MPL-2.0", "Mozilla Public License 2.0 (MPL 2.0)"],
        SPDXLicense::GPL3 => vec!["GPL-3.0-only", "GPL-3.0"],
        SPDXLicense::BSD3 => vec!["BSD-3-Clause"],
        SPDXLicense::PSFL => vec!["PSF-2.0", "Python-2.0", "Python Software Foundation License"],
    }
}

fn mit_wording() -> String {
    let mut text = String::from("MIT License\n\nCopyright (c) 2024 The Authors\n\n");
    text.push_str("Permission is hereby granted, free of charge, to any person obtaining a copy ");
    text.push_str("of this software and associated documentation files, to deal in the Software ");
    text.push_str("without restriction.");
    text
}

#[test]
fn normalize_recognises_a_canonical_name() {
    assert_eq!(SPDXLicense::normalize("MIT"), Some(SPDXLicense::MIT));
}

#[test]
fn every_alias_normalises_to_its_license() {
    for license in ALL {
        for alias in aliases(license) {
            assert_eq!(SPDXLicense::normalize(alias), Some(license), "alias {alias:?}");
            assert_eq!(SPDXLicense::from_alias(alias), Some(license), "alias {alias:?}");
        }
    }
}

#[test]
fn canonical_identifiers() {
    assert_eq!(SPDXLicense::MIT.to_string(), "MIT");
    assert_eq!(SPDXLicense::Apache2.to_string(), "Apache-2.0");
    assert_eq!(SPDXLicense::MPL.to_string(), "MPL-2.0");
    assert_eq!(SPDXLicense::GPL3.to_string(), "GPL-3.0-only");
    assert_eq!(SPDXLicense::BSD3.to_string(), "BSD-3-Clause");
    assert_eq!(SPDXLicense::PSFL.to_string(), "PSF-2.0");
}

#[test]
fn canonical_identifier_is_an_alias() {
    for license in ALL {
        assert_eq!(license.as_str(), license.to_string());
        assert_eq!(SPDXLicense::normalize(license.as_str()), Some(license));
    }
}

#[test]
fn text_without_an_alias_is_not_recognised() {
    assert_eq!(SPDXLicense::normalize(""), None);
    assert_eq!(SPDXLicense::normalize("Proprietary"), None);
    assert_eq!(SPDXLicense::normalize("see the file COPYING"), None);
    assert_eq!(SPDXLicense::normalize("License :: OSI Approved :: Zope Public License"), None);
}

#[test]
fn matching_is_exact() {
    assert_eq!(SPDXLicense::normalize("mit"), None);
    assert_eq!(SPDXLicense::normalize("MIT "), None);
    assert_eq!(SPDXLicense::normalize(" MIT"), None);
    assert_eq!(SPDXLicense::normalize("MIT license"), None);
    assert_eq!(SPDXLicense::normalize("Apache-2"), None);
    assert_eq!(SPDXLicense::normalize("The MIT License"), None);
}

#[test]
fn classifier_style_text_is_matched_by_its_name() {
    assert_eq!(
        SPDXLicense::normalize("License :: OSI Approved :: MIT License"),
        Some(SPDXLicense::MIT)
    );
    assert_eq!(
        SPDXLicense::normalize("License :: OSI Approved :: Python Software Foundation License"),
        Some(SPDXLicense::PSFL)
    );
    assert_eq!(
        SPDXLicense::normalize(
            "License :: OSI Approved :: Mozilla Public License 2.0 (MPL 2.0)"
        ),
        Some(SPDXLicense::MPL)
    );
    assert_eq!(
        SPDXLicense::from_alias("License :: OSI Approved :: MIT License"),
        None
    );
}

#[test]
fn license_name_of_a_classifier() {
    assert_eq!(license_name("License :: OSI Approved :: MIT License"), Some("MIT License"));
    assert_eq!(license_name("License :: OSI Approved :: "), Some(""));
    assert_eq!(license_name("Programming Language :: Python :: 3"), None);
    assert_eq!(license_name("License :: OSI Approved"), None);
    assert_eq!(license_name("MIT License"), None);
    assert_eq!(license_name(""), None);
}

#[test]
fn license_name_starts_at_the_first_prefix() {
    assert_eq!(
        license_name("Topic :: License :: OSI Approved :: BSD-3-Clause"),
        Some("BSD-3-Clause")
    );
    assert_eq!(
        license_name("License :: OSI Approved :: License :: OSI Approved :: MIT"),
        Some("License :: OSI Approved :: MIT")
    );
}

#[test]
fn license_name_does_not_cross_a_line_feed() {
    assert_eq!(license_name("License :: OSI Approved :: MIT License\n"), None);
    assert_eq!(license_name("License :: OSI Approved :: MIT\nLicense"), None);
    assert_eq!(
        license_name("License :: OSI Approved :: GPL\nLicense :: OSI Approved :: MIT"),
        Some("MIT")
    );
    assert_eq!(license_name("License :: OSI Approved :: MIT\r"), Some("MIT\r"));
}

#[test]
fn oversized_text_is_cut_to_its_first_two_words() {
    let text = mit_wording();
    assert!(text.len() > OVERSIZED_TEXT_BYTES);
    assert_eq!(leading_words(&text), "MIT License");
    assert_eq!(SPDXLicense::normalize(&text), Some(SPDXLicense::MIT));
}

#[test]
fn oversized_text_matched_in_full_is_not_recognised() {
    let text = mit_wording();
    assert!(text.contains("MIT License"));
    assert_eq!(SPDXLicense::from_alias(&text), None);
}

#[test]
fn oversized_text_is_not_searched_for_an_alias() {
    let mut text = String::from("This software is released under the MIT License, ");
    text.push_str("which lets you do with it whatever you like as long as the notice stays.");
    assert!(text.len() > OVERSIZED_TEXT_BYTES);
    assert_eq!(leading_words(&text), "This software");
    assert_eq!(SPDXLicense::normalize(&text), None);
    assert_eq!(SPDXLicense::from_alias(&text), None);
}

#[test]
fn oversized_text_with_one_leading_word() {
    let mut text = String::from("Apache");
    text.push_str(&" ".repeat(120));
    assert_eq!(SPDXLicense::normalize(&text), Some(SPDXLicense::Apache2));
    assert_eq!(SPDXLicense::from_alias(&text), None);
}

#[test]
fn oversized_classifier_is_cut_before_its_name_is_read() {
    let mut text = " ".repeat(101);
    text.push_str("License :: OSI Approved :: MIT License");
    assert_eq!(license_name(&text), Some("MIT License"));
    assert_eq!(leading_words(&text), "License ::");
    assert_eq!(SPDXLicense::normalize(&text), None);
}

#[test]
fn threshold_is_counted_in_bytes_and_is_exclusive() {
    assert_eq!(OVERSIZED_TEXT_BYTES, 100);
    let mut at_threshold = String::from("MIT");
    at_threshold.push_str(&" ".repeat(97));
    assert_eq!(at_threshold.len(), 100);
    assert_eq!(SPDXLicense::normalize(&at_threshold), None);
    let mut over_threshold = at_threshold.clone();
    over_threshold.push(' ');
    assert_eq!(SPDXLicense::normalize(&over_threshold), Some(SPDXLicense::MIT));
    // 51 characters of two bytes each: 102 bytes.
    let mut wide = String::from("MIT ");
    wide.push_str(&"é".repeat(49));
    assert_eq!(wide.chars().count(), 53);
    assert!(wide.len() > OVERSIZED_TEXT_BYTES);
    assert_eq!(SPDXLicense::normalize(&wide), None);
}

#[test]
fn leading_words_of_short_texts() {
    assert_eq!(leading_words(""), "");
    assert_eq!(leading_words("   \n\t "), "");
    assert_eq!(leading_words("MIT"), "MIT");
    assert_eq!(leading_words("  MIT  "), "MIT");
    assert_eq!(leading_words("MIT License"), "MIT License");
    assert_eq!(leading_words("MIT\n\n   License"), "MIT License");
    assert_eq!(leading_words("\tApache License 2.0"), "Apache License");
    assert_eq!(leading_words("a b c d"), "a b");
    assert_eq!(leading_words("größe straße übrig"), "größe straße");
}

#[test]
fn separators_are_white_space() {
    for c in [' ', '\t', '\n', '\u{b}', '\u{c}', '\r', '\u{85}', '\u{a0}', '\u{1680}'] {
        assert!(separates(c), "{c:?}");
    }
    for c in ['\u{2000}', '\u{2003}', '\u{200a}', '\u{2028}', '\u{2029}', '\u{202f}'] {
        assert!(separates(c), "{c:?}");
    }
    for c in ['\u{205f}', '\u{3000}'] {
        assert!(separates(c), "{c:?}");
    }
    for c in ['a', '-', '\0', '\u{8}', '\u{e}', '\u{1f}', '\u{84}', '\u{86}', '\u{200b}'] {
        assert!(!separates(c), "{c:?}");
    }
    for c in ['\u{180e}', '\u{2060}', '\u{feff}', '\u{1fff}', '\u{202e}', '\u{3001}'] {
        assert!(!separates(c), "{c:?}");
    }
}

#[test]
fn separators_are_what_std_takes_for_white_space() {
    for code in 0..=0x10ffffu32 {
        if let Some(c) = char::from_u32(code) {
            assert_eq!(separates(c), c.is_whitespace(), "U+{code:04X}");
        }
    }
}

#[test]
fn words_are_split_at_any_white_space() {
    assert_eq!(leading_words("MIT\u{a0}License here"), "MIT License");
    assert_eq!(leading_words("\u{3000}Apache\u{2003}\u{2028}2.0\u{85}of 2004"), "Apache 2.0");
    assert_eq!(leading_words("MIT\u{200b}License here"), "MIT\u{200b}License here");
}

#[test]
fn oversized_text_with_a_no_break_space() {
    let mut text = String::from("MIT\u{a0}License\n\n");
    text.push_str(&"Permission is hereby granted, free of charge. ".repeat(4));
    assert!(text.len() > OVERSIZED_TEXT_BYTES);
    assert_eq!(SPDXLicense::normalize(&text), Some(SPDXLicense::MIT));
    assert_eq!(SPDXLicense::from_alias(&text), None);
}

#[test]
fn same_text_compares_characters() {
    assert!(same_text("", ""));
    assert!(same_text("Yes", "Yes"));
    assert!(!same_text("Yes", "yes"));
    assert!(!same_text("Yes", "Yes "));
    assert!(!same_text("Same", "Sam"));
    assert!(same_text("größe", "größe"));
    assert!(!same_text("größe", "grösse"));
}
