use sjis_to_utf8::annotation::classify;
use sjis_to_utf8::annotation::classify_code_point;
use sjis_to_utf8::annotation::classify_locator;
use sjis_to_utf8::annotation::compose_key;
use sjis_to_utf8::annotation::resolve;
use sjis_to_utf8::get_gaiji;
use sjis_to_utf8::Annotation;
use sjis_to_utf8::AnnotationPatterns;
use sjis_to_utf8::GaijiTable;
use sjis_to_utf8::PatternError;

fn key(level: u32, row: u32, cell: u32) -> String {
    compose_key(level, row, cell).into_iter().collect()
}

fn table() -> GaijiTable {
    GaijiTable::from_reference("3-7436\tU+85A9\n3-2020\tU+3007\n3-2136\tU+3013\n")
}

#[test]
fn key_is_level_hyphen_and_offset_hex() {
    assert_eq!(key(3, 84, 22), "3-7436");
    assert_eq!(key(3, 1, 1), "3-2121");
    assert_eq!(key(4, 94, 94), "4-7E7E");
    assert_eq!(key(0, 0, 0), "0-2020");
    assert_eq!(key(9, 99, 99), "9-8383");
}

#[test]
fn key_uses_upper_case_hex_digits() {
    assert_eq!(key(3, 10, 11), "3-2A2B");
    assert_eq!(key(3, 12, 13), "3-2C2D");
    assert_eq!(key(3, 14, 15), "3-2E2F");
}

#[test]
fn key_of_large_numbers_keeps_every_digit() {
    assert_eq!(key(12, 224, 4064), "12-1001000");
    assert_eq!(key(u32::MAX, u32::MAX, 0), "4294967295-10000001F20");
}

#[test]
fn locator_resolves_through_the_table() {
    let located = Annotation::PlaneRowCell { level: 3, row: 84, cell: 22 };
    assert_eq!(resolve(&table(), located, "※［＃x］"), "薩");
}

#[test]
fn locator_missing_from_table_stays_verbatim() {
    let located = Annotation::PlaneRowCell { level: 3, row: 84, cell: 23 };
    assert_eq!(resolve(&table(), located, "※［＃x］"), "※［＃x］");
}

#[test]
fn code_point_resolves_to_its_character() {
    let direct = Annotation::DirectCodePoint { value: 0x8EC3 };
    assert_eq!(resolve(&table(), direct, "※［＃x］"), "\u{8EC3}");
    let ascii = Annotation::DirectCodePoint { value: 0x41 };
    assert_eq!(resolve(&table(), ascii, "※［＃x］"), "A");
}

#[test]
fn surrogate_code_point_stays_verbatim() {
    for value in [0xD800u32, 0xDBFF, 0xDC00, 0xDFFF, 0x110000] {
        let direct = Annotation::DirectCodePoint { value };
        assert_eq!(resolve(&table(), direct, "※［＃x］"), "※［＃x］");
    }
    let below = Annotation::DirectCodePoint { value: 0xD7FF };
    assert_eq!(resolve(&table(), below, "※［＃x］"), "\u{D7FF}");
    let above = Annotation::DirectCodePoint { value: 0xE000 };
    assert_eq!(resolve(&table(), above, "※［＃x］"), "\u{E000}");
}

#[test]
fn unrecognized_annotation_stays_verbatim() {
    assert_eq!(resolve(&table(), Annotation::Unrecognized, "※［＃不明な注記］"), "※［＃不明な注記］");
}

#[test]
fn locator_fields_are_read_from_groups() {
    let groups = vec![Some("第3水準1-84-22"), Some("3"), Some("84"), Some("22")];
    assert_eq!(
        classify_locator(&groups),
        Some(Annotation::PlaneRowCell { level: 3, row: 84, cell: 22 })
    );
}

#[test]
fn unreadable_level_falls_back_to_three() {
    let groups = vec![Some("x"), Some("３"), Some("84"), Some("22")];
    assert_eq!(
        classify_locator(&groups),
        Some(Annotation::PlaneRowCell { level: 3, row: 84, cell: 22 })
    );
}

#[test]
fn unreadable_row_and_cell_fall_back_to_zero() {
    let groups = vec![Some("x"), Some("4"), Some("８４"), Some("")];
    assert_eq!(
        classify_locator(&groups),
        Some(Annotation::PlaneRowCell { level: 4, row: 0, cell: 0 })
    );
}

#[test]
fn locator_needs_all_three_groups() {
    assert_eq!(classify_locator(&vec![Some("x"), Some("3"), Some("84")]), None);
    assert_eq!(classify_locator(&vec![Some("x"), Some("3"), None, Some("22")]), None);
    assert_eq!(classify_locator(&vec![]), None);
    assert_eq!(
        classify_locator(&vec![None, Some("3"), Some("1"), Some("2")]),
        Some(Annotation::PlaneRowCell { level: 3, row: 1, cell: 2 })
    );
}

#[test]
fn code_point_is_read_from_group() {
    let groups = vec![Some("U+8EC3"), Some("8EC3")];
    assert_eq!(classify_code_point(&groups), Some(Annotation::DirectCodePoint { value: 0x8EC3 }));
    let lower = vec![Some("U+8ec3"), Some("8ec3")];
    assert_eq!(classify_code_point(&lower), Some(Annotation::DirectCodePoint { value: 0x8EC3 }));
}

#[test]
fn code_point_needs_hex_digits() {
    assert_eq!(classify_code_point(&vec![Some("U+"), Some("")]), None);
    assert_eq!(classify_code_point(&vec![Some("U+"), Some("12G4")]), None);
    assert_eq!(classify_code_point(&vec![Some("U+"), None]), None);
    assert_eq!(classify_code_point(&vec![Some("U+")]), None);
}

#[test]
fn classify_recognizes_locator() {
    let patterns = AnnotationPatterns::new().unwrap();
    assert_eq!(
        classify(&patterns, "※［＃「薩」、第3水準1-84-22］"),
        Annotation::PlaneRowCell { level: 3, row: 84, cell: 22 }
    );
    assert_eq!(
        classify(&patterns, "第4水準2-1-9"),
        Annotation::PlaneRowCell { level: 4, row: 1, cell: 9 }
    );
}

#[test]
fn classify_recognizes_code_point() {
    let patterns = AnnotationPatterns::new().unwrap();
    assert_eq!(classify(&patterns, "※［＃U+8EC3］"), Annotation::DirectCodePoint { value: 0x8EC3 });
    assert_eq!(classify(&patterns, "U+00e9x"), Annotation::DirectCodePoint { value: 0xE9 });
}

#[test]
fn classify_takes_first_four_hex_digits() {
    let patterns = AnnotationPatterns::new().unwrap();
    assert_eq!(classify(&patterns, "U+20089"), Annotation::DirectCodePoint { value: 0x2008 });
}

#[test]
fn classify_rejects_other_notes() {
    let patterns = AnnotationPatterns::new().unwrap();
    assert_eq!(classify(&patterns, "※［＃不明な注記］"), Annotation::Unrecognized);
    assert_eq!(classify(&patterns, "U+12"), Annotation::Unrecognized);
    assert_eq!(classify(&patterns, "u+1234"), Annotation::Unrecognized);
    assert_eq!(classify(&patterns, "第3水準1-84"), Annotation::Unrecognized);
    assert_eq!(classify(&patterns, "第3水準12-84-22"), Annotation::Unrecognized);
    assert_eq!(classify(&patterns, ""), Annotation::Unrecognized);
}

#[test]
fn classify_prefers_locator_over_code_point() {
    let patterns = AnnotationPatterns::new().unwrap();
    assert_eq!(
        classify(&patterns, "※［＃U+8EC3、第3水準1-84-22］"),
        Annotation::PlaneRowCell { level: 3, row: 84, cell: 22 }
    );
}

#[test]
fn classify_reads_at_most_two_digits_of_the_cell() {
    let patterns = AnnotationPatterns::new().unwrap();
    assert_eq!(
        classify(&patterns, "第3水準1-84-223"),
        Annotation::PlaneRowCell { level: 3, row: 84, cell: 22 }
    );
    assert_eq!(classify(&patterns, "第3水準1-845-22"), Annotation::Unrecognized);
}

#[test]
fn full_width_level_digit_falls_back_to_three() {
    let patterns = AnnotationPatterns::new().unwrap();
    assert_eq!(
        classify(&patterns, "※［＃第４水準1-84-22］"),
        Annotation::PlaneRowCell { level: 3, row: 84, cell: 22 }
    );
    assert_eq!(get_gaiji(&patterns, &table(), "※［＃第３水準1-84-22］"), "薩");
}

#[test]
fn full_width_row_and_cell_fall_back_to_zero() {
    let patterns = AnnotationPatterns::new().unwrap();
    assert_eq!(
        classify(&patterns, "第3水準1-８４-２２"),
        Annotation::PlaneRowCell { level: 3, row: 0, cell: 0 }
    );
    assert_eq!(get_gaiji(&patterns, &table(), "※［＃第3水準1-８４-２２］"), "\u{3007}");
}

#[test]
fn get_gaiji_resolves_locator() {
    let patterns = AnnotationPatterns::new().unwrap();
    assert_eq!(get_gaiji(&patterns, &table(), "※［＃「薩」、第3水準1-84-22］"), "薩");
    assert_eq!(get_gaiji(&patterns, &table(), "※［＃第3水準1-1-22］"), "\u{3013}");
}

#[test]
fn get_gaiji_resolves_code_point() {
    let patterns = AnnotationPatterns::new().unwrap();
    assert_eq!(get_gaiji(&patterns, &table(), "※［＃U+8EC3］"), "\u{8EC3}");
}

#[test]
fn get_gaiji_keeps_surrogate_reference() {
    let patterns = AnnotationPatterns::new().unwrap();
    assert_eq!(get_gaiji(&patterns, &table(), "※［＃U+D800］"), "※［＃U+D800］");
    assert_eq!(get_gaiji(&patterns, &table(), "※［＃U+DFFF］"), "※［＃U+DFFF］");
}

#[test]
fn get_gaiji_keeps_unknown_note() {
    let patterns = AnnotationPatterns::new().unwrap();
    assert_eq!(get_gaiji(&patterns, &table(), "※［＃不明な注記］"), "※［＃不明な注記］");
}

#[test]
fn locator_miss_does_not_try_the_code_point() {
    let patterns = AnnotationPatterns::new().unwrap();
    let span = "※［＃第3水準1-84-23、U+8EC3］";
    assert_eq!(get_gaiji(&patterns, &table(), span), span);
}

#[test]
fn standard_patterns_compile() {
    assert!(AnnotationPatterns::new().is_ok());
}

#[test]
fn refused_pattern_is_named() {
    assert_eq!(
        AnnotationPatterns::with_patterns("(", "a", "b").err(),
        Some(PatternError::Marker)
    );
    assert_eq!(
        AnnotationPatterns::with_patterns("a", "[", "b").err(),
        Some(PatternError::Locator)
    );
    assert_eq!(
        AnnotationPatterns::with_patterns("a", "b", "x{2,1}").err(),
        Some(PatternError::CodePoint)
    );
    assert_eq!(AnnotationPatterns::with_patterns("(", "[", "x{2,1}").err(), Some(PatternError::Marker));
    assert!(AnnotationPatterns::with_patterns("a", "b", "c").is_ok());
}

#[test]
fn find_annotation_cuts_the_text() {
    let patterns = AnnotationPatterns::new().unwrap();
    assert_eq!(
        patterns.find_annotation("前※［＃注］後※［＃二］"),
        Some(("前", "※［＃注］", "後※［＃二］"))
    );
    assert_eq!(patterns.find_annotation("※［＃注］"), Some(("", "※［＃注］", "")));
    assert_eq!(patterns.find_annotation("注なし"), None);
}

#[test]
fn groups_hold_the_captured_texts() {
    let patterns = AnnotationPatterns::new().unwrap();
    assert_eq!(
        patterns.locator_groups("、第3水準1-84-22］"),
        Some(vec![Some("第3水準1-84-22"), Some("3"), Some("84"), Some("22")])
    );
    assert_eq!(patterns.locator_groups("U+8EC3"), None);
    assert_eq!(
        patterns.code_point_groups("※［＃U+8EC3］"),
        Some(vec![Some("U+8EC3"), Some("8EC3")])
    );
    assert_eq!(patterns.code_point_groups("第3水準1-84-22"), None);
}

#[test]
fn group_that_took_no_part_is_absent() {
    let patterns = AnnotationPatterns::with_patterns("a", "(x)|(y)", "b").unwrap();
    assert_eq!(patterns.locator_groups("y"), Some(vec![Some("y"), None, Some("y")]));
}
