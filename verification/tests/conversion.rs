use sjis_to_utf8::convert_content;
use sjis_to_utf8::substitute;
use sjis_to_utf8::AnnotationPatterns;
use sjis_to_utf8::GaijiTable;

fn shift_jis(text: &str) -> Vec<u8> {
    let (bytes, _, unmappable) = encoding_rs::SHIFT_JIS.encode(text);
    assert!(!unmappable);
    bytes.into_owned()
}

fn sample_table() -> GaijiTable {
    GaijiTable::from_reference("# sample\n3-7436\tU+85A9\n3-2121\tU+3000\n4-2D2B\tU+20089\n")
}

#[test]
fn locator_annotation_is_replaced_by_table_character() {
    let patterns = AnnotationPatterns::new().unwrap();
    let table = sample_table();
    let input = shift_jis("鹿児島は※［＃「薩」、第3水準1-84-22］摩");
    assert_eq!(convert_content(&patterns, &table, &input), "鹿児島は薩摩");
}

#[test]
fn code_point_annotation_is_replaced_by_its_character() {
    let patterns = AnnotationPatterns::new().unwrap();
    let table = GaijiTable::new();
    let input = shift_jis("前※［＃「身＋單」、U+8EC3、10-2］後");
    assert_eq!(convert_content(&patterns, &table, &input), "前\u{8EC3}後");
}

#[test]
fn unknown_annotation_is_left_verbatim() {
    let patterns = AnnotationPatterns::new().unwrap();
    let table = sample_table();
    let input = shift_jis("※［＃不明な注記］");
    assert_eq!(convert_content(&patterns, &table, &input), "※［＃不明な注記］");
}

#[test]
fn invalid_bytes_become_replacement_characters() {
    let patterns = AnnotationPatterns::new().unwrap();
    let table = GaijiTable::new();
    let input: Vec<u8> = vec![b'a', 0xFD, b'b'];
    assert_eq!(convert_content(&patterns, &table, &input), "a\u{FFFD}b");
}

#[test]
fn truncated_double_byte_sequence_is_replaced() {
    let patterns = AnnotationPatterns::new().unwrap();
    let table = GaijiTable::new();
    let input: Vec<u8> = vec![b'x', 0x82];
    assert_eq!(convert_content(&patterns, &table, &input), "x\u{FFFD}");
}

#[test]
fn shift_jis_bytes_are_decoded() {
    let patterns = AnnotationPatterns::new().unwrap();
    let table = GaijiTable::new();
    let input: Vec<u8> = vec![0x93, 0xFA, 0x96, 0x7B, 0x8C, 0xEA];
    assert_eq!(convert_content(&patterns, &table, &input), "日本語");
}

#[test]
fn half_width_katakana_is_decoded() {
    let patterns = AnnotationPatterns::new().unwrap();
    let table = GaijiTable::new();
    let input: Vec<u8> = vec![0xB1, 0xB2];
    assert_eq!(convert_content(&patterns, &table, &input), "ｱｲ");
}

#[test]
fn empty_input_gives_empty_text() {
    let patterns = AnnotationPatterns::new().unwrap();
    let table = sample_table();
    assert_eq!(convert_content(&patterns, &table, &[]), "");
}

#[test]
fn text_without_annotation_is_only_decoded() {
    let patterns = AnnotationPatterns::new().unwrap();
    let table = sample_table();
    let text = "吾輩は猫である。名前はまだ無い。\r\nU+8EC3 第3水準1-84-22";
    let once = convert_content(&patterns, &table, &shift_jis(text));
    assert_eq!(once, text);
    assert_eq!(substitute(&patterns, &table, &once), once);
    assert_eq!(convert_content(&patterns, &table, &shift_jis(&once)), once);
}

#[test]
fn surrounding_text_is_kept_in_order() {
    let patterns = AnnotationPatterns::new().unwrap();
    let table = sample_table();
    let text = "一※［＃第3水準1-84-22］二※［＃不明］三※［＃U+3042］四";
    assert_eq!(substitute(&patterns, &table, text), "一薩二※［＃不明］三あ四");
}

#[test]
fn adjacent_annotations_are_each_resolved() {
    let patterns = AnnotationPatterns::new().unwrap();
    let table = sample_table();
    let text = "※［＃第3水準1-84-22］※［＃第3水準1-1-1］";
    assert_eq!(substitute(&patterns, &table, text), "薩\u{3000}");
}

#[test]
fn annotation_ends_at_first_closing_bracket() {
    let patterns = AnnotationPatterns::new().unwrap();
    let table = sample_table();
    let text = "※［＃U+3042］い］";
    assert_eq!(substitute(&patterns, &table, text), "あい］");
}

#[test]
fn note_may_not_be_empty() {
    let patterns = AnnotationPatterns::new().unwrap();
    let table = sample_table();
    assert_eq!(substitute(&patterns, &table, "※［＃］"), "※［＃］");
    assert_eq!(substitute(&patterns, &table, "※［＃］U+3042］"), "あ");
}

#[test]
fn annotation_does_not_span_lines() {
    let patterns = AnnotationPatterns::new().unwrap();
    let table = sample_table();
    let text = "※［＃U+3042\n］";
    assert_eq!(substitute(&patterns, &table, text), text);
}

#[test]
fn unclosed_annotation_is_left_alone() {
    let patterns = AnnotationPatterns::new().unwrap();
    let table = sample_table();
    let text = "※［＃第3水準1-84-22";
    assert_eq!(substitute(&patterns, &table, text), text);
}

#[test]
fn marker_alone_is_plain_text() {
    let patterns = AnnotationPatterns::new().unwrap();
    let table = sample_table();
    assert_eq!(substitute(&patterns, &table, "※印と［＃注］"), "※印と［＃注］");
}

#[test]
fn utf8_byte_order_mark_switches_the_decoder() {
    let patterns = AnnotationPatterns::new().unwrap();
    let table = GaijiTable::new();
    let mut input: Vec<u8> = vec![0xEF, 0xBB, 0xBF];
    input.extend_from_slice("薩摩".as_bytes());
    assert_eq!(convert_content(&patterns, &table, &input), "薩摩");
}

#[test]
fn plane_two_locator_uses_level_four_keys() {
    let patterns = AnnotationPatterns::new().unwrap();
    let table = sample_table();
    let text = "※［＃「丂」、第4水準2-13-11］";
    assert_eq!(substitute(&patterns, &table, text), "\u{20089}");
}

#[test]
fn substitution_agrees_with_replace_all() {
    let patterns = AnnotationPatterns::new().unwrap();
    let table = sample_table();
    let marker = regex::Regex::new(sjis_to_utf8::pattern::MARKER).unwrap();
    let texts = [
        "",
        "注なし",
        "※［＃第3水準1-84-22］",
        "一※［＃第3水準1-84-22］二※［＃不明］三※［＃U+3042］四",
        "※［＃※［＃U+3042］］",
        "※［＃］］※［＃U+D800］",
        "※［＃a\nb］※［＃U+3042］\n※［＃第３水準1-1-1］",
        "※※［＃＃］［＃U+0041］",
        "※［＃第3水準1-84-23、U+8EC3］※［＃第3水準1-84-22",
    ];
    for text in texts {
        let expected = marker.replace_all(text, |found: &regex::Captures| {
            sjis_to_utf8::get_gaiji(&patterns, &table, &found[0])
        });
        assert_eq!(substitute(&patterns, &table, text), expected);
    }
}
