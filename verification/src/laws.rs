//! What holds of the conversion as a whole.
use vstd::prelude::*;
use crate::annotation::classified;
use crate::annotation::code_point_annotation;
use crate::annotation::locator_annotation;
use crate::annotation::locator_key;
use crate::annotation::resolved;
use crate::annotation::Annotation;
use crate::convert::joined;
use crate::convert::Part;
use crate::numeral::all_digits;
use crate::numeral::decimal_text;
use crate::numeral::digit_char;
use crate::numeral::digits_value;
use crate::numeral::upper_hex_text;
use crate::pattern::first_match;
use crate::reference::first_line_len;
use crate::reference::line_entry;
use crate::reference::reference_table;
use crate::reference::table_with_lines;
use crate::pattern::AnnotationPatterns;
use crate::text::is_scalar_value;

verus! {

/// A locator that the table holds resolves to the character that the table
/// maps its key to.
pub proof fn law_locator_in_table(
    table: Map<Seq<char>, char>,
    level: u32,
    row: u32,
    cell: u32,
    span: Seq<char>,
)
    requires
        table.contains_key(locator_key(level, row, cell)),
    ensures
        resolved(table, Annotation::PlaneRowCell { level, row, cell }, span) == seq![
            table[locator_key(level, row, cell)],
        ],
{
}

/// The key of a locator with a one-digit level and a row and a cell of up to
/// two digits has six characters: the level, a hyphen, and two upper-case
/// hexadecimal digits each for row plus 32 and cell plus 32.
pub proof fn law_locator_key_format(level: u32, row: u32, cell: u32)
    requires
        level <= 9,
        row <= 99,
        cell <= 99,
    ensures
        locator_key(level, row, cell) == seq![
            digit_char(level as nat),
            '-',
            digit_char(((row + 32) / 16) as nat),
            digit_char(((row + 32) % 16) as nat),
            digit_char(((cell + 32) / 16) as nat),
            digit_char(((cell + 32) % 16) as nat),
        ],
{
    reveal_with_fuel(upper_hex_text, 3);
    reveal_with_fuel(decimal_text, 2);
    assert(locator_key(level, row, cell) =~= seq![
        digit_char(level as nat),
        '-',
        digit_char(((row + 32) / 16) as nat),
        digit_char(((row + 32) % 16) as nat),
        digit_char(((cell + 32) / 16) as nat),
        digit_char(((cell + 32) % 16) as nat),
    ]);
}

proof fn lemma_short_decimal(digits: Seq<char>)
    requires
        1 <= digits.len() <= 2,
        all_digits(digits, 10),
    ensures
        digits_value(digits, 10) <= 99,
        digits.len() == 1 ==> digits_value(digits, 10) <= 9,
{
    reveal_with_fuel(digits_value, 3);
    assert(crate::numeral::is_digit(digits[0], 10));
    if digits.len() == 2 {
        assert(crate::numeral::is_digit(digits[1], 10));
        assert(digits.drop_last()[0] == digits[0]);
    }
}

/// A locator pattern that captured a level of one decimal digit and a row
/// and a cell of one or two decimal digits gives the locator with those
/// numbers.
pub proof fn law_locator_fields(
    whole: Option<Seq<char>>,
    level: Seq<char>,
    row: Seq<char>,
    cell: Seq<char>,
)
    requires
        level.len() == 1,
        1 <= row.len() <= 2,
        1 <= cell.len() <= 2,
        all_digits(level, 10),
        all_digits(row, 10),
        all_digits(cell, 10),
    ensures
        digits_value(level, 10) <= 9,
        digits_value(row, 10) <= 99,
        digits_value(cell, 10) <= 99,
        locator_annotation(seq![whole, Some(level), Some(row), Some(cell)]) == Some(
            Annotation::PlaneRowCell {
                level: digits_value(level, 10) as u32,
                row: digits_value(row, 10) as u32,
                cell: digits_value(cell, 10) as u32,
            },
        ),
{
    lemma_short_decimal(level);
    lemma_short_decimal(row);
    lemma_short_decimal(cell);
    assert(crate::numeral::is_digit(level[0], 10));
    assert(crate::numeral::is_digit(row[0], 10));
    assert(crate::numeral::is_digit(cell[0], 10));
}

/// Four hexadecimal digits after `U+` give the code point they spell, and
/// the annotation resolves to the character with that code point. Where the
/// code point is a surrogate, the annotation stays as it is.
pub proof fn law_code_point(
    table: Map<Seq<char>, char>,
    whole: Option<Seq<char>>,
    digits: Seq<char>,
    span: Seq<char>,
)
    requires
        digits.len() == 4,
        all_digits(digits, 16),
    ensures
        digits_value(digits, 16) <= 0xFFFF,
        code_point_annotation(seq![whole, Some(digits)]) == Some(
            Annotation::DirectCodePoint { value: digits_value(digits, 16) as u32 },
        ),
        resolved(
            table,
            Annotation::DirectCodePoint { value: digits_value(digits, 16) as u32 },
            span,
        ) == if 0xD800 <= digits_value(digits, 16) <= 0xDFFF {
            span
        } else {
            seq![digits_value(digits, 16) as char]
        },
{
    reveal_with_fuel(digits_value, 5);
    let d3 = digits.drop_last();
    let d2 = d3.drop_last();
    let d1 = d2.drop_last();
    assert(crate::numeral::is_digit(digits[0], 16));
    assert(crate::numeral::is_digit(digits[1], 16));
    assert(crate::numeral::is_digit(digits[2], 16));
    assert(crate::numeral::is_digit(digits[3], 16));
    assert(d1[0] == digits[0]);
    assert(d2[1] == digits[1]);
    assert(d3[2] == digits[2]);
    assert(digits[0] != '+');
}

/// An annotation of neither kind, a locator that the table does not hold,
/// and a code point that is no character all leave the annotation as it
/// stands.
pub proof fn law_unresolved_stays(
    table: Map<Seq<char>, char>,
    annotation: Annotation,
    span: Seq<char>,
)
    requires
        match annotation {
            Annotation::PlaneRowCell { level, row, cell } => !table.contains_key(
                locator_key(level, row, cell),
            ),
            Annotation::DirectCodePoint { value } => !is_scalar_value(value),
            Annotation::Unrecognized => true,
        },
    ensures
        resolved(table, annotation, span) == span,
{
}

/// The class of an annotation: a locator where the locator pattern gave
/// one, whatever the code-point pattern found; else a code point where that
/// pattern gave one; else neither.
pub proof fn law_locator_first(
    locator: Option<Seq<Option<Seq<char>>>>,
    code_point: Option<Seq<Option<Seq<char>>>>,
)
    ensures
        locator is None && code_point is None ==> classified(locator, code_point)
            == Annotation::Unrecognized,
        locator is Some && locator_annotation(locator->0) is Some ==> classified(
            locator,
            code_point,
        ) == locator_annotation(locator->0)->0,
        locator is None && code_point is Some && code_point_annotation(code_point->0) is Some
            ==> classified(locator, code_point) == code_point_annotation(code_point->0)->0,
{
}

/// A text in which the marker pattern finds nothing comes out as it went
/// in, however often it is put through.
pub proof fn law_plain_text_unchanged(
    patterns: AnnotationPatterns,
    table: Map<Seq<char>, char>,
    text: Seq<char>,
)
    ensures
        first_match(patterns.marker(), text) is None ==> {
            &&& patterns.substituted(table, text) == text
            &&& patterns.substituted(table, patterns.substituted(table, text)) == text
        },
{
}

/// The parts of a text, joined as they were, are the text; joined as they
/// are rendered, they are the converted text. So the conversion changes
/// nothing but the annotations, and keeps the order of all parts.
pub proof fn law_surrounding_text_kept(
    patterns: AnnotationPatterns,
    table: Map<Seq<char>, char>,
    text: Seq<char>,
)
    ensures
        joined(patterns.parts(text).map_values(|part: Part| AnnotationPatterns::source(part)))
            == text,
        joined(patterns.parts(text).map_values(|part: Part| patterns.rendered(table, part)))
            == patterns.substituted(table, text),
    decreases text.len(),
{
    let source = |part: Part| AnnotationPatterns::source(part);
    let rendered = |part: Part| patterns.rendered(table, part);
    let parts = patterns.parts(text);
    let cut = match first_match(patterns.marker(), text) {
        Some((before, span, after)) => span.len() > 0 && text == before + span + after,
        None => false,
    };
    if cut {
        let (before, span, after) = first_match(patterns.marker(), text)->0;
        law_surrounding_text_kept(patterns, table, after);
        let tail = patterns.parts(after);
        assert(parts == seq![Part::Plain(before), Part::Annotation(span)] + tail);
        lemma_joined_two(parts.map_values(source));
        lemma_joined_two(parts.map_values(rendered));
        assert(parts.map_values(source).skip(2) =~= tail.map_values(source));
        assert(parts.map_values(rendered).skip(2) =~= tail.map_values(rendered));
        assert(before + span + after =~= before + (span + after));
        assert(before + resolved(table, patterns.classification(span), span)
            + patterns.substituted(table, after) =~= before + (resolved(
            table,
            patterns.classification(span),
            span,
        ) + patterns.substituted(table, after)));
    } else {
        assert(parts == seq![Part::Plain(text)]);
        lemma_joined_one(parts.map_values(source));
        lemma_joined_one(parts.map_values(rendered));
    }
}

proof fn lemma_first_line_of_joined(front: Seq<char>, back: Seq<char>)
    ensures
        first_line_len(front + back) == if first_line_len(front) < front.len() {
            first_line_len(front)
        } else {
            front.len() + first_line_len(back)
        },
        first_line_len(front) <= front.len(),
    decreases front.len(),
{
    if front.len() == 0 {
        assert(front + back =~= back);
    } else {
        assert((front + back).skip(1) =~= front.skip(1) + back);
        lemma_first_line_of_joined(front.skip(1), back);
    }
}

/// The lines of a reference text are taken in the order in which they
/// stand: the table of a text continued on a new line is the table of the
/// text with the lines of the continuation added.
pub proof fn law_lines_in_order(table: Map<Seq<char>, char>, front: Seq<char>, back: Seq<char>)
    ensures
        table_with_lines(table, front + seq!['\n'] + back) == table_with_lines(
            table_with_lines(table, front),
            back,
        ),
    decreases front.len(),
{
    let text = front + seq!['\n'] + back;
    let tail = seq!['\n'] + back;
    assert(text =~= front + tail);
    lemma_first_line_of_joined(front, tail);
    assert(first_line_len(tail) == 0);
    let n = first_line_len(front);
    if front.len() == 0 {
        assert(text.take(0) =~= Seq::<char>::empty());
        assert(text.skip(1) =~= back);
    } else if n < front.len() {
        assert(text.take(n as int) =~= front.take(n as int));
        assert(text.skip((n + 1) as int) =~= front.skip((n + 1) as int) + seq!['\n'] + back);
        let updated = match line_entry(front.take(n as int)) {
            Some((key, c)) => table.insert(key, c),
            None => table,
        };
        law_lines_in_order(updated, front.skip((n + 1) as int), back);
    } else {
        assert(text.take(n as int) =~= front);
        assert(front.take(n as int) =~= front);
        assert(text.skip((n + 1) as int) =~= back);
    }
}

/// An entry on a new last line replaces what the lines before it gave its
/// key, and leaves every other key as it was.
pub proof fn law_later_entry_replaces(front: Seq<char>, line: Seq<char>)
    requires
        first_line_len(line) == line.len(),
    ensures
        reference_table(front + seq!['\n'] + line) == match line_entry(line) {
            Some((key, c)) => reference_table(front).insert(key, c),
            None => reference_table(front),
        },
{
    law_lines_in_order(Map::empty(), front, line);
    assert(line.take(line.len() as int) =~= line);
    if line.len() == 0 {
        assert(line_entry(line) is None) by {
            reveal_with_fuel(crate::reference::leading_spaces, 1);
            reveal_with_fuel(crate::reference::leading_token, 1);
        }
    }
}

proof fn lemma_joined_one(parts: Seq<Seq<char>>)
    requires
        parts.len() == 1,
    ensures
        joined(parts) == parts[0],
{
    reveal_with_fuel(joined, 2);
    assert(parts[0] + Seq::<char>::empty() =~= parts[0]);
}

proof fn lemma_joined_two(parts: Seq<Seq<char>>)
    requires
        parts.len() >= 2,
    ensures
        joined(parts) == parts[0] + (parts[1] + joined(parts.skip(2))),
{
    reveal_with_fuel(joined, 3);
    assert(parts.skip(1).skip(1) =~= parts.skip(2));
}

} // verus!
