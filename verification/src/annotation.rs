//! Classifying an annotation and resolving it to the character it names.
use vstd::prelude::*;
use crate::numeral::decimal_text;
use crate::numeral::parse_decimal;
use crate::numeral::parse_hex;
use crate::numeral::parsed_unsigned;
use crate::numeral::push_decimal;
use crate::numeral::push_upper_hex;
use crate::numeral::upper_hex_text;
use crate::pattern::first_captures;
use crate::pattern::group_texts;
use crate::pattern::AnnotationPatterns;
use crate::table::GaijiTable;
use crate::text::chars_of;
use crate::text::scalar_char;

verus! {

/// What an annotation says about the character it stands for.
#[derive(Debug, Clone, Copy, PartialEq, Eq, Structural)]
pub enum Annotation {
    /// A locator in JIS X 0213: the level, and the row and cell counted from
    /// one.
    PlaneRowCell { level: u32, row: u32, cell: u32 },
    /// A Unicode code point.
    DirectCodePoint { value: u32 },
    /// Neither of the two.
    Unrecognized,
}

/// The number that a captured field spells in decimal, or `fallback` where
/// it spells none.
pub open spec fn field_value(text: Seq<char>, fallback: u32) -> u32 {
    match parsed_unsigned(text, 10) {
        Some(v) => v,
        None => fallback,
    }
}

/// The locator that the capture groups of the locator pattern give: level,
/// row and cell from groups 1 to 3. The level falls back to 3, row and cell
/// to 0.
pub open spec fn locator_annotation(groups: Seq<Option<Seq<char>>>) -> Option<Annotation> {
    if groups.len() == 4 && groups[1] is Some && groups[2] is Some && groups[3] is Some {
        Some(
            Annotation::PlaneRowCell {
                level: field_value(groups[1]->0, 3),
                row: field_value(groups[2]->0, 0),
                cell: field_value(groups[3]->0, 0),
            },
        )
    } else {
        None
    }
}

/// The code point that the capture groups of the code-point pattern give:
/// group 1 read as hexadecimal.
pub open spec fn code_point_annotation(groups: Seq<Option<Seq<char>>>) -> Option<Annotation> {
    if groups.len() == 2 && groups[1] is Some {
        match parsed_unsigned(groups[1]->0, 16) {
            Some(value) => Some(Annotation::DirectCodePoint { value }),
            None => None,
        }
    } else {
        None
    }
}

/// The class of an annotation, given what the locator pattern and the
/// code-point pattern captured in it. The locator comes first.
pub open spec fn classified(
    locator: Option<Seq<Option<Seq<char>>>>,
    code_point: Option<Seq<Option<Seq<char>>>>,
) -> Annotation {
    let by_locator = match locator {
        Some(groups) => locator_annotation(groups),
        None => None,
    };
    let by_code_point = match code_point {
        Some(groups) => code_point_annotation(groups),
        None => None,
    };
    match by_locator {
        Some(annotation) => annotation,
        None => match by_code_point {
            Some(annotation) => annotation,
            None => Annotation::Unrecognized,
        },
    }
}

/// The key under which the table holds a locator: the level in decimal, a
/// hyphen, then row and cell, each raised by 32 and written in upper-case
/// hexadecimal.
pub open spec fn locator_key(level: u32, row: u32, cell: u32) -> Seq<char> {
    decimal_text(level as nat) + seq!['-'] + upper_hex_text((row + 32) as nat) + upper_hex_text(
        (cell + 32) as nat,
    )
}

/// The text that takes the place of the annotation `span`: the character
/// that the annotation names, or the annotation itself where the table has
/// no such key or the code point is no character.
pub open spec fn resolved(
    table: Map<Seq<char>, char>,
    annotation: Annotation,
    span: Seq<char>,
) -> Seq<char> {
    match annotation {
        Annotation::PlaneRowCell { level, row, cell } => {
            let key = locator_key(level, row, cell);
            if table.contains_key(key) {
                seq![table[key]]
            } else {
                span
            }
        },
        Annotation::DirectCodePoint { value } => match scalar_char(value) {
            Some(c) => seq![c],
            None => span,
        },
        Annotation::Unrecognized => span,
    }
}

impl AnnotationPatterns {
    /// The class of the annotation `span`.
    pub open spec fn classification(&self, span: Seq<char>) -> Annotation {
        classified(
            first_captures(self.locator(), span),
            first_captures(self.code_point(), span),
        )
    }
}

fn read_field(text: &str, fallback: u32) -> (v: u32)
    ensures
        v == field_value(text@, fallback),
{
    let chars = chars_of(text);
    match parse_decimal(chars.as_slice()) {
        Some(v) => v,
        None => fallback,
    }
}

/// Reads a locator from the capture groups of the locator pattern.
pub fn classify_locator(groups: &Vec<Option<&str>>) -> (r: Option<Annotation>)
    ensures
        r == locator_annotation(group_texts(groups@)),
{
    if groups.len() != 4 {
        return None;
    }
    match (groups[1], groups[2], groups[3]) {
        (Some(level), Some(row), Some(cell)) => Some(
            Annotation::PlaneRowCell {
                level: read_field(level, 3),
                row: read_field(row, 0),
                cell: read_field(cell, 0),
            },
        ),
        _ => None,
    }
}

/// Reads a code point from the capture groups of the code-point pattern.
pub fn classify_code_point(groups: &Vec<Option<&str>>) -> (r: Option<Annotation>)
    ensures
        r == code_point_annotation(group_texts(groups@)),
{
    if groups.len() != 2 {
        return None;
    }
    match groups[1] {
        Some(digits) => {
            let chars = chars_of(digits);
            match parse_hex(chars.as_slice()) {
                Some(value) => Some(Annotation::DirectCodePoint { value }),
                None => None,
            }
        },
        None => None,
    }
}

/// Classifies the annotation `span`.
pub fn classify(patterns: &AnnotationPatterns, span: &str) -> (annotation: Annotation)
    ensures
        annotation == patterns.classification(span@),
{
    let by_locator = match patterns.locator_groups(span) {
        Some(groups) => classify_locator(&groups),
        None => None,
    };
    match by_locator {
        Some(annotation) => annotation,
        None => {
            let by_code_point = match patterns.code_point_groups(span) {
                Some(groups) => classify_code_point(&groups),
                None => None,
            };
            match by_code_point {
                Some(annotation) => annotation,
                None => Annotation::Unrecognized,
            }
        },
    }
}

/// Composes the table key of a locator.
pub fn compose_key(level: u32, row: u32, cell: u32) -> (key: Vec<char>)
    ensures
        key@ == locator_key(level, row, cell),
{
    let mut key: Vec<char> = Vec::new();
    push_decimal(&mut key, level as u64);
    key.push('-');
    push_upper_hex(&mut key, row as u64 + 32);
    push_upper_hex(&mut key, cell as u64 + 32);
    proof {
        assert(key@ =~= locator_key(level, row, cell));
    }
    key
}

/// Resolves a classified annotation: the character it names, or `span`
/// unchanged.
pub fn resolve(table: &GaijiTable, annotation: Annotation, span: &str) -> (text: String)
    ensures
        text@ == resolved(table@, annotation, span@),
{
    let found = match annotation {
        Annotation::PlaneRowCell { level, row, cell } => {
            let key = compose_key(level, row, cell);
            table.get(key.as_slice())
        },
        Annotation::DirectCodePoint { value } => char::from_u32(value),
        Annotation::Unrecognized => None,
    };
    match found {
        Some(c) => {
            let mut text = String::new();
            text.push(c);
            proof {
                assert(text@ =~= seq![c]);
            }
            text
        },
        None => span.to_owned(),
    }
}

/// Resolves the annotation `s` against `table`.
pub fn get_gaiji(patterns: &AnnotationPatterns, table: &GaijiTable, s: &str) -> (text: String)
    ensures
        text@ == resolved(table@, patterns.classification(s@), s@),
{
    resolve(table, classify(patterns, s), s)
}

} // verus!
