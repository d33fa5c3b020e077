//! Reading the gaiji table from its reference text.
//!
//! The text holds one entry per line: a locator, white space, and a code
//! point written as `U+` and hexadecimal digits. Whatever follows on the
//! line is ignored. Lines that begin with `#` are comments.
use vstd::prelude::*;
use vstd::slice::slice_subrange;
use vstd::slice::slice_to_vec;
use crate::numeral::parse_hex;
use crate::numeral::parsed_unsigned;
use crate::table::GaijiTable;
use crate::text::chars_of;
use crate::text::scalar_char;

verus! {

/// Whether `c` is white space: a character with the Unicode property
/// `White_Space`.
pub open spec fn is_space(c: char) -> bool {
    ||| ('\u{9}' <= c && c <= '\u{d}')
    ||| c == ' '
    ||| c == '\u{85}'
    ||| c == '\u{a0}'
    ||| c == '\u{1680}'
    ||| ('\u{2000}' <= c && c <= '\u{200a}')
    ||| c == '\u{2028}'
    ||| c == '\u{2029}'
    ||| c == '\u{202f}'
    ||| c == '\u{205f}'
    ||| c == '\u{3000}'
}

/// How many white-space characters `s` begins with.
pub open spec fn leading_spaces(s: Seq<char>) -> nat
    decreases s.len(),
{
    if s.len() > 0 && is_space(s[0]) {
        1 + leading_spaces(s.skip(1))
    } else {
        0
    }
}

/// The length of the token that `s` begins with: its characters up to the
/// first white space.
pub open spec fn leading_token(s: Seq<char>) -> nat
    decreases s.len(),
{
    if s.len() > 0 && !is_space(s[0]) {
        1 + leading_token(s.skip(1))
    } else {
        0
    }
}

/// The length of the first line of `s`: its characters up to the first line
/// feed.
pub open spec fn first_line_len(s: Seq<char>) -> nat
    decreases s.len(),
{
    if s.len() > 0 && s[0] != '\n' {
        1 + first_line_len(s.skip(1))
    } else {
        0
    }
}

/// The first two tokens of `line`, where it has two.
pub open spec fn line_fields(line: Seq<char>) -> Option<(Seq<char>, Seq<char>)> {
    let from_key = line.skip(leading_spaces(line) as int);
    let key = from_key.take(leading_token(from_key) as int);
    let after_key = from_key.skip(leading_token(from_key) as int);
    let from_code = after_key.skip(leading_spaces(after_key) as int);
    let code = from_code.take(leading_token(from_code) as int);
    if key.len() > 0 && code.len() > 0 {
        Some((key, code))
    } else {
        None
    }
}

/// The character that `code` names: `U+` followed by the hexadecimal code
/// point of a Unicode scalar value.
pub open spec fn code_point_char(code: Seq<char>) -> Option<char> {
    if code.len() >= 2 && code[0] == 'U' && code[1] == '+' {
        match parsed_unsigned(code.skip(2), 16) {
            Some(v) => scalar_char(v),
            None => None,
        }
    } else {
        None
    }
}

/// The entry that `line` adds to the table. A comment, a line with fewer
/// than two tokens, and a line whose second token names no character add
/// none.
pub open spec fn line_entry(line: Seq<char>) -> Option<(Seq<char>, char)> {
    if line.len() > 0 && line[0] == '#' {
        None
    } else {
        match line_fields(line) {
            Some((key, code)) => match code_point_char(code) {
                Some(c) => Some((key, c)),
                None => None,
            },
            None => None,
        }
    }
}

/// `table` after the entries of `text` have been added line by line. A
/// later entry replaces an earlier one with the same key.
pub open spec fn table_with_lines(table: Map<Seq<char>, char>, text: Seq<char>) -> Map<
    Seq<char>,
    char,
>
    decreases text.len(),
{
    if text.len() == 0 {
        table
    } else {
        let n = first_line_len(text);
        let updated = match line_entry(text.take(n as int)) {
            Some((key, c)) => table.insert(key, c),
            None => table,
        };
        if n < text.len() {
            table_with_lines(updated, text.skip((n + 1) as int))
        } else {
            updated
        }
    }
}

/// The table that the reference text `text` describes.
pub open spec fn reference_table(text: Seq<char>) -> Map<Seq<char>, char> {
    table_with_lines(Map::empty(), text)
}

/// Whether `c` is white space.
pub fn is_white_space(c: char) -> (b: bool)
    ensures
        b == is_space(c),
{
    (c >= '\u{9}' && c <= '\u{d}') || c == ' ' || c == '\u{85}' || c == '\u{a0}' || c
        == '\u{1680}' || (c >= '\u{2000}' && c <= '\u{200a}') || c == '\u{2028}' || c
        == '\u{2029}' || c == '\u{202f}' || c == '\u{205f}' || c == '\u{3000}'
}

fn count_leading_spaces(s: &[char]) -> (n: usize)
    ensures
        n == leading_spaces(s@),
        n <= s@.len(),
{
    let mut i: usize = 0;
    proof {
        assert(s@.skip(0) =~= s@);
    }
    while i < s.len() && is_white_space(s[i])
        invariant
            i <= s@.len(),
            leading_spaces(s@) == i + leading_spaces(s@.skip(i as int)),
        decreases s@.len() - i,
    {
        proof {
            assert(s@.skip(i as int).skip(1) =~= s@.skip(i + 1));
        }
        i += 1;
    }
    i
}

fn count_leading_token(s: &[char]) -> (n: usize)
    ensures
        n == leading_token(s@),
        n <= s@.len(),
{
    let mut i: usize = 0;
    proof {
        assert(s@.skip(0) =~= s@);
    }
    while i < s.len() && !is_white_space(s[i])
        invariant
            i <= s@.len(),
            leading_token(s@) == i + leading_token(s@.skip(i as int)),
        decreases s@.len() - i,
    {
        proof {
            assert(s@.skip(i as int).skip(1) =~= s@.skip(i + 1));
        }
        i += 1;
    }
    i
}

fn count_first_line(s: &[char]) -> (n: usize)
    ensures
        n == first_line_len(s@),
        n <= s@.len(),
{
    let mut i: usize = 0;
    proof {
        assert(s@.skip(0) =~= s@);
    }
    while i < s.len() && s[i] != '\n'
        invariant
            i <= s@.len(),
            first_line_len(s@) == i + first_line_len(s@.skip(i as int)),
        decreases s@.len() - i,
    {
        proof {
            assert(s@.skip(i as int).skip(1) =~= s@.skip(i + 1));
        }
        i += 1;
    }
    i
}

/// Reads a code point written as `U+` and hexadecimal digits.
pub fn parse_code_point(code: &[char]) -> (c: Option<char>)
    ensures
        c == code_point_char(code@),
{
    if code.len() >= 2 && code[0] == 'U' && code[1] == '+' {
        match parse_hex(slice_subrange(code, 2, code.len())) {
            Some(v) => char::from_u32(v),
            None => None,
        }
    } else {
        None
    }
}

/// Reads one line of the reference text.
pub fn parse_line(line: &[char]) -> (entry: Option<(Vec<char>, char)>)
    ensures
        match entry {
            Some((key, c)) => line_entry(line@) == Some((key@, c)),
            None => line_entry(line@) is None,
        },
{
    if line.len() > 0 && line[0] == '#' {
        return None;
    }
    let from_key = slice_subrange(line, count_leading_spaces(line), line.len());
    let key_len = count_leading_token(from_key);
    let key = slice_subrange(from_key, 0, key_len);
    let after_key = slice_subrange(from_key, key_len, from_key.len());
    let from_code = slice_subrange(after_key, count_leading_spaces(after_key), after_key.len());
    let code = slice_subrange(from_code, 0, count_leading_token(from_code));
    if key.len() == 0 || code.len() == 0 {
        return None;
    }
    match parse_code_point(code) {
        Some(c) => Some((slice_to_vec(key), c)),
        None => None,
    }
}

impl GaijiTable {
    /// Builds the table from the characters of its reference text.
    pub fn from_reference_chars(text: &[char]) -> (table: Self)
        ensures
            table@ == reference_table(text@),
    {
        let mut table = GaijiTable::new();
        let mut rest: &[char] = text;
        while rest.len() > 0
            invariant
                table_with_lines(table@, rest@) == reference_table(text@),
            decreases rest@.len(),
        {
            let n = count_first_line(rest);
            match parse_line(slice_subrange(rest, 0, n)) {
                Some((key, c)) => {
                    table.insert(key, c);
                },
                None => {},
            }
            if n < rest.len() {
                rest = slice_subrange(rest, n + 1, rest.len());
            } else {
                return table;
            }
        }
        table
    }

    /// Builds the table from its reference text.
    pub fn from_reference(text: &str) -> (table: Self)
        ensures
            table@ == reference_table(text@),
    {
        let chars = chars_of(text);
        GaijiTable::from_reference_chars(chars.as_slice())
    }
}

} // verus!
