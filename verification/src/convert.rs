//! The conversion itself: decode the bytes, then replace the annotations.
use vstd::prelude::*;
use vstd::string::StringExecFns;
use crate::annotation::get_gaiji;
use crate::annotation::resolved;
use crate::pattern::first_match;
use crate::pattern::AnnotationPatterns;
use crate::table::GaijiTable;

verus! {

/// The text that `encoding_rs` decodes from `bytes` as Shift_JIS.
pub uninterp spec fn shift_jis_text(bytes: Seq<u8>) -> Seq<char>;

/// The longest input that [`convert_content`] takes. The decoder sets aside
/// up to three bytes of output for each byte of input and rounds that up to
/// a power of two, which has to fit in the address space.
pub open spec fn max_content_len() -> nat {
    (usize::MAX / 8) as nat
}

/// Decodes `content` with `encoding_rs::SHIFT_JIS.decode`. The decoder
/// replaces each malformed sequence with U+FFFD, and reads the input as
/// UTF-8 or UTF-16 where it begins with the byte order mark of one of them.
#[verifier::external_body]
fn decode_shift_jis(content: &[u8]) -> (text: String)
    requires
        content@.len() <= max_content_len(),
    ensures
        text@ == shift_jis_text(content@),
{
    encoding_rs::SHIFT_JIS.decode(content).0.into_owned()
}

/// A stretch of a text: plain text, or one annotation.
pub enum Part {
    /// Text between annotations.
    Plain(Seq<char>),
    /// An annotation, from its mark to its closing bracket.
    Annotation(Seq<char>),
}

/// The texts of `parts`, joined in order.
pub open spec fn joined(parts: Seq<Seq<char>>) -> Seq<char>
    decreases parts.len(),
{
    if parts.len() == 0 {
        Seq::empty()
    } else {
        parts[0] + joined(parts.skip(1))
    }
}

impl AnnotationPatterns {
    /// `text` cut into plain stretches and annotations, in the order in
    /// which they stand.
    pub open spec fn parts(&self, text: Seq<char>) -> Seq<Part>
        decreases text.len(),
    {
        match first_match(self.marker(), text) {
            Some((before, span, after)) => if span.len() > 0 && text == before + span + after {
                seq![Part::Plain(before), Part::Annotation(span)] + self.parts(after)
            } else {
                seq![Part::Plain(text)]
            },
            None => seq![Part::Plain(text)],
        }
    }

    /// What a part of the input was.
    pub open spec fn source(part: Part) -> Seq<char> {
        match part {
            Part::Plain(text) => text,
            Part::Annotation(span) => span,
        }
    }

    /// What a part of the input becomes in the output: plain text stays, an
    /// annotation is resolved.
    pub open spec fn rendered(&self, table: Map<Seq<char>, char>, part: Part) -> Seq<char> {
        match part {
            Part::Plain(text) => text,
            Part::Annotation(span) => resolved(table, self.classification(span), span),
        }
    }

    /// `text` with each annotation replaced by what it resolves to. The
    /// annotations are found from left to right, each search starting where
    /// the annotation before it ended. Text outside them stays as it is. A
    /// match of no characters ends the search.
    pub open spec fn substituted(&self, table: Map<Seq<char>, char>, text: Seq<char>) -> Seq<char>
        decreases text.len(),
    {
        match first_match(self.marker(), text) {
            Some((before, span, after)) => if span.len() > 0 && text == before + span + after {
                before + resolved(table, self.classification(span), span) + self.substituted(
                    table,
                    after,
                )
            } else {
                text
            },
            None => text,
        }
    }
}

/// Replaces each annotation in `text` by the character it names, where
/// `table` or the annotation itself tells which one.
pub fn substitute(patterns: &AnnotationPatterns, table: &GaijiTable, text: &str) -> (out: String)
    ensures
        out@ == patterns.substituted(table@, text@),
        first_match(patterns.marker(), text@) is None ==> out@ == text@,
{
    let mut out = String::new();
    let mut rest: &str = text;
    loop
        invariant
            out@ + patterns.substituted(table@, rest@) == patterns.substituted(table@, text@),
        decreases rest@.len(),
    {
        match patterns.find_annotation(rest) {
            Some((before, span, after)) => {
                if span.is_empty() {
                    out.append(rest);
                    return out;
                }
                let replacement = get_gaiji(patterns, table, span);
                proof {
                    assert(out@ + before@ + replacement@ + patterns.substituted(table@, after@)
                        =~= out@ + (before@ + replacement@ + patterns.substituted(
                        table@,
                        after@,
                    )));
                }
                out.append(before);
                out.append(replacement.as_str());
                rest = after;
            },
            None => {
                out.append(rest);
                return out;
            },
        }
    }
}

/// Converts a Shift_JIS document to Unicode text and resolves its gaiji
/// annotations.
pub fn convert_content(patterns: &AnnotationPatterns, table: &GaijiTable, content: &[u8]) -> (text:
    String)
    requires
        content@.len() <= max_content_len(),
    ensures
        text@ == patterns.substituted(table@, shift_jis_text(content@)),
        first_match(patterns.marker(), shift_jis_text(content@)) is None ==> text@
            == shift_jis_text(content@),
{
    let decoded = decode_shift_jis(content);
    substitute(patterns, table, decoded.as_str())
}

} // verus!
