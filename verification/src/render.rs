//! A report of the tags of a document: one line of text for each tag.

use crate::tag::{range_within, Tag};
use std::ops::Range;
use vstd::prelude::*;
use vstd::slice::slice_subrange;
use vstd::string::{StringExecFns, StringSliceAdditionalSpecFns};
use vstd::utf8::{decode_utf8, encode_utf8_decode_utf8, valid_utf8};

verus! {

/// The character that shows the digit `digit`.
pub open spec fn digit_char(digit: nat) -> char
    recommends
        digit < 10,
{
    "0123456789"@[digit as int]
}

/// The number `n` in decimal digits, without leading zeros.
pub open spec fn decimal_text(n: nat) -> Seq<char>
    decreases n,
{
    if n < 10 {
        seq![digit_char(n)]
    } else {
        decimal_text(n / 10).push(digit_char(n % 10))
    }
}

/// The text that the bytes `range` of `source` encode, or no text where they
/// are not valid UTF-8.
pub open spec fn text_at(source: Seq<u8>, range: Range<usize>) -> Seq<char> {
    let bytes = source.subrange(range.start as int, range.end as int);
    if valid_utf8(bytes) {
        decode_utf8(bytes)
    } else {
        Seq::empty()
    }
}

/// The documentation as a report shows it: nothing where there is none.
pub open spec fn docs_text(docs: Option<String>) -> Seq<char> {
    match docs {
        Some(text) => text@,
        None => Seq::empty(),
    }
}

/// The line that a report shows for `tag`: the kind, the name, the first and
/// the last byte position of the span with ` - ` between them, and the
/// documentation after the word `docs:`, the four parted by tabs.
pub open spec fn line_text(tag: Tag, source: Seq<u8>) -> Seq<char> {
    tag.kind.label_text() + "\t"@ + text_at(source, tag.name_range) + "\t"@ + decimal_text(
        tag.span.start as nat,
    ) + " - "@ + decimal_text(tag.span.end as nat) + "\tdocs:"@ + docs_text(tag.docs)
}

/// The report for `tags`: the line of each, in their order, each ended by a
/// newline.
pub open spec fn report_text(tags: Seq<Tag>, source: Seq<u8>) -> Seq<char>
    decreases tags.len(),
{
    if tags.len() == 0 {
        Seq::empty()
    } else {
        report_text(tags.drop_last(), source) + line_text(tags.last(), source) + "\n"@
    }
}

/// `std::str::from_utf8`: the text that `bytes` encode. It is there exactly
/// when the bytes are valid UTF-8, and it then holds these bytes.
#[verifier::external_body]
fn text_of(bytes: &[u8]) -> (text: Option<&str>)
    ensures
        text is Some <==> valid_utf8(bytes@),
        text matches Some(t) ==> t.spec_bytes() == bytes@,
{
    match std::str::from_utf8(bytes) {
        Ok(text) => Some(text),
        Err(_) => None,
    }
}

/// The text that the bytes `range` of `source` encode, or the empty text
/// where they are not valid UTF-8.
pub fn text_in<'a>(source: &'a [u8], range: &Range<usize>) -> (text: &'a str)
    requires
        range_within(*range, source@.len() as int),
    ensures
        text@ == text_at(source@, *range),
{
    match text_of(slice_subrange(source, range.start, range.end)) {
        Some(text) => {
            proof {
                encode_utf8_decode_utf8(text@);
            }
            text
        },
        None => {
            proof {
                reveal_strlit("");
            }
            assert(""@ =~= Seq::<char>::empty());
            ""
        },
    }
}

/// The digit `digit` as a text of one character.
fn digit_text(digit: usize) -> (text: &'static str)
    requires
        digit < 10,
    ensures
        text@ == seq![digit_char(digit as nat)],
{
    proof {
        reveal_strlit("0123456789");
        reveal_strlit("0");
        reveal_strlit("1");
        reveal_strlit("2");
        reveal_strlit("3");
        reveal_strlit("4");
        reveal_strlit("5");
        reveal_strlit("6");
        reveal_strlit("7");
        reveal_strlit("8");
        reveal_strlit("9");
    }
    let text = if digit == 0 {
        "0"
    } else if digit == 1 {
        "1"
    } else if digit == 2 {
        "2"
    } else if digit == 3 {
        "3"
    } else if digit == 4 {
        "4"
    } else if digit == 5 {
        "5"
    } else if digit == 6 {
        "6"
    } else if digit == 7 {
        "7"
    } else if digit == 8 {
        "8"
    } else {
        "9"
    };
    assert(text@ =~= seq![digit_char(digit as nat)]);
    text
}

/// Writes `n` in decimal digits at the end of `out`.
pub fn push_decimal(out: &mut String, n: usize)
    ensures
        final(out)@ == old(out)@ + decimal_text(n as nat),
    decreases n,
{
    if n >= 10 {
        push_decimal(out, n / 10);
    }
    out.append(digit_text(n % 10));
    assert(out@ =~= old(out)@ + decimal_text(n as nat));
}

/// The number `n` in decimal digits.
pub fn decimal(n: usize) -> (text: String)
    ensures
        text@ == decimal_text(n as nat),
{
    let mut text = String::new();
    push_decimal(&mut text, n);
    assert(text@ =~= decimal_text(n as nat));
    text
}

/// Writes the line for `tag` at the end of `out`.
pub fn push_line(out: &mut String, tag: &Tag, source: &[u8])
    requires
        range_within(tag.name_range, source@.len() as int),
    ensures
        final(out)@ == old(out)@ + line_text(*tag, source@),
{
    out.append(tag.kind.label());
    out.append("\t");
    out.append(text_in(source, &tag.name_range));
    out.append("\t");
    push_decimal(out, tag.span.start);
    out.append(" - ");
    push_decimal(out, tag.span.end);
    out.append("\tdocs:");
    match &tag.docs {
        Some(docs) => {
            out.append(docs.as_str());
        },
        None => {},
    }
    assert(out@ =~= old(out)@ + line_text(*tag, source@));
}

/// The line that a report shows for `tag`, without a newline.
pub fn render_tag(tag: &Tag, source: &[u8]) -> (line: String)
    requires
        range_within(tag.name_range, source@.len() as int),
    ensures
        line@ == line_text(*tag, source@),
{
    let mut line = String::new();
    push_line(&mut line, tag, source);
    assert(line@ =~= line_text(*tag, source@));
    line
}

/// The report for `tags`: one line for each tag, in their order.
pub fn render_tags(tags: &[Tag], source: &[u8]) -> (report: String)
    requires
        forall|k: int|
            0 <= k < tags@.len() ==> range_within(
                (#[trigger] tags@[k]).name_range,
                source@.len() as int,
            ),
    ensures
        report@ == report_text(tags@, source@),
{
    let mut report = String::new();
    let mut i: usize = 0;
    assert(tags@.take(0) =~= Seq::empty());
    while i < tags.len()
        invariant
            i <= tags@.len(),
            report@ == report_text(tags@.take(i as int), source@),
            forall|k: int|
                0 <= k < tags@.len() ==> range_within(
                    (#[trigger] tags@[k]).name_range,
                    source@.len() as int,
                ),
        decreases tags@.len() - i,
    {
        assert(tags@.take(i + 1).drop_last() =~= tags@.take(i as int));
        assert(tags@.take(i + 1).last() == tags@[i as int]);
        push_line(&mut report, &tags[i], source);
        report.append("\n");
        i = i + 1;
    }
    assert(tags@.take(i as int) =~= tags@);
    report
}

} // verus!
