//! The patterns of a tag query, as far as its text shows them: which pattern
//! a byte of the text belongs to, and which pattern begins on a line.

use crate::lines::{lemma_line_bounds, line_end, line_range};
use vstd::prelude::*;

verus! {

/// Where a reader of query text stands.
#[derive(Clone, Copy, Debug, PartialEq, Eq, Structural)]
pub enum Lexing {
    /// Among the patterns.
    Code,
    /// Inside a word where no group is open: the name of a field, a
    /// wildcard, or the name of a capture.
    Word,
    /// Inside a string.
    Text,
    /// Inside a string, behind a backslash.
    Escape,
    /// Inside a comment.
    Comment,
}

/// What a reader of query text knows after some bytes.
pub struct Scan {
    /// Where the reader stands.
    pub lexing: Lexing,
    /// How many groups are open.
    pub depth: nat,
    /// How many patterns have begun.
    pub patterns: nat,
    /// Whether the name of a field has been read, with its colon, and the
    /// node that it names is still to come.
    pub pending: bool,
}

/// Whether `byte` is a letter or a digit.
pub open spec fn is_alphanumeric(byte: u8) -> bool {
    (48 <= byte <= 57) || (65 <= byte <= 90) || (97 <= byte <= 122)
}

/// Whether a word can begin with `byte`: a letter, a digit, `_` or `-`.
pub open spec fn begins_word(byte: u8) -> bool {
    is_alphanumeric(byte) || byte == 95 || byte == 45
}

/// Whether a word can go on with `byte`: as it can begin, or with `.`.
pub open spec fn continues_word(byte: u8) -> bool {
    begins_word(byte) || byte == 46
}

/// Whether `byte` begins a node where no group is open: a group in round or
/// square brackets, a string that names an anonymous node, a wildcard, or
/// the name of a field with the node that it names.
pub open spec fn begins_node(byte: u8) -> bool {
    byte == 40 || byte == 91 || byte == 34 || begins_word(byte)
}

/// What a reader that stands among the patterns knows after one more byte.
/// An opening bracket opens a group and a closing bracket closes one; a
/// double quote opens a string and a semicolon a comment. Where no group is
/// open, a byte that begins a node begins a pattern, unless the node is the
/// one that the name of a field before it names; a colon ends the name of a
/// field; and a word begins with a letter, a digit, `_`, `-`, or with the
/// `@` of a capture.
pub open spec fn scan_code(scan: Scan, byte: u8) -> Scan {
    let begins = scan.depth == 0 && begins_node(byte);
    Scan {
        lexing: if byte == 34 {
            Lexing::Text
        } else if byte == 59 {
            Lexing::Comment
        } else if scan.depth == 0 && (begins_word(byte) || byte == 64) {
            Lexing::Word
        } else {
            Lexing::Code
        },
        depth: if byte == 40 || byte == 91 {
            scan.depth + 1
        } else if (byte == 41 || byte == 93) && scan.depth > 0 {
            (scan.depth - 1) as nat
        } else {
            scan.depth
        },
        patterns: if begins && !scan.pending {
            scan.patterns + 1
        } else {
            scan.patterns
        },
        pending: if begins {
            false
        } else if scan.depth == 0 && byte == 58 {
            true
        } else {
            scan.pending
        },
    }
}

/// What the reader knows after one more byte. A word goes on as long as its
/// bytes can continue a word. A string runs from one double quote to the
/// next, and ends with its line at the latest; a backslash in it takes the
/// byte that follows with it. A comment runs from a semicolon to the end of
/// its line.
pub open spec fn scan_byte(scan: Scan, byte: u8) -> Scan {
    match scan.lexing {
        Lexing::Code => scan_code(scan, byte),
        Lexing::Word => {
            if continues_word(byte) {
                scan
            } else {
                scan_code(scan, byte)
            }
        },
        Lexing::Text => {
            if byte == 92 {
                Scan { lexing: Lexing::Escape, ..scan }
            } else if byte == 34 || byte == 10 {
                Scan { lexing: Lexing::Code, ..scan }
            } else {
                scan
            }
        },
        Lexing::Escape => Scan { lexing: Lexing::Text, ..scan },
        Lexing::Comment => {
            if byte == 10 {
                Scan { lexing: Lexing::Code, ..scan }
            } else {
                scan
            }
        },
    }
}

/// What the reader knows after all of `text`.
pub open spec fn scan_of(text: Seq<u8>) -> Scan
    decreases text.len(),
{
    if text.len() == 0 {
        Scan { lexing: Lexing::Code, depth: 0, patterns: 0, pending: false }
    } else {
        scan_byte(scan_of(text.drop_last()), text.last())
    }
}

/// The number of the pattern that the byte at `offset` of `text` belongs to,
/// counted from zero: the last pattern that has begun up to and including
/// that byte. What stands between two patterns goes with the one before it,
/// what stands before the first with the first, and an offset beyond the text
/// with the last pattern.
pub open spec fn pattern_index(text: Seq<u8>, offset: int) -> nat {
    let read = if offset < text.len() {
        offset + 1
    } else {
        text.len() as int
    };
    let begun = scan_of(text.take(read)).patterns;
    if begun == 0 {
        0
    } else {
        (begun - 1) as nat
    }
}

/// Where the line with the number `row` of `text` ends, the lines being
/// counted from zero: at its newline, or at the end of the text, where every
/// line beyond the last ends too.
pub open spec fn row_end(text: Seq<u8>, row: nat) -> int
    decreases row,
{
    if row == 0 {
        line_end(text, 0)
    } else {
        let before = row_end(text, (row - 1) as nat);
        if before >= text.len() {
            text.len() as int
        } else {
            line_end(text, before + 1)
        }
    }
}

/// The number of the pattern that a fault in the text of a tag query belongs
/// to, the fault being reported at the byte `offset` in the line `row`. A
/// fault that is reported with the number of its line alone, at no byte of
/// the text, lies in a pattern that begins in that line: it belongs to the
/// last pattern that has begun when the line ends. Every other fault belongs
/// to the pattern of its byte.
pub open spec fn fault_pattern(text: Seq<u8>, row: nat, offset: int) -> nat {
    if offset == 0 && row != 0 {
        pattern_index(text, row_end(text, row))
    } else {
        pattern_index(text, offset)
    }
}

/// The pattern of a later byte is no earlier pattern.
pub proof fn lemma_pattern_index_ascends(text: Seq<u8>, first: int, second: int)
    requires
        0 <= first <= second,
    ensures
        pattern_index(text, first) <= pattern_index(text, second),
{
    let read_first = if first < text.len() {
        first + 1
    } else {
        text.len() as int
    };
    let read_second = if second < text.len() {
        second + 1
    } else {
        text.len() as int
    };
    lemma_patterns_ascend(text, read_first, read_second);
}

proof fn lemma_patterns_ascend(text: Seq<u8>, first: int, second: int)
    requires
        0 <= first <= second <= text.len(),
    ensures
        scan_of(text.take(first)).patterns <= scan_of(text.take(second)).patterns,
    decreases second - first,
{
    if first < second {
        lemma_patterns_ascend(text, first, second - 1);
        assert(text.take(second).drop_last() =~= text.take(second - 1));
    }
}

/// A line ends within the text, and once a line ends with the text, every
/// later line does.
pub proof fn lemma_row_end(text: Seq<u8>, row: nat, later: nat)
    requires
        row <= later,
    ensures
        0 <= row_end(text, row) <= text.len(),
        row_end(text, row) >= text.len() ==> row_end(text, later) == text.len(),
    decreases later,
{
    lemma_row_end_within(text, row);
    if row < later {
        lemma_row_end(text, row, (later - 1) as nat);
        lemma_row_end_within(text, (later - 1) as nat);
    }
}

proof fn lemma_row_end_within(text: Seq<u8>, row: nat)
    ensures
        0 <= row_end(text, row) <= text.len(),
    decreases row,
{
    if row == 0 {
        lemma_line_bounds(text, 0);
    } else {
        lemma_row_end_within(text, (row - 1) as nat);
        let before = row_end(text, (row - 1) as nat);
        if before < text.len() {
            lemma_line_bounds(text, before + 1);
        }
    }
}

/// Whether a word can begin with `byte`.
pub fn can_begin_word(byte: u8) -> (begins: bool)
    ensures
        begins == begins_word(byte),
{
    (48 <= byte && byte <= 57) || (65 <= byte && byte <= 90) || (97 <= byte && byte <= 122) || byte
        == 95 || byte == 45
}

/// The number of the pattern that the byte at `offset` of the query text
/// `text` belongs to, counted from zero.
pub fn pattern_at(text: &[u8], offset: usize) -> (index: usize)
    ensures
        index == pattern_index(text@, offset as int),
{
    let read: usize = if offset < text.len() {
        offset + 1
    } else {
        text.len()
    };
    let mut lexing = Lexing::Code;
    let mut depth: usize = 0;
    let mut patterns: usize = 0;
    let mut pending = false;
    let mut i: usize = 0;
    assert(text@.take(0) =~= Seq::empty());
    while i < read
        invariant
            i <= read <= text@.len(),
            depth <= i,
            patterns <= i,
            scan_of(text@.take(i as int)) == (Scan {
                lexing,
                depth: depth as nat,
                patterns: patterns as nat,
                pending,
            }),
        decreases read - i,
    {
        assert(text@.take(i + 1).drop_last() =~= text@.take(i as int));
        assert(text@.take(i + 1).last() == text@[i as int]);
        let byte = text[i];
        let in_code = match lexing {
            Lexing::Code => true,
            Lexing::Word => !(can_begin_word(byte) || byte == 46),
            _ => false,
        };
        if in_code {
            let word = can_begin_word(byte);
            let begins = depth == 0 && (byte == 40 || byte == 91 || byte == 34 || word);
            if begins && !pending {
                patterns = patterns + 1;
            }
            if begins {
                pending = false;
            } else if depth == 0 && byte == 58 {
                pending = true;
            }
            if byte == 34 {
                lexing = Lexing::Text;
            } else if byte == 59 {
                lexing = Lexing::Comment;
            } else if depth == 0 && (word || byte == 64) {
                lexing = Lexing::Word;
            } else {
                lexing = Lexing::Code;
            }
            if byte == 40 || byte == 91 {
                depth = depth + 1;
            } else if (byte == 41 || byte == 93) && depth > 0 {
                depth = depth - 1;
            }
        } else {
            match lexing {
                Lexing::Text => {
                    if byte == 92 {
                        lexing = Lexing::Escape;
                    } else if byte == 34 || byte == 10 {
                        lexing = Lexing::Code;
                    }
                },
                Lexing::Escape => {
                    lexing = Lexing::Text;
                },
                Lexing::Comment => {
                    if byte == 10 {
                        lexing = Lexing::Code;
                    }
                },
                _ => {},
            }
        }
        i = i + 1;
    }
    if patterns == 0 {
        0
    } else {
        patterns - 1
    }
}

/// Where the line with the number `row` of `text` ends.
pub fn row_end_at(text: &[u8], row: usize) -> (end: usize)
    ensures
        end == row_end(text@, row as nat),
{
    let mut end: usize = line_range(text, 0).end;
    let mut at: usize = 0;
    proof {
        lemma_row_end(text@, 0, row as nat);
    }
    while at < row && end < text.len()
        invariant
            at <= row,
            end == row_end(text@, at as nat),
            end <= text@.len(),
        decreases row - at,
    {
        end = line_range(text, end + 1).end;
        at = at + 1;
        proof {
            lemma_row_end(text@, at as nat, row as nat);
        }
    }
    proof {
        lemma_row_end(text@, at as nat, row as nat);
    }
    end
}

/// The number of the pattern that a fault in the query text `text` belongs
/// to, the fault being reported at the byte `offset` in the line `row`.
pub fn pattern_of_fault(text: &[u8], row: usize, offset: usize) -> (index: usize)
    ensures
        index == fault_pattern(text@, row as nat, offset as int),
{
    if offset == 0 && row != 0 {
        pattern_at(text, row_end_at(text, row))
    } else {
        pattern_at(text, offset)
    }
}

} // verus!
