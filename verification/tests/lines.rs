use code_tags::lines::line_range;

#[test]
fn line_range_in_the_middle() {
    let source = b"abc\ndefg\nklmno";
    assert_eq!(line_range(source, 5), 4..8);
}

#[test]
fn line_range_of_first_line() {
    let source = b"abc\ndefg\nklmno";
    assert_eq!(line_range(source, 0), 0..3);
    assert_eq!(line_range(source, 2), 0..3);
}

#[test]
fn line_range_of_last_line_without_newline() {
    let source = b"abc\ndefg\nklmno";
    assert_eq!(line_range(source, 9), 9..14);
    assert_eq!(line_range(source, 14), 9..14);
}

#[test]
fn line_range_at_a_newline_is_the_line_it_ends() {
    let source = b"abc\ndefg\nklmno";
    assert_eq!(line_range(source, 3), 0..3);
    assert_eq!(line_range(source, 8), 4..8);
}

#[test]
fn line_range_keeps_leading_and_trailing_blanks() {
    let source = b"x\n   foo \t\ny";
    assert_eq!(line_range(source, 5), 2..10);
}

#[test]
fn line_range_of_empty_line() {
    let source = b"a\n\nb";
    assert_eq!(line_range(source, 2), 2..2);
}

#[test]
fn line_range_of_empty_source() {
    assert_eq!(line_range(b"", 0), 0..0);
}

#[test]
fn line_range_after_final_newline() {
    let source = b"abc\n";
    assert_eq!(line_range(source, 4), 4..4);
}

#[test]
fn line_range_without_any_newline() {
    let source = b"one line only";
    assert_eq!(line_range(source, 4), 0..13);
}

#[test]
fn line_range_is_same_for_every_position_of_the_line() {
    let source = b"ab\ncdef\ngh";
    for pos in 3..=7 {
        assert_eq!(line_range(source, pos), 3..7);
    }
}
