use terraform_rules::position::{position_in, Position};
use terraform_rules::text::{bytes_equal, find, line_spans, slice_text, text_equals};
use terraform_rules::utils::TerraformUtils;

fn at(line: usize, character: usize) -> Position {
    Position { line, character }
}

#[test]
fn origin_is_line_zero_column_zero() {
    assert_eq!(Position::origin(), at(0, 0));
    assert_eq!(TerraformUtils::offset_to_position(0, "abc"), at(0, 0));
    assert_eq!(TerraformUtils::offset_to_position(0, ""), at(0, 0));
}

#[test]
fn columns_count_within_a_line() {
    let text = "ab\ncd";
    assert_eq!(TerraformUtils::offset_to_position(1, text), at(0, 1));
    assert_eq!(TerraformUtils::offset_to_position(2, text), at(0, 2));
    assert_eq!(TerraformUtils::offset_to_position(3, text), at(1, 0));
    assert_eq!(TerraformUtils::offset_to_position(4, text), at(1, 1));
    assert_eq!(TerraformUtils::offset_to_position(5, text), at(1, 2));
}

#[test]
fn offsets_past_the_end_convert_to_the_end() {
    let text = "ab\ncd";
    assert_eq!(TerraformUtils::offset_to_position(6, text), at(1, 2));
    assert_eq!(TerraformUtils::offset_to_position(1000, text), at(1, 2));
    assert_eq!(TerraformUtils::offset_to_position(usize::MAX, text), at(1, 2));
    assert_eq!(TerraformUtils::offset_to_position(7, "x\n"), at(1, 0));
}

#[test]
fn columns_count_scalars_not_bytes() {
    // "é" takes two bytes, "日" three, "😀" four.
    let text = "é日😀x\ny";
    assert_eq!(text.len(), 12);
    assert_eq!(TerraformUtils::offset_to_position(2, text), at(0, 1));
    assert_eq!(TerraformUtils::offset_to_position(5, text), at(0, 2));
    assert_eq!(TerraformUtils::offset_to_position(9, text), at(0, 3));
    assert_eq!(TerraformUtils::offset_to_position(10, text), at(0, 4));
    assert_eq!(TerraformUtils::offset_to_position(11, text), at(1, 0));
    assert_eq!(TerraformUtils::offset_to_position(12, text), at(1, 1));
}

#[test]
fn an_offset_inside_a_scalar_counts_that_scalar() {
    let text = "é日";
    assert_eq!(TerraformUtils::offset_to_position(1, text), at(0, 1));
    assert_eq!(TerraformUtils::offset_to_position(3, text), at(0, 2));
    assert_eq!(TerraformUtils::offset_to_position(4, text), at(0, 2));
}

#[test]
fn a_carriage_return_is_a_column() {
    let text = "a\r\nb";
    assert_eq!(TerraformUtils::offset_to_position(2, text), at(0, 2));
    assert_eq!(TerraformUtils::offset_to_position(3, text), at(1, 0));
}

#[test]
fn conversion_is_monotonic() {
    let text = "ab\ncé\n\nz日本\r\n last";
    let mut previous = TerraformUtils::offset_to_position(0, text);
    for offset in 1..text.len() + 3 {
        let next = TerraformUtils::offset_to_position(offset, text);
        assert!(
            previous.line < next.line
                || (previous.line == next.line && previous.character <= next.character)
        );
        previous = next;
    }
}

#[test]
fn position_in_agrees_with_offset_to_position() {
    let text = "one\ntwo\nthree";
    for offset in 0..text.len() + 2 {
        assert_eq!(
            position_in(text.as_bytes(), offset),
            TerraformUtils::offset_to_position(offset, text)
        );
    }
}

#[test]
fn find_gives_the_first_occurrence() {
    assert_eq!(find(b"abcabc", b"bc"), Some(1));
    assert_eq!(find(b"abcabc", b"abc"), Some(0));
    assert_eq!(find(b"abcabc", b"cab"), Some(2));
    assert_eq!(find(b"aaab", b"aab"), Some(1));
    assert_eq!(find(b"abc", b"c"), Some(2));
}

#[test]
fn find_misses_what_does_not_occur() {
    assert_eq!(find(b"abcabc", b"cb"), None);
    assert_eq!(find(b"abc", b"abcd"), None);
    assert_eq!(find(b"", b"a"), None);
}

#[test]
fn find_of_the_empty_needle_is_zero() {
    assert_eq!(find(b"abc", b""), Some(0));
    assert_eq!(find(b"", b""), Some(0));
}

#[test]
fn find_agrees_with_str_find() {
    let hay = "variable \"x\" {}\nvariable \"xy\" {}\n";
    for needle in ["variable", "\"x\"", "\"xy\"", "{}", "\n", "z", "variable \"xy\""] {
        assert_eq!(find(hay.as_bytes(), needle.as_bytes()), hay.find(needle));
    }
}

#[test]
fn equality_of_bytes_and_texts() {
    assert!(bytes_equal(b"abc", b"abc"));
    assert!(!bytes_equal(b"abc", b"abd"));
    assert!(!bytes_equal(b"abc", b"ab"));
    assert!(bytes_equal(b"", b""));
    assert!(text_equals("resource", "resource"));
    assert!(!text_equals("resource", "resourcE"));
    assert!(!text_equals("data", "data "));
    assert!(text_equals("日本", "日本"));
}

#[test]
fn slices_are_taken_by_byte_offsets() {
    assert_eq!(slice_text("hello world", 6, 11), "world");
    assert_eq!(slice_text("hello", 0, 0), "");
    assert_eq!(slice_text("hello", 5, 5), "");
    assert_eq!(slice_text("aé日b", 1, 6), "é日");
}

#[test]
fn lines_end_at_line_feeds() {
    assert_eq!(line_spans("a\nbc\nd"), vec![(0, 1), (2, 4), (5, 6)]);
    assert_eq!(line_spans("a\n\nb"), vec![(0, 1), (2, 2), (3, 4)]);
}

#[test]
fn a_final_line_feed_starts_no_line() {
    assert_eq!(line_spans("a\n"), vec![(0, 1)]);
    assert_eq!(line_spans("\n"), vec![(0, 0)]);
    assert_eq!(line_spans("a\n\n"), vec![(0, 1), (2, 2)]);
}

#[test]
fn the_empty_text_has_no_lines() {
    assert_eq!(line_spans(""), Vec::<(usize, usize)>::new());
}

#[test]
fn a_carriage_return_before_a_line_feed_ends_the_line() {
    assert_eq!(line_spans("a\r\nb\r\n"), vec![(0, 1), (3, 4)]);
    assert_eq!(line_spans("\r\n"), vec![(0, 0)]);
    assert_eq!(line_spans("a\rb\n"), vec![(0, 3)]);
}

#[test]
fn a_carriage_return_at_the_end_of_the_text_stays() {
    assert_eq!(line_spans("a\r"), vec![(0, 2)]);
    assert_eq!(line_spans("a\nb\r"), vec![(0, 1), (2, 4)]);
}

#[test]
fn lines_agree_with_str_lines() {
    for text in ["", "a", "a\n", "a\nb", "a\r\nb\r\n", "\n\n", "x\r", "日本\né\r\n\r\nlast"] {
        let spans = line_spans(text);
        let lines: Vec<&str> = text.lines().collect();
        assert_eq!(spans.len(), lines.len());
        for (span, line) in spans.iter().zip(lines.iter()) {
            assert_eq!(&text[span.0..span.1], *line);
        }
    }
}
