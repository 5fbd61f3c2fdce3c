use litenote::block::Block;
use litenote::srt::parse_srt;

fn entry(index: u32, time: &str, text: &str) -> Block {
    Block::SrtEntry { index, time: time.to_string(), text: text.to_string() }
}

#[test]
fn srt_two_entries() {
    let src = "1\n00:00:01,000 --> 00:00:02,000\nHello\n\n2\n00:00:03,000 --> 00:00:04,000\nWorld\nagain\n";
    assert_eq!(
        parse_srt(src),
        vec![
            entry(1, "00:00:01,000 --> 00:00:02,000", "Hello"),
            entry(2, "00:00:03,000 --> 00:00:04,000", "World\nagain"),
        ]
    );
}

#[test]
fn srt_index_forms() {
    let src = "  7 \n T1 \nA\n\nabc\nT2\nB\n\n+5\nT3\nC\n\n-1\nT4\nD\n\n4294967296\nT5\nE\n\n0042\nT6\nF";
    assert_eq!(
        parse_srt(src),
        vec![
            entry(7, "T1", "A"),
            entry(0, "T2", "B"),
            entry(5, "T3", "C"),
            entry(0, "T4", "D"),
            entry(0, "T5", "E"),
            entry(42, "T6", "F"),
        ]
    );
}

#[test]
fn srt_skips_short_chunks() {
    let src = "1\n00:01\n\n2\n00:02\nText";
    assert_eq!(parse_srt(src), vec![entry(2, "00:02", "Text")]);
}

#[test]
fn srt_surrounding_blank_lines() {
    let src = "\n\n\n1\nT\nX\n\n\n\n2\nT2\nY\n\n\n";
    assert_eq!(parse_srt(src), vec![entry(1, "T", "X"), entry(2, "T2", "Y")]);
}

#[test]
fn srt_three_newlines_keep_a_leading_empty_line() {
    let src = "1\nT\nA\n\n\n2\nT\nB";
    assert_eq!(parse_srt(src), vec![entry(1, "T", "A"), entry(0, "2", "T\nB")]);
}

#[test]
fn srt_crlf_file_is_one_chunk() {
    let src = "1\r\n00:01\r\nHello\r\n\r\n2\r\n00:02\r\nWorld\r\n";
    assert_eq!(parse_srt(src), vec![entry(1, "00:01", "Hello\n\n2\n00:02\nWorld")]);
}

#[test]
fn srt_carriage_return_ends_are_stripped_from_lines() {
    let src = "3\r\n01 --> 02\r\nline one\r\nline two";
    assert_eq!(parse_srt(src), vec![entry(3, "01 --> 02", "line one\nline two")]);
}

#[test]
fn srt_empty_and_blank_input() {
    assert_eq!(parse_srt(""), vec![]);
    assert_eq!(parse_srt(" \n\t \n"), vec![]);
}

#[test]
fn srt_unicode_whitespace_is_trimmed() {
    let src = "\u{3000}9\u{a0}\n\u{2003}time\u{2003}\ntext";
    assert_eq!(parse_srt(src), vec![entry(9, "time", "text")]);
}
