use litenote::block::Block;
use litenote::kind::FileKind;
use litenote::note::{load_plan, paragraph_highlighted, Command, LiteNote, LoadPlan};
use litenote::markdown::{blocks_from_events, MdBlock, MdEvent};
use litenote::srt::parse_srt;
use litenote::text::{contains_chars, count_chars, join_chars, split_chars, trimmed};

fn lv(s: &str) -> Vec<char> {
    s.chars().collect()
}

#[test]
fn trim_twice_is_trim_once() {
    for s in ["  a  ", "\u{3000}b\t", "", "   ", "x"] {
        let once = trimmed(&lv(s));
        assert_eq!(trimmed(&once), once);
    }
}

#[test]
fn split_then_join_restores() {
    for s in ["a\n\nb", "\n\n\n", "", "no separator", "x\n\n"] {
        let sep = lv("\n\n");
        let parts = split_chars(&lv(s), &sep);
        assert_eq!(join_chars(&parts, 0, &sep), lv(s));
    }
}

#[test]
fn matches_cover_at_most_the_text() {
    for (h, q) in [("aaaa", "a"), ("abcabc", "bc"), ("xyz", "xyzw"), ("aaaaa", "aa")] {
        assert!(count_chars(&lv(h), &lv(q)) * q.chars().count() <= h.chars().count());
    }
}

#[test]
fn occurring_and_counting_agree() {
    for (h, q) in [("Hello", "ell"), ("Hello", "xyz"), ("abc", ""), ("", "")] {
        assert_eq!(contains_chars(&lv(h), &lv(q)), count_chars(&lv(h), &lv(q)) > 0);
    }
    let mut n = LiteNote::new();
    n.content = "Alpha beta".to_string();
    n.find_query = "BETA".to_string();
    assert!(paragraph_highlighted(&n.content, &n.find_query));
    assert!(n.find_match_count() > 0);
}

#[test]
fn new_file_twice_is_new_file_once() {
    let mut n = LiteNote::new();
    n.content = "text".to_string();
    n.apply(Command::NewFile);
    let status = n.status.clone();
    n.apply(Command::NewFile);
    assert_eq!(n.status, status);
    assert_eq!(n.content, "");
    assert!(!n.modified);
}

#[test]
fn copied_subtitle_entry_reads_back() {
    let mut n = LiteNote::new();
    let e = Block::SrtEntry {
        index: 305,
        time: "00:01:02,000 --> 00:01:03,500".to_string(),
        text: "first line\nsecond line".to_string(),
    };
    n.blocks = vec![e.clone()];
    let copied = n.all_text();
    assert_eq!(litenote::srt::parse_srt(&copied), vec![e]);
}

#[test]
fn srt_parts_read_apart() {
    let a = "1\n00:00:01 --> 00:00:02\nHello\nthere";
    let b = "7\n00:00:03 --> 00:00:04\nBye";
    let mut both = parse_srt(a);
    both.extend(parse_srt(b));
    assert_eq!(parse_srt(&format!("{a}\n\n{b}")), both);
    assert_eq!(both.len(), 2);
}

#[test]
fn srt_copy_all_reads_back() {
    let src = "1\n00:00:01 --> 00:00:02\nHello\n\n2\n00:00:03 --> 00:00:04\nTwo\nlines";
    let mut n = LiteNote::new();
    n.finish_text(String::from("a.srt"), FileKind::Srt, String::from(src));
    assert_eq!(n.blocks.len(), 2);
    assert_eq!(parse_srt(&n.all_text()), n.blocks);
}

fn keeps_invariant(n: &LiteNote) -> bool {
    (n.file_path.is_some() || (n.file_kind == FileKind::PlainText && n.blocks.is_empty()))
        && n.file_kind != FileKind::Binary
}

#[test]
fn editor_invariant_through_a_session() {
    let mut n = LiteNote::new();
    assert!(keeps_invariant(&n));
    n.apply(Command::Edited);
    assert!(keeps_invariant(&n));
    n.finish_open_external("/tmp/photo.png", Ok(()));
    assert!(keeps_invariant(&n));
    match load_plan("/tmp/notes.md") {
        LoadPlan::ReadText(k) => n.finish_text(String::from("/tmp/notes.md"), k, String::from("# T")),
        _ => panic!("a Markdown file is read as text"),
    }
    assert!(keeps_invariant(&n));
    n.finish_docx(String::from("/tmp/r.docx"), Ok(vec![Block::H1(String::from("T"))]));
    assert!(keeps_invariant(&n));
    n.apply(Command::NewFile);
    assert!(keeps_invariant(&n));
    n.finish_save_as(String::from("/tmp/out.txt"), Ok(()));
    assert!(keeps_invariant(&n));
}

#[test]
fn markdown_event_streams_read_apart() {
    let first = vec![
        MdEvent::Start(MdBlock::Heading(1)),
        MdEvent::Text(String::from("Top")),
        MdEvent::End(MdBlock::Heading(1)),
    ];
    let second = vec![
        MdEvent::Start(MdBlock::Paragraph),
        MdEvent::Text(String::from("a")),
        MdEvent::SoftBreak,
        MdEvent::Code(String::from("b")),
        MdEvent::End(MdBlock::Paragraph),
        MdEvent::Rule,
    ];
    let mut all = first.clone();
    all.extend(second.clone());
    let mut expected = blocks_from_events(&first);
    expected.extend(blocks_from_events(&second));
    assert_eq!(blocks_from_events(&all), expected);
    assert_eq!(expected.len(), 3);
}

#[test]
fn parsed_subtitles_read_back_after_copy() {
    let src = "5\n00:00:01,000 --> 00:00:02,000\nFirst\nsecond line\n\n6\n00:00:03,000 --> 00:00:04,000\nLast";
    let blocks = parse_srt(src);
    assert_eq!(blocks.len(), 2);
    let mut n = LiteNote::new();
    n.finish_text(String::from("s.srt"), FileKind::Srt, String::from(src));
    assert_eq!(parse_srt(&n.all_text()), blocks);
}
