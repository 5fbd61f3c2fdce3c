use litenote::block::Block;
use litenote::markdown::{blocks_from_events, parse_markdown, MdBlock, MdEvent};

fn ms(t: &str) -> String {
    t.to_string()
}

#[test]
fn markdown_heading_and_paragraph() {
    assert_eq!(
        parse_markdown("# Title\n\nHello *world* and `code`.\n"),
        vec![Block::H1(ms("Title")), Block::Paragraph(ms("Hello world and code."))]
    );
}

#[test]
fn markdown_heading_levels() {
    assert_eq!(
        parse_markdown("## Sub\n### Third\n#### Fourth\n###### Sixth"),
        vec![Block::H2(ms("Sub")), Block::H3(ms("Third")), Block::H3(ms("Fourth")), Block::H3(ms("Sixth"))]
    );
}

#[test]
fn markdown_quote_joins_lines() {
    assert_eq!(parse_markdown("> quoted\n> text"), vec![Block::Quote(ms("quoted text"))]);
}

#[test]
fn markdown_list_items() {
    assert_eq!(
        parse_markdown("- one\n- two\n"),
        vec![Block::ListItem(ms("one")), Block::ListItem(ms("two"))]
    );
    assert_eq!(
        parse_markdown("1. first\n\n2. second\n"),
        vec![Block::ListItem(ms("first")), Block::ListItem(ms("second"))]
    );
}

#[test]
fn markdown_rule_and_code() {
    assert_eq!(
        parse_markdown("a\n\n---\n\nb\n\n```\nlet x = 1;\n```\n"),
        vec![
            Block::Paragraph(ms("a")),
            Block::Hr,
            Block::Paragraph(ms("b")),
            Block::CodeBlock(ms("let x = 1;")),
        ]
    );
}

#[test]
fn markdown_list_inside_quote() {
    assert_eq!(parse_markdown("> - a"), vec![Block::ListItem(ms("a")), Block::Quote(ms(""))]);
}

#[test]
fn markdown_html_is_ignored() {
    assert_eq!(parse_markdown("<div>hi</div>\n"), vec![]);
    assert_eq!(parse_markdown(""), vec![]);
}

#[test]
fn markdown_hard_break_is_a_space() {
    assert_eq!(parse_markdown("one  \ntwo"), vec![Block::Paragraph(ms("one two"))]);
}

#[test]
fn events_to_blocks() {
    let events = vec![
        MdEvent::Start(MdBlock::Heading(2)),
        MdEvent::Text(ms("  Head ")),
        MdEvent::End(MdBlock::Heading(2)),
        MdEvent::Start(MdBlock::Paragraph),
        MdEvent::Text(ms("   ")),
        MdEvent::End(MdBlock::Paragraph),
        MdEvent::Start(MdBlock::Paragraph),
        MdEvent::Text(ms("x")),
        MdEvent::SoftBreak,
        MdEvent::Code(ms("y")),
        MdEvent::HardBreak,
        MdEvent::Text(ms("z")),
        MdEvent::Other,
        MdEvent::End(MdBlock::Paragraph),
        MdEvent::Rule,
        MdEvent::Start(MdBlock::Code),
        MdEvent::Text(ms("\ncode\n")),
        MdEvent::End(MdBlock::Code),
    ];
    assert_eq!(
        blocks_from_events(&events),
        vec![Block::H2(ms("Head")), Block::Paragraph(ms("x y z")), Block::Hr, Block::CodeBlock(ms("code"))]
    );
}

#[test]
fn markdown_parts_read_apart() {
    for (a, b) in [("# Title here", "Some text"), ("## Sub", "# Top"), ("plain words", "more words")] {
        let mut both = parse_markdown(a);
        assert_eq!(both.len(), 1);
        let second = parse_markdown(b);
        assert_eq!(second.len(), 1);
        both.extend(second);
        assert_eq!(parse_markdown(&format!("{a}\n\n{b}")), both);
    }
}

#[test]
fn markdown_inline_code_joins_the_text() {
    assert_eq!(parse_markdown("run `ls -l` now"), vec![Block::Paragraph(ms("run ls -l now"))]);
}
