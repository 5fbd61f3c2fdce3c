//! Rendered document blocks and their plain-text form.
use vstd::prelude::*;
use crate::text::{views, chars_of, decimal, extend_chars, join, join_chars, push_decimal, string_of};

verus! {

/// One block of a rendered document.
#[derive(Debug, Clone, PartialEq)]
pub enum Block {
    H1(String),
    H2(String),
    H3(String),
    CodeBlock(String),
    Quote(String),
    Hr,
    ListItem(String),
    Paragraph(String),
    SrtEntry { index: u32, time: String, text: String },
}

/// The mathematical value of a [`Block`].
pub enum BlockView {
    H1(Seq<char>),
    H2(Seq<char>),
    H3(Seq<char>),
    CodeBlock(Seq<char>),
    Quote(Seq<char>),
    Hr,
    ListItem(Seq<char>),
    Paragraph(Seq<char>),
    SrtEntry { index: u32, time: Seq<char>, text: Seq<char> },
}

impl View for Block {
    type V = BlockView;

    open spec fn view(&self) -> BlockView {
        match self {
            Block::H1(t) => BlockView::H1(t@),
            Block::H2(t) => BlockView::H2(t@),
            Block::H3(t) => BlockView::H3(t@),
            Block::CodeBlock(t) => BlockView::CodeBlock(t@),
            Block::Quote(t) => BlockView::Quote(t@),
            Block::Hr => BlockView::Hr,
            Block::ListItem(t) => BlockView::ListItem(t@),
            Block::Paragraph(t) => BlockView::Paragraph(t@),
            Block::SrtEntry { index, time, text } => BlockView::SrtEntry {
                index: *index,
                time: time@,
                text: text@,
            },
        }
    }
}

/// The values of a sequence of blocks.
pub open spec fn view_blocks(bs: Seq<Block>) -> Seq<BlockView> {
    bs.map_values(|b: Block| b@)
}

/// The rule that stands for a horizontal line in plain text: 37 box-drawing
/// characters U+2500.
pub open spec fn hr_line() -> Seq<char> {
    Seq::new(37, |i: int| '\u{2500}')
}

/// The plain text of one block; a subtitle entry is its number, time line
/// and text on three lines.
pub open spec fn block_text(b: BlockView) -> Seq<char> {
    match b {
        BlockView::H1(t) => t,
        BlockView::H2(t) => t,
        BlockView::H3(t) => t,
        BlockView::CodeBlock(t) => t,
        BlockView::Quote(t) => t,
        BlockView::Hr => hr_line(),
        BlockView::ListItem(t) => t,
        BlockView::Paragraph(t) => t,
        BlockView::SrtEntry { index, time, text } => decimal(index as nat) + seq!['\n'] + time
            + seq!['\n'] + text,
    }
}

/// The plain texts of a sequence of blocks.
pub open spec fn block_texts(blocks: Seq<BlockView>) -> Seq<Seq<char>> {
    blocks.map_values(|b: BlockView| block_text(b))
}

/// The plain text of a document: its blocks' texts separated by blank lines,
/// or the raw content when there are no blocks.
pub open spec fn document_text(blocks: Seq<BlockView>, content: Seq<char>) -> Seq<char> {
    if blocks.len() == 0 {
        content
    } else {
        join(block_texts(blocks), seq!['\n', '\n'])
    }
}

/// Executable [`block_text`].
pub fn block_text_chars(b: &Block) -> (r: Vec<char>)
    ensures
        r@ == block_text(b@),
{
    match b {
        Block::H1(t) | Block::H2(t) | Block::H3(t) | Block::CodeBlock(t) | Block::Quote(t)
        | Block::ListItem(t) | Block::Paragraph(t) => chars_of(t.as_str()),
        Block::Hr => {
            let mut r: Vec<char> = Vec::new();
            let mut i: usize = 0;
            while i < 37
                invariant
                    i <= 37,
                    r@ == Seq::new(i as nat, |k: int| '\u{2500}'),
                decreases 37 - i,
            {
                r.push('\u{2500}');
                i = i + 1;
                assert(r@ =~= Seq::new(i as nat, |k: int| '\u{2500}'));
            }
            r
        },
        Block::SrtEntry { index, time, text } => {
            let mut r: Vec<char> = Vec::new();
            push_decimal(&mut r, *index);
            r.push('\n');
            extend_chars(&mut r, &chars_of(time.as_str()));
            r.push('\n');
            extend_chars(&mut r, &chars_of(text.as_str()));
            assert(r@ =~= block_text(b@));
            r
        },
    }
}

/// The plain text of a document: see [`document_text`].
pub fn document_text_of(blocks: &Vec<Block>, content: &str) -> (r: String)
    ensures
        r@ == document_text(view_blocks(blocks@), content@),
{
    if blocks.len() == 0 {
        return string_of(&chars_of(content));
    }
    let mut parts: Vec<Vec<char>> = Vec::new();
    let mut i: usize = 0;
    while i < blocks.len()
        invariant
            i <= blocks.len(),
            parts.len() == i,
            views(parts@) == block_texts(view_blocks(blocks@).take(i as int)),
        decreases blocks.len() - i,
    {
        let ghost old_parts = parts@;
        let t = block_text_chars(&blocks[i]);
        parts.push(t);
        i = i + 1;
        proof {
            let a = views(parts@);
            let b = block_texts(view_blocks(blocks@).take(i as int));
            let a0 = views(old_parts);
            assert forall|k: int| 0 <= k < a.len() implies a[k] == b[k] by {
                if k < i - 1 {
                    assert(parts@[k] == old_parts[k]);
                    assert(a[k] == a0[k]);
                }
            }
            assert(a =~= b);
        }
    }
    let mut sep: Vec<char> = Vec::new();
    sep.push('\n');
    sep.push('\n');
    assert(sep@ =~= seq!['\n', '\n']);
    assert(parts@.skip(0) =~= parts@);
    assert(view_blocks(blocks@).take(blocks.len() as int) =~= view_blocks(blocks@));
    assert(views(parts@.skip(0)) == views(parts@));
    let r = join_chars(&parts, 0, &sep);
    string_of(&r)
}

} // verus!
