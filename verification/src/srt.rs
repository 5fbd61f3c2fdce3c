//! SubRip (`.srt`) subtitle files as a sequence of subtitle entries.
use vstd::prelude::*;
use crate::block::{view_blocks, Block, BlockView};
use crate::text::{
    chars_of, join, join_chars, lines, lines_of, parse_u32, parse_u32_chars, split_chars, split_on,
    string_of, trim, trimmed, views,
};

verus! {

/// The entry that one blank-line-separated chunk describes: at least three
/// lines, the first the entry number (0 when it is not a number), the second
/// the time line, the rest the text.
pub open spec fn srt_entry(chunk: Seq<char>) -> Option<BlockView> {
    let ls = lines(chunk);
    if ls.len() < 3 {
        None
    } else {
        Some(
            BlockView::SrtEntry {
                index: match parse_u32(trim(ls[0])) {
                    Some(n) => n,
                    None => 0,
                },
                time: trim(ls[1]),
                text: join(ls.skip(2), seq!['\n']),
            },
        )
    }
}

/// The entries of a sequence of chunks, skipping those with fewer than three lines.
pub open spec fn srt_entries(chunks: Seq<Seq<char>>) -> Seq<BlockView>
    decreases chunks.len(),
{
    if chunks.len() == 0 {
        seq![]
    } else {
        srt_entries(chunks.drop_last()) + match srt_entry(chunks.last()) {
            Some(b) => seq![b],
            None => seq![],
        }
    }
}

/// The entries of a subtitle file: its trimmed text cut at each blank line
/// (`"\n\n"`), each chunk read by [`srt_entry`].
pub open spec fn srt_blocks(src: Seq<char>) -> Seq<BlockView> {
    srt_entries(split_on(trim(src), seq!['\n', '\n']))
}

/// The entry of one chunk, if it has at least three lines.
pub fn srt_chunk_entry(chunk: &Vec<char>) -> (r: Option<Block>)
    ensures
        match r {
            Some(b) => srt_entry(chunk@) == Some(b@),
            None => srt_entry(chunk@) is None,
        },
{
    let ls = lines_of(chunk);
    proof {
        assert(views(ls@).len() == ls@.len());
    }
    if ls.len() < 3 {
        return None;
    }
    let index = match parse_u32_chars(&trimmed(&ls[0])) {
        Some(n) => n,
        None => 0,
    };
    let time = trimmed(&ls[1]);
    let mut newline: Vec<char> = Vec::new();
    newline.push('\n');
    assert(newline@ =~= seq!['\n']);
    let text = join_chars(&ls, 2, &newline);
    proof {
        assert(views(ls@.skip(2)) =~= views(ls@).skip(2));
        assert(views(ls@)[0] == ls@[0]@);
        assert(views(ls@)[1] == ls@[1]@);
    }
    Some(Block::SrtEntry { index, time: string_of(&time), text: string_of(&text) })
}

/// Reads a subtitle file into subtitle entries: see [`srt_blocks`].
pub fn parse_srt(src: &str) -> (blocks: Vec<Block>)
    ensures
        view_blocks(blocks@) == srt_blocks(src@),
{
    let mut sep: Vec<char> = Vec::new();
    sep.push('\n');
    sep.push('\n');
    assert(sep@ =~= seq!['\n', '\n']);
    let chunks = split_chars(&trimmed(&chars_of(src)), &sep);
    let ghost cs = views(chunks@);
    let mut blocks: Vec<Block> = Vec::new();
    let mut i: usize = 0;
    while i < chunks.len()
        invariant
            i <= chunks.len(),
            cs == views(chunks@),
            view_blocks(blocks@) == srt_entries(cs.take(i as int)),
        decreases chunks.len() - i,
    {
        let ghost before = blocks@;
        let e = srt_chunk_entry(&chunks[i]);
        proof {
            assert(cs.take(i + 1).drop_last() =~= cs.take(i as int));
            assert(cs.take(i + 1).last() == chunks@[i as int]@);
        }
        match e {
            Some(b) => {
                blocks.push(b);
                assert(view_blocks(blocks@) =~= view_blocks(before) + seq![b@]);
            },
            None => {},
        }
        i = i + 1;
    }
    assert(cs.take(chunks.len() as int) =~= cs);
    blocks
}

} // verus!
