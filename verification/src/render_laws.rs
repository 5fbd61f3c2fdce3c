//! Properties of how documents are read into blocks, how files are opened,
//! and how blocks are copied as text.
use vstd::prelude::*;
use crate::block::{block_text, document_text, BlockView};
use crate::markdown::{markdown_blocks, md_initial, md_run, MdBlock, MdEventView};
use crate::docx::{
    child_block, children_blocks, paragraph_text, piece_text, pieces_text, run_text, runs_text, styled_block,
};
use crate::json::{member, member_of, str_or_empty, Json};
use crate::kind::{kind_of_lower, FileKind};
use crate::note::{
    after_command, after_text, effect_of, plan_for_kind, CommandView, EffectView, LoadPlan, NoteView,
};
use crate::srt::srt_blocks;
use crate::text::{contains, trim};

verus! {

/// One complete block quote holding one paragraph of text `t`: it gives a
/// single quote block with the trimmed text, and reading ends back in the
/// initial state, outside every element.
pub proof fn law_markdown_quote(t: Seq<char>)
    ensures
        md_run(wrapped_events(MdBlock::Quote, t)) == (md_initial(), seq![BlockView::Quote(trim(t))]),
{
    reveal_with_fuel(md_run, 6);
    let es = wrapped_events(MdBlock::Quote, t);
    assert(es.drop_last().drop_last().drop_last().drop_last().drop_last() =~= Seq::<MdEventView>::empty());
    assert(md_run(es).1 =~= seq![BlockView::Quote(trim(t))]);
}

/// The blocks a paragraph of text `t` gives outside quotes and list items:
/// one paragraph with the trimmed text, or none when that is empty.
pub open spec fn paragraph_of(t: Seq<char>) -> Seq<BlockView> {
    if trim(t).len() > 0 {
        seq![BlockView::Paragraph(trim(t))]
    } else {
        seq![]
    }
}

/// The events of one paragraph of text `t`.
pub open spec fn paragraph_events(t: Seq<char>) -> Seq<MdEventView> {
    seq![MdEventView::Start(MdBlock::Paragraph), MdEventView::Text(t), MdEventView::End(MdBlock::Paragraph)]
}

/// The events of one element `b` holding one paragraph of text `t`.
pub open spec fn wrapped_events(b: MdBlock, t: Seq<char>) -> Seq<MdEventView> {
    seq![
        MdEventView::Start(b),
        MdEventView::Start(MdBlock::Paragraph),
        MdEventView::Text(t),
        MdEventView::End(MdBlock::Paragraph),
        MdEventView::End(b),
    ]
}

/// A paragraph at the top level gives its trimmed text as a paragraph (none
/// when it is blank) and ends in the initial state.
pub proof fn law_markdown_paragraph(t: Seq<char>)
    ensures
        md_run(paragraph_events(t)) == (md_initial(), paragraph_of(t)),
{
    reveal_with_fuel(md_run, 4);
    let es = paragraph_events(t);
    assert(es.drop_last().drop_last().drop_last() =~= Seq::<MdEventView>::empty());
    assert(md_run(es).1 =~= paragraph_of(t));
}

/// A list item holding a paragraph gives one list item with the trimmed
/// text, and reading ends back in the initial state.
pub proof fn law_markdown_item(t: Seq<char>)
    ensures
        md_run(wrapped_events(MdBlock::Item, t)) == (md_initial(), seq![BlockView::ListItem(trim(t))]),
{
    reveal_with_fuel(md_run, 6);
    let es = wrapped_events(MdBlock::Item, t);
    assert(es.drop_last().drop_last().drop_last().drop_last().drop_last() =~= Seq::<MdEventView>::empty());
    assert(md_run(es).1 =~= seq![BlockView::ListItem(trim(t))]);
}

/// A code block of text `t` gives one code block with the trimmed text, and
/// reading ends back in the initial state.
pub proof fn law_markdown_code(t: Seq<char>)
    ensures
        md_run(seq![MdEventView::Start(MdBlock::Code), MdEventView::Text(t), MdEventView::End(MdBlock::Code)])
            == (md_initial(), seq![BlockView::CodeBlock(trim(t))]),
{
    reveal_with_fuel(md_run, 4);
    let es = seq![MdEventView::Start(MdBlock::Code), MdEventView::Text(t), MdEventView::End(MdBlock::Code)];
    assert(es.drop_last().drop_last().drop_last() =~= Seq::<MdEventView>::empty());
    assert(md_run(es).1 =~= seq![BlockView::CodeBlock(trim(t))]);
}

/// A heading of level `l` and text `t` gives a first-level heading for level
/// 1, a second-level one for level 2 and a third-level one for any deeper
/// level, with the trimmed text; reading ends back in the initial state.
pub proof fn law_markdown_heading(l: u8, t: Seq<char>)
    ensures
        md_run(seq![MdEventView::Start(MdBlock::Heading(l)), MdEventView::Text(t), MdEventView::End(MdBlock::Heading(l))]).0
            == md_initial(),
        md_run(seq![MdEventView::Start(MdBlock::Heading(l)), MdEventView::Text(t), MdEventView::End(MdBlock::Heading(l))]).1
            == seq![
            if l == 1 {
                BlockView::H1(trim(t))
            } else if l == 2 {
                BlockView::H2(trim(t))
            } else {
                BlockView::H3(trim(t))
            },
        ],
{
    reveal_with_fuel(md_run, 4);
    let es = seq![MdEventView::Start(MdBlock::Heading(l)), MdEventView::Text(t), MdEventView::End(MdBlock::Heading(l))];
    assert(es.drop_last().drop_last().drop_last() =~= Seq::<MdEventView>::empty());
    assert(md_run(es).1 =~= seq![
        if l == 1 {
            BlockView::H1(trim(t))
        } else if l == 2 {
            BlockView::H2(trim(t))
        } else {
            BlockView::H3(trim(t))
        },
    ]);
}

/// Inside a paragraph, text and inline code are kept as they are and each
/// soft or hard line break becomes one space, in order.
pub proof fn law_markdown_inline(a: Seq<char>, b: Seq<char>, c: Seq<char>)
    ensures
        markdown_blocks(
            seq![
                MdEventView::Start(MdBlock::Paragraph),
                MdEventView::Text(a),
                MdEventView::SoftBreak,
                MdEventView::Code(b),
                MdEventView::HardBreak,
                MdEventView::Text(c),
                MdEventView::End(MdBlock::Paragraph),
            ],
        ) == paragraph_of(a + seq![' '] + b + seq![' '] + c),
{
    reveal_with_fuel(md_run, 8);
    let es = seq![
        MdEventView::Start(MdBlock::Paragraph),
        MdEventView::Text(a),
        MdEventView::SoftBreak,
        MdEventView::Code(b),
        MdEventView::HardBreak,
        MdEventView::Text(c),
        MdEventView::End(MdBlock::Paragraph),
    ];
    let e0 = es.drop_last().drop_last().drop_last().drop_last().drop_last().drop_last().drop_last();
    assert(e0 =~= Seq::<MdEventView>::empty());
    assert(md_run(es.drop_last()).0.buf =~= a + seq![' '] + b + seq![' '] + c);
    assert(md_run(es).1 =~= paragraph_of(a + seq![' '] + b + seq![' '] + c));
}

/// A thematic break gives a horizontal rule wherever it stands, and any
/// other event changes neither the state nor the blocks.
pub proof fn law_markdown_rule_and_other(es: Seq<MdEventView>)
    ensures
        md_run(es.push(MdEventView::Rule)) == (md_run(es).0, md_run(es).1.push(BlockView::Hr)),
        md_run(es.push(MdEventView::Other)) == md_run(es),
        md_run(es.push(MdEventView::Start(MdBlock::Other))) == md_run(es),
        md_run(es.push(MdEventView::End(MdBlock::Other))) == md_run(es),
{
    assert(es.push(MdEventView::Rule).drop_last() =~= es);
    assert(es.push(MdEventView::Other).drop_last() =~= es);
    assert(es.push(MdEventView::Start(MdBlock::Other)).drop_last() =~= es);
    assert(es.push(MdEventView::End(MdBlock::Other)).drop_last() =~= es);
    assert(md_run(es).1 + seq![BlockView::Hr] =~= md_run(es).1.push(BlockView::Hr));
    assert(md_run(es).1 + Seq::<BlockView>::empty() =~= md_run(es).1);
}

/// A block quote and then a paragraph give the quote and then the
/// paragraph: the quote ends, and the paragraph after it is read at the top
/// level.
pub proof fn law_markdown_quote_then_paragraph(t: Seq<char>, u: Seq<char>)
    ensures
        markdown_blocks(wrapped_events(MdBlock::Quote, t) + paragraph_events(u))
            == seq![BlockView::Quote(trim(t))] + paragraph_of(u),
{
    law_markdown_quote(t);
    law_markdown_paragraph(u);
    crate::laws::law_markdown_blocks_concat(wrapped_events(MdBlock::Quote, t), paragraph_events(u));
}

/// A list item and then a paragraph give the item and then the paragraph.
pub proof fn law_markdown_item_then_paragraph(t: Seq<char>, u: Seq<char>)
    ensures
        markdown_blocks(wrapped_events(MdBlock::Item, t) + paragraph_events(u))
            == seq![BlockView::ListItem(trim(t))] + paragraph_of(u),
{
    law_markdown_item(t);
    law_markdown_paragraph(u);
    crate::laws::law_markdown_blocks_concat(wrapped_events(MdBlock::Item, t), paragraph_events(u));
}

/// A paragraph's text is its runs' texts in document order: the first
/// run's text comes first.
pub proof fn law_docx_runs_in_order(first: Json, rest: Seq<Json>)
    ensures
        runs_text(seq![first] + rest) == run_text(first) + runs_text(rest),
        runs_text(seq![first]) == run_text(first),
    decreases rest.len(),
{
    let all = seq![first] + rest;
    assert(seq![first].drop_last() =~= Seq::<Json>::empty());
    assert(runs_text(Seq::<Json>::empty()) =~= Seq::<char>::empty());
    assert(runs_text(seq![first]) == runs_text(seq![first].drop_last()) + run_text(seq![first].last()));
    assert(runs_text(seq![first]) =~= run_text(first));
    if rest.len() == 0 {
        assert(all =~= seq![first]);
        assert(runs_text(rest) =~= Seq::<char>::empty());
        assert(run_text(first) + runs_text(rest) =~= run_text(first));
    } else {
        law_docx_runs_in_order(first, rest.drop_last());
        assert(all.drop_last() =~= seq![first] + rest.drop_last());
        assert(all.last() == rest.last());
        assert(run_text(first) + runs_text(rest.drop_last()) + run_text(rest.last()) =~= run_text(first) + (
        runs_text(rest.drop_last()) + run_text(rest.last())));
    }
}

/// A run's text is its text pieces in document order: the first piece's
/// text comes first.
pub proof fn law_docx_pieces_in_order(first: Json, rest: Seq<Json>)
    ensures
        pieces_text(seq![first] + rest) == piece_text(first) + pieces_text(rest),
        pieces_text(seq![first]) == piece_text(first),
    decreases rest.len(),
{
    let all = seq![first] + rest;
    assert(seq![first].drop_last() =~= Seq::<Json>::empty());
    assert(pieces_text(Seq::<Json>::empty()) =~= Seq::<char>::empty());
    assert(pieces_text(seq![first]) == pieces_text(seq![first].drop_last()) + piece_text(seq![first].last()));
    assert(pieces_text(seq![first]) =~= piece_text(first));
    if rest.len() == 0 {
        assert(all =~= seq![first]);
        assert(pieces_text(rest) =~= Seq::<char>::empty());
        assert(piece_text(first) + pieces_text(rest) =~= piece_text(first));
    } else {
        law_docx_pieces_in_order(first, rest.drop_last());
        assert(all.drop_last() =~= seq![first] + rest.drop_last());
        assert(all.last() == rest.last());
        assert(piece_text(first) + pieces_text(rest.drop_last()) + piece_text(rest.last()) =~= piece_text(first)
            + (pieces_text(rest.drop_last()) + piece_text(rest.last())));
    }
}

/// The blocks of a document's children come in document order: the first
/// child's block (if it makes one) comes first.
pub proof fn law_docx_children_in_order(first: Json, rest: Seq<Json>)
    ensures
        children_blocks(seq![first] + rest) == (match child_block(first) {
            Some(b) => seq![b],
            None => seq![],
        }) + children_blocks(rest),
    decreases rest.len(),
{
    let all = seq![first] + rest;
    let head: Seq<BlockView> = match child_block(first) {
        Some(b) => seq![b],
        None => seq![],
    };
    assert(seq![first].drop_last() =~= Seq::<Json>::empty());
    assert(children_blocks(Seq::<Json>::empty()) =~= Seq::<BlockView>::empty());
    assert(seq![first].last() == first);
    assert(children_blocks(seq![first]) =~= head);
    if rest.len() == 0 {
        assert(all =~= seq![first]);
        assert(head + children_blocks(rest) =~= head);
    } else {
        law_docx_children_in_order(first, rest.drop_last());
        assert(all.drop_last() =~= seq![first] + rest.drop_last());
        assert(all.last() == rest.last());
        let tail: Seq<BlockView> = match child_block(rest.last()) {
            Some(b) => seq![b],
            None => seq![],
        };
        assert(head + children_blocks(rest.drop_last()) + tail =~= head + (children_blocks(rest.drop_last()) + tail));
    }
}

/// Every block that carries text copies as exactly that text, alone or as
/// the only block of a document, whatever the raw content.
pub proof fn law_blocks_copy_their_text(t: Seq<char>, content: Seq<char>)
    ensures
        block_text(BlockView::H1(t)) == t,
        block_text(BlockView::H2(t)) == t,
        block_text(BlockView::H3(t)) == t,
        block_text(BlockView::CodeBlock(t)) == t,
        block_text(BlockView::Quote(t)) == t,
        block_text(BlockView::ListItem(t)) == t,
        block_text(BlockView::Paragraph(t)) == t,
        document_text(seq![BlockView::CodeBlock(t)], content) == t,
        document_text(seq![BlockView::Paragraph(t)], content) == t,
        document_text(seq![BlockView::H1(t)], content) == t,
        document_text(seq![BlockView::Quote(t)], content) == t,
        document_text(seq![BlockView::ListItem(t)], content) == t,
{
    assert(crate::block::block_texts(seq![BlockView::CodeBlock(t)]) =~= seq![t]);
    assert(crate::block::block_texts(seq![BlockView::Paragraph(t)]) =~= seq![t]);
    assert(crate::block::block_texts(seq![BlockView::H1(t)]) =~= seq![t]);
    assert(crate::block::block_texts(seq![BlockView::Quote(t)]) =~= seq![t]);
    assert(crate::block::block_texts(seq![BlockView::ListItem(t)]) =~= seq![t]);
}

/// A horizontal rule copies as a line of 37 box-drawing characters U+2500.
pub proof fn law_rule_copies_as_line()
    ensures
        block_text(BlockView::Hr).len() == 37,
        forall|i: int| 0 <= i < 37 ==> #[trigger] block_text(BlockView::Hr)[i] == '\u{2500}',
{
}

/// Copying a document with no blocks gives its raw content; with blocks, a
/// further block adds a blank line and its own text at the end.
pub proof fn law_document_text_grows(bs: Seq<BlockView>, b: BlockView, content: Seq<char>)
    ensures
        document_text(Seq::<BlockView>::empty(), content) == content,
        bs.len() > 0 ==> document_text(bs.push(b), content) == document_text(bs, content) + seq!['\n', '\n']
            + block_text(b),
{
    let ts = crate::block::block_texts(bs.push(b));
    assert(ts.drop_last() =~= crate::block::block_texts(bs));
    assert(ts.last() == block_text(b));
}

/// Files of every text kind are read as text of that same kind; binary files
/// go to the default application and Word documents are read as such.
pub proof fn law_plan_keeps_kind(k: FileKind)
    ensures
        k != FileKind::Binary && k != FileKind::Docx ==> plan_for_kind(k) == LoadPlan::ReadText(k),
        k == FileKind::Binary ==> plan_for_kind(k) == LoadPlan::OpenExternally,
        k == FileKind::Docx ==> plan_for_kind(k) == LoadPlan::ReadDocx,
{
}

/// A text file that was read keeps its text, its path and its kind; a
/// subtitle file shows the entries read from its text, a Markdown file the
/// blocks of its Markdown, and any other text file no blocks; the status
/// names the kind.
pub proof fn law_text_file_opened(s: NoteView, path: Seq<char>, k: FileKind, text: Seq<char>)
    ensures
        after_text(s, path, k, text).content == text,
        after_text(s, path, k, text).file_path == Some(path),
        after_text(s, path, k, text).file_kind == k,
        !after_text(s, path, k, text).modified,
        k == FileKind::Srt ==> after_text(s, path, k, text).blocks == srt_blocks(text)
            && after_text(s, path, k, text).status == "Opened "@ + "SRT Subtitle"@,
        k == FileKind::Markdown ==> after_text(s, path, k, text).blocks == markdown_blocks(
            crate::markdown::markdown_events(text),
        ) && after_text(s, path, k, text).status == "Opened "@ + "Markdown"@,
        k == FileKind::PlainText ==> after_text(s, path, k, text).blocks.len() == 0
            && after_text(s, path, k, text).status == "Opened "@ + "Text file"@,
{
}

/// The extensions of files that are handed to the default application: 37
/// image, audio, video, office, archive and executable formats.
pub open spec fn binary_extensions() -> Set<Seq<char>> {
    set!["pdf"@, "png"@, "jpg"@, "jpeg"@, "gif"@, "bmp"@, "webp"@, "svg"@, "ico"@, "mp4"@, "mp3"@, "wav"@, "ogg"@, "avi"@, "mkv"@, "mov"@, "flac"@, "doc"@, "xlsx"@, "xls"@, "pptx"@, "ppt"@, "odt"@, "ods"@, "odp"@, "zip"@, "rar"@, "7z"@, "tar"@, "gz"@, "bz2"@, "exe"@, "dll"@, "msi"@, "bin"@, "dat"@, "iso"@]
}

/// A lowercase extension means a binary file exactly when it is one of
/// [`binary_extensions`]; `md` and `markdown` mean Markdown, `docx` a Word
/// document, `srt` subtitles, and every other extension plain text.
pub proof fn law_kind_of_lowercase_extension(e: Seq<char>)
    ensures
        kind_of_lower(Some(e)) == FileKind::Binary <==> binary_extensions().contains(e),
        !binary_extensions().contains(e) && e != "md"@ && e != "markdown"@ && e != "docx"@ && e != "srt"@
            ==> kind_of_lower(Some(e)) == FileKind::PlainText,
        kind_of_lower(Some("md"@)) == FileKind::Markdown,
        kind_of_lower(Some("markdown"@)) == FileKind::Markdown,
        kind_of_lower(Some("docx"@)) == FileKind::Docx,
        kind_of_lower(Some("srt"@)) == FileKind::Srt,
        kind_of_lower(None) == FileKind::PlainText,
{
    reveal_strlit("pdf");
    assert("pdf"@.len() == 3 && "pdf"@[0] == 'p' && "pdf"@[1] == 'd');
    reveal_strlit("png");
    assert("png"@.len() == 3 && "png"@[0] == 'p' && "png"@[1] == 'n');
    reveal_strlit("jpg");
    assert("jpg"@.len() == 3 && "jpg"@[0] == 'j' && "jpg"@[1] == 'p');
    reveal_strlit("jpeg");
    assert("jpeg"@.len() == 4 && "jpeg"@[0] == 'j' && "jpeg"@[1] == 'p');
    reveal_strlit("gif");
    assert("gif"@.len() == 3 && "gif"@[0] == 'g' && "gif"@[1] == 'i');
    reveal_strlit("bmp");
    assert("bmp"@.len() == 3 && "bmp"@[0] == 'b' && "bmp"@[1] == 'm');
    reveal_strlit("webp");
    assert("webp"@.len() == 4 && "webp"@[0] == 'w' && "webp"@[1] == 'e');
    reveal_strlit("svg");
    assert("svg"@.len() == 3 && "svg"@[0] == 's' && "svg"@[1] == 'v');
    reveal_strlit("ico");
    assert("ico"@.len() == 3 && "ico"@[0] == 'i' && "ico"@[1] == 'c');
    reveal_strlit("mp4");
    assert("mp4"@.len() == 3 && "mp4"@[0] == 'm' && "mp4"@[1] == 'p');
    reveal_strlit("mp3");
    assert("mp3"@.len() == 3 && "mp3"@[0] == 'm' && "mp3"@[1] == 'p');
    reveal_strlit("wav");
    assert("wav"@.len() == 3 && "wav"@[0] == 'w' && "wav"@[1] == 'a');
    reveal_strlit("ogg");
    assert("ogg"@.len() == 3 && "ogg"@[0] == 'o' && "ogg"@[1] == 'g');
    reveal_strlit("avi");
    assert("avi"@.len() == 3 && "avi"@[0] == 'a' && "avi"@[1] == 'v');
    reveal_strlit("mkv");
    assert("mkv"@.len() == 3 && "mkv"@[0] == 'm' && "mkv"@[1] == 'k');
    reveal_strlit("mov");
    assert("mov"@.len() == 3 && "mov"@[0] == 'm' && "mov"@[1] == 'o');
    reveal_strlit("flac");
    assert("flac"@.len() == 4 && "flac"@[0] == 'f' && "flac"@[1] == 'l');
    reveal_strlit("doc");
    assert("doc"@.len() == 3 && "doc"@[0] == 'd' && "doc"@[1] == 'o');
    reveal_strlit("xlsx");
    assert("xlsx"@.len() == 4 && "xlsx"@[0] == 'x' && "xlsx"@[1] == 'l');
    reveal_strlit("xls");
    assert("xls"@.len() == 3 && "xls"@[0] == 'x' && "xls"@[1] == 'l');
    reveal_strlit("pptx");
    assert("pptx"@.len() == 4 && "pptx"@[0] == 'p' && "pptx"@[1] == 'p');
    reveal_strlit("ppt");
    assert("ppt"@.len() == 3 && "ppt"@[0] == 'p' && "ppt"@[1] == 'p');
    reveal_strlit("odt");
    assert("odt"@.len() == 3 && "odt"@[0] == 'o' && "odt"@[1] == 'd');
    reveal_strlit("ods");
    assert("ods"@.len() == 3 && "ods"@[0] == 'o' && "ods"@[1] == 'd');
    reveal_strlit("odp");
    assert("odp"@.len() == 3 && "odp"@[0] == 'o' && "odp"@[1] == 'd');
    reveal_strlit("zip");
    assert("zip"@.len() == 3 && "zip"@[0] == 'z' && "zip"@[1] == 'i');
    reveal_strlit("rar");
    assert("rar"@.len() == 3 && "rar"@[0] == 'r' && "rar"@[1] == 'a');
    reveal_strlit("7z");
    assert("7z"@.len() == 2 && "7z"@[0] == '7' && "7z"@[1] == 'z');
    reveal_strlit("tar");
    assert("tar"@.len() == 3 && "tar"@[0] == 't' && "tar"@[1] == 'a');
    reveal_strlit("gz");
    assert("gz"@.len() == 2 && "gz"@[0] == 'g' && "gz"@[1] == 'z');
    reveal_strlit("bz2");
    assert("bz2"@.len() == 3 && "bz2"@[0] == 'b' && "bz2"@[1] == 'z');
    reveal_strlit("exe");
    assert("exe"@.len() == 3 && "exe"@[0] == 'e' && "exe"@[1] == 'x');
    reveal_strlit("dll");
    assert("dll"@.len() == 3 && "dll"@[0] == 'd' && "dll"@[1] == 'l');
    reveal_strlit("msi");
    assert("msi"@.len() == 3 && "msi"@[0] == 'm' && "msi"@[1] == 's');
    reveal_strlit("bin");
    assert("bin"@.len() == 3 && "bin"@[0] == 'b' && "bin"@[1] == 'i');
    reveal_strlit("dat");
    assert("dat"@.len() == 3 && "dat"@[0] == 'd' && "dat"@[1] == 'a');
    reveal_strlit("iso");
    assert("iso"@.len() == 3 && "iso"@[0] == 'i' && "iso"@[1] == 's');
    reveal_strlit("md");
    assert("md"@.len() == 2 && "md"@[0] == 'm' && "md"@[1] == 'd');
    reveal_strlit("markdown");
    assert("markdown"@.len() == 8 && "markdown"@[0] == 'm' && "markdown"@[1] == 'a');
    reveal_strlit("docx");
    assert("docx"@.len() == 4 && "docx"@[0] == 'd' && "docx"@[1] == 'o');
    reveal_strlit("srt");
    assert("srt"@.len() == 3 && "srt"@[0] == 's' && "srt"@[1] == 'r');
}

/// A Word paragraph's style picks its block: a style naming `heading1`, or
/// the style `title`, makes a first-level heading; otherwise `heading2` a
/// second-level and `heading3` a third-level heading; any other style a
/// paragraph. The block holds the paragraph's text unchanged.
pub proof fn law_docx_styles(style: Seq<char>, text: Seq<char>)
    ensures
        contains(style, "heading1"@) || style == "title"@ ==> styled_block(style, text) == BlockView::H1(text),
        !contains(style, "heading1"@) && style != "title"@ && contains(style, "heading2"@) ==> styled_block(
            style,
            text,
        ) == BlockView::H2(text),
        !contains(style, "heading1"@) && style != "title"@ && !contains(style, "heading2"@) && contains(
            style,
            "heading3"@,
        ) ==> styled_block(style, text) == BlockView::H3(text),
        !contains(style, "heading1"@) && style != "title"@ && !contains(style, "heading2"@) && !contains(
            style,
            "heading3"@,
        ) ==> styled_block(style, text) == BlockView::Paragraph(text),
{
}

/// Only paragraphs with data and some non-whitespace text make blocks, and
/// such a block holds the paragraph's text as it is; text pieces that are
/// not of type `text`, and runs that are not of type `run`, add nothing.
pub proof fn law_docx_what_counts(child: Json, run: Json, piece: Json)
    ensures
        str_or_empty(member(child, "type"@)) != "paragraph"@ ==> child_block(child) is None,
        member(child, "data"@) is None ==> child_block(child) is None,
        member(child, "data"@) matches Some(d) && trim(paragraph_text(d)).len() == 0 ==> child_block(child) is None,
        child_block(child) matches Some(b) ==> (member(child, "data"@) matches Some(d) && match b {
            BlockView::H1(t) => t == paragraph_text(d),
            BlockView::H2(t) => t == paragraph_text(d),
            BlockView::H3(t) => t == paragraph_text(d),
            BlockView::Paragraph(t) => t == paragraph_text(d),
            _ => false,
        }),
        str_or_empty(member(run, "type"@)) != "run"@ ==> run_text(run).len() == 0,
        str_or_empty(member(piece, "type"@)) != "text"@ ==> piece_text(piece).len() == 0,
        str_or_empty(member(piece, "type"@)) == "text"@ ==> piece_text(piece) == str_or_empty(
            member_of(member(piece, "data"@), "text"@),
        ),
{
}

/// A block quote holding two paragraphs gives one quote with both texts
/// run together, trimmed.
pub proof fn law_markdown_quote_two_paragraphs(t: Seq<char>, u: Seq<char>)
    ensures
        markdown_blocks(
            seq![
                MdEventView::Start(MdBlock::Quote),
                MdEventView::Start(MdBlock::Paragraph),
                MdEventView::Text(t),
                MdEventView::End(MdBlock::Paragraph),
                MdEventView::Start(MdBlock::Paragraph),
                MdEventView::Text(u),
                MdEventView::End(MdBlock::Paragraph),
                MdEventView::End(MdBlock::Quote),
            ],
        ) == seq![BlockView::Quote(trim(t + u))],
{
    reveal_with_fuel(md_run, 9);
    let es = seq![
        MdEventView::Start(MdBlock::Quote),
        MdEventView::Start(MdBlock::Paragraph),
        MdEventView::Text(t),
        MdEventView::End(MdBlock::Paragraph),
        MdEventView::Start(MdBlock::Paragraph),
        MdEventView::Text(u),
        MdEventView::End(MdBlock::Paragraph),
        MdEventView::End(MdBlock::Quote),
    ];
    assert(es.drop_last().drop_last().drop_last().drop_last().drop_last().drop_last().drop_last().drop_last()
        =~= Seq::<MdEventView>::empty());
    assert(md_run(es.drop_last()).0.buf =~= t + u);
    assert(md_run(es).1 =~= seq![BlockView::Quote(trim(t + u))]);
}

/// "Copy all" puts the document's plain text on the clipboard and says so;
/// saving writes to the open file, or asks for a path when there is none;
/// opening asks for a file; a dropped file is loaded.
pub proof fn law_commands_do_their_work(s: NoteView, p: Seq<char>)
    ensures
        after_command(s, CommandView::CopyAll).copy_buffer == Some(document_text(s.blocks, s.content)),
        after_command(s, CommandView::CopyAll).status == "Copied to clipboard!"@,
        after_command(s, CommandView::CopyAll).content == s.content,
        s.file_path matches Some(f) ==> effect_of(s, CommandView::SaveFile) == EffectView::WriteFile(f),
        s.file_path is None ==> effect_of(s, CommandView::SaveFile) == EffectView::PickSavePath,
        effect_of(s, CommandView::SaveFileAs) == EffectView::PickSavePath,
        effect_of(s, CommandView::OpenFile) == EffectView::PickFileToOpen,
        effect_of(s, CommandView::DropFile(p)) == EffectView::LoadFile(p),
        after_command(s, CommandView::DropFile(p)) == s,
        after_command(s, CommandView::SaveFile) == s,
{
}

} // verus!
