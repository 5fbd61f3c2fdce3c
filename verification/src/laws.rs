//! Properties that hold across the library's operations.
use vstd::prelude::*;
use vstd::utf8::{encode_utf8, encode_utf8_decode_utf8, encode_utf8_valid_utf8};
use crate::block::BlockView;
use crate::docx::{children_blocks, docx_blocks};
use crate::json::Json;
use crate::kind::{kind_of_extension, FileKind};
use crate::markdown::{markdown_blocks, md_initial, md_run, md_step, MdEventView, MdState};
use crate::note::{
    after_command, after_docx, after_new_file, after_open_external, after_read_error, after_save,
    after_save_as, after_text, decoded_text, initial_note, plan_for_kind, CommandView, LoadPlan,
    NoteView,
};
use crate::srt::{srt_blocks, srt_entries, srt_entry};
use crate::block::{block_text, block_texts, document_text};
use crate::text::{
    contains, count_matches, decimal, index_of, is_digit, is_space, join, leading_space,
    lemma_decimal, lemma_index_of, lemma_index_of_is, lemma_leading_space_bound,
    lemma_leading_space_is, lemma_trailing_space_bound, lemma_trailing_space_is, lemma_trim_bounds,
    lemma_index_of_none, lines, matches_at, parse_u32, split_on, strip_cr, trailing_space, trim, trim_bounds, trim_end,
    trim_start,
    unicode_lowercase,
};

verus! {

/// Trimming twice is trimming once.
pub proof fn law_trim_idempotent(s: Seq<char>)
    ensures
        trim(trim(s)) == trim(s),
{
    lemma_trim_bounds(s);
    lemma_leading_space_bound(s);
    let a: int = trim_bounds(s).0;
    let b: int = trim_bounds(s).1;
    let u = s.skip(a);
    lemma_trailing_space_bound(u);
    let t = trim(s);
    assert(t =~= s.subrange(a, b));
    if t.len() > 0 {
        assert(t[0] == s[a]);
        assert(t[t.len() - 1] == u[u.len() - trailing_space(u) - 1]);
    }
    lemma_leading_space_is(t, 0);
    assert(t.skip(0) =~= t);
    lemma_trailing_space_is(t, 0);
    assert(t.take(t.len() as int) =~= t);
}

/// Whether a text is its own trim: no whitespace at either end.
pub open spec fn text_is_trimmed(t: Seq<char>) -> bool {
    trim(t) == t
}

/// Whether a block's text is trimmed, and a paragraph's is also non-empty.
pub open spec fn tidy_block(b: BlockView) -> bool {
    match b {
        BlockView::H1(t) => text_is_trimmed(t),
        BlockView::H2(t) => text_is_trimmed(t),
        BlockView::H3(t) => text_is_trimmed(t),
        BlockView::CodeBlock(t) => text_is_trimmed(t),
        BlockView::Quote(t) => text_is_trimmed(t),
        BlockView::ListItem(t) => text_is_trimmed(t),
        BlockView::Paragraph(t) => text_is_trimmed(t) && t.len() > 0,
        BlockView::Hr => true,
        BlockView::SrtEntry { .. } => true,
    }
}

proof fn lemma_md_step_tidy(s: MdState, e: MdEventView)
    ensures
        forall|i: int| 0 <= i < md_step(s, e).1.len() ==> tidy_block(#[trigger] md_step(s, e).1[i]),
{
    law_trim_idempotent(s.buf);
}

/// Every block read from Markdown holds trimmed text, and no paragraph is empty.
pub proof fn law_markdown_blocks_tidy(events: Seq<MdEventView>)
    ensures
        forall|i: int| 0 <= i < markdown_blocks(events).len() ==> tidy_block(#[trigger] markdown_blocks(events)[i]),
    decreases events.len(),
{
    if events.len() > 0 {
        law_markdown_blocks_tidy(events.drop_last());
        let (s, out) = md_run(events.drop_last());
        lemma_md_step_tidy(s, events.last());
        let all = markdown_blocks(events);
        assert(all =~= out + md_step(s, events.last()).1);
        assert forall|i: int| 0 <= i < all.len() implies tidy_block(#[trigger] all[i]) by {
            if i < out.len() {
                assert(all[i] == out[i]);
                assert(markdown_blocks(events.drop_last())[i] == out[i]);
            } else {
                assert(all[i] == md_step(s, events.last()).1[i - out.len()]);
            }
        }
    }
}

/// Whether a block is a heading or a paragraph with some non-whitespace text.
pub open spec fn has_visible_text(b: BlockView) -> bool {
    match b {
        BlockView::H1(t) => trim(t).len() > 0,
        BlockView::H2(t) => trim(t).len() > 0,
        BlockView::H3(t) => trim(t).len() > 0,
        BlockView::Paragraph(t) => trim(t).len() > 0,
        _ => false,
    }
}

/// Every block read from a Word document is a heading or a paragraph with
/// some non-whitespace text.
pub proof fn law_docx_blocks_visible(doc: Json)
    ensures
        forall|i: int| 0 <= i < docx_blocks(doc).len() ==> has_visible_text(#[trigger] docx_blocks(doc)[i]),
{
    lemma_children_visible(crate::json::items_or_empty(
        crate::json::member_of(crate::json::member(doc, "document"@), "children"@),
    ));
}

proof fn lemma_children_visible(children: Seq<Json>)
    ensures
        forall|i: int| 0 <= i < children_blocks(children).len() ==> has_visible_text(#[trigger] children_blocks(children)[i]),
    decreases children.len(),
{
    if children.len() > 0 {
        lemma_children_visible(children.drop_last());
        let out = children_blocks(children.drop_last());
        let all = children_blocks(children);
        assert forall|i: int| 0 <= i < all.len() implies has_visible_text(#[trigger] all[i]) by {
            if i < out.len() {
                assert(all[i] == out[i]);
            }
        }
    }
}

/// The lines of a text hold no line feed.
pub proof fn lemma_lines_single(s: Seq<char>)
    ensures
        forall|k: int| 0 <= k < lines(s).len() ==> !(#[trigger] lines(s)[k]).contains('\n'),
    decreases s.len(),
{
    let nl = seq!['\n'];
    lemma_index_of(s, nl);
    let i: int = index_of(s, nl);
    assert forall|j: int| 0 <= j < s.len() && s[j] == '\n' implies matches_at(s, nl, j) by {
        assert(s.subrange(j, j + 1) =~= nl);
    }
    if s.len() == 0 {
    } else if i < 0 {
        assert(lines(s) =~= seq![s]);
    } else {
        lemma_lines_single(s.skip(i + 1));
        let first = strip_cr(s.take(i));
        assert(!s.take(i).contains('\n'));
        assert(!first.contains('\n')) by {
            if first.contains('\n') {
                let j: int = choose|j: int| 0 <= j < first.len() && first[j] == '\n';
                assert(s.take(i)[j] == '\n');
            }
        }
        let rest = lines(s.skip(i + 1));
        assert(lines(s) =~= seq![first] + rest);
        assert forall|k: int| 0 <= k < lines(s).len() implies !(#[trigger] lines(s)[k]).contains('\n') by {
            if k > 0 {
                assert(lines(s)[k] == rest[k - 1]);
            }
        }
    }
}

/// A trim of a text that holds no line feed holds none.
proof fn lemma_trim_single(t: Seq<char>)
    requires
        !t.contains('\n'),
    ensures
        !trim(t).contains('\n'),
{
    lemma_trim_bounds(t);
    let (a, b): (int, int) = trim_bounds(t);
    if trim(t).contains('\n') {
        let j: int = choose|j: int| 0 <= j < trim(t).len() && trim(t)[j] == '\n';
        assert(t[a + j] == '\n');
    }
}

/// Whether a subtitle entry's time line is a single trimmed line.
pub open spec fn tidy_time(b: BlockView) -> bool {
    match b {
        BlockView::SrtEntry { time, .. } => trim(time) == time && !time.contains('\n'),
        _ => false,
    }
}

/// Every subtitle entry read from a file has a time line that is trimmed and
/// holds no line break.
pub proof fn law_srt_times_tidy(src: Seq<char>)
    ensures
        forall|i: int| 0 <= i < srt_blocks(src).len() ==> tidy_time(#[trigger] srt_blocks(src)[i]),
{
    lemma_entries_tidy(split_on(trim(src), seq!['\n', '\n']));
}

proof fn lemma_entries_tidy(chunks: Seq<Seq<char>>)
    ensures
        forall|i: int| 0 <= i < srt_entries(chunks).len() ==> tidy_time(#[trigger] srt_entries(chunks)[i]),
    decreases chunks.len(),
{
    if chunks.len() > 0 {
        lemma_entries_tidy(chunks.drop_last());
        let c = chunks.last();
        let ls = lines(c);
        if ls.len() >= 3 {
            lemma_lines_single(c);
            assert(!ls[1].contains('\n'));
            law_trim_idempotent(ls[1]);
            lemma_trim_single(ls[1]);
        }
        let out = srt_entries(chunks.drop_last());
        let all = srt_entries(chunks);
        assert forall|i: int| 0 <= i < all.len() implies tidy_time(#[trigger] all[i]) by {
            if i < out.len() {
                assert(all[i] == out[i]);
            }
        }
    }
}

/// The kind of a file does not depend on the letter case of its extension.
pub proof fn law_kind_ignores_case(e1: Seq<char>, e2: Seq<char>)
    requires
        unicode_lowercase(e1) == unicode_lowercase(e2),
    ensures
        kind_of_extension(Some(e1)) == kind_of_extension(Some(e2)),
{
}

/// Non-overlapping matches of a non-empty pattern cover no more than the text.
pub proof fn law_count_matches_bound(s: Seq<char>, pat: Seq<char>)
    requires
        pat.len() > 0,
    ensures
        count_matches(s, pat) * pat.len() <= s.len(),
    decreases s.len(),
{
    lemma_index_of(s, pat);
    let i: int = index_of(s, pat);
    if i >= 0 {
        let rest = s.skip(i + pat.len());
        law_count_matches_bound(rest, pat);
        let c: nat = count_matches(rest, pat);
        assert(count_matches(s, pat) == 1 + c);
        assert(rest.len() == s.len() - i - pat.len());
        assert((1 + c) * pat.len() == pat.len() + c * pat.len()) by (nonlinear_arith);
        assert(count_matches(s, pat) * pat.len() == (1 + c) * pat.len());
    } else {
        assert(count_matches(s, pat) == 0);
        assert(0 * pat.len() == 0);
    }
}

proof fn lemma_join_front(a: Seq<char>, ps: Seq<Seq<char>>, sep: Seq<char>)
    requires
        ps.len() >= 1,
    ensures
        join(seq![a] + ps, sep) == a + sep + join(ps, sep),
    decreases ps.len(),
{
    let all = seq![a] + ps;
    assert(all.len() >= 2);
    assert(join(all, sep) == join(all.drop_last(), sep) + sep + all.last());
    if ps.len() == 1 {
        assert(all.drop_last() =~= seq![a]);
        assert(join(seq![a], sep) == a);
        assert(all.last() == ps[0]);
        assert(join(ps, sep) == ps[0]);
    } else {
        lemma_join_front(a, ps.drop_last(), sep);
        assert(all.drop_last() =~= seq![a] + ps.drop_last());
        assert(all.last() == ps.last());
        assert(join(ps, sep) == join(ps.drop_last(), sep) + sep + ps.last());
        assert(a + sep + join(ps.drop_last(), sep) + sep + ps.last() =~= a + sep + (join(ps.drop_last(), sep) + sep + ps.last()));
    }
}

/// Cutting a text at a separator and joining the pieces with it gives the text back.
pub proof fn law_split_join(s: Seq<char>, pat: Seq<char>)
    requires
        pat.len() > 0,
    ensures
        join(split_on(s, pat), pat) == s,
    decreases s.len(),
{
    lemma_index_of(s, pat);
    let i: int = index_of(s, pat);
    if i >= 0 {
        let rest = s.skip(i + pat.len());
        law_split_join(rest, pat);
        let tail = split_on(rest, pat);
        assert(tail.len() >= 1) by {
            reveal_with_fuel(split_on, 1);
        }
        lemma_join_front(s.take(i), tail, pat);
        assert(s.subrange(i, i + pat.len()) == pat);
        assert(s.take(i) + pat + rest =~= s);
    }
}

/// A number written in decimal (as copied subtitle entries carry it) reads
/// back as the same number.
pub proof fn law_decimal_parses_back(n: u32)
    ensures
        parse_u32(decimal(n as nat)) == Some(n),
{
    lemma_decimal(n as nat);
}

/// A rendered paragraph is highlighted exactly when the find bar would count
/// a match of the search text in it: occurring and being counted agree.
pub proof fn law_contains_iff_counted(s: Seq<char>, q: Seq<char>)
    ensures
        contains(s, q) <==> count_matches(s, q) > 0,
{
    lemma_index_of(s, q);
    if q.len() == 0 {
        assert(s.take(0) =~= q);
    }
}

/// A line feed after a text without one ends the first line.
proof fn lemma_lines_front(a: Seq<char>, b: Seq<char>)
    requires
        !a.contains('\n'),
    ensures
        lines(a + seq!['\n'] + b) == seq![strip_cr(a)] + lines(b),
{
    let s = a + seq!['\n'] + b;
    let nl = seq!['\n'];
    assert(s.subrange(a.len() as int, a.len() + 1 as int) =~= nl);
    assert forall|j: int| 0 <= j < a.len() implies !#[trigger] matches_at(s, nl, j) by {
        if matches_at(s, nl, j) {
            assert(s.subrange(j, j + 1)[0] == s[j]);
            assert(a[j] == '\n');
        }
    }
    lemma_index_of_is(s, nl, a.len() as int);
    assert(s.take(a.len() as int) =~= a);
    assert(s.skip(a.len() + 1 as int) =~= b);
}

/// A text that is its own trim ends in no whitespace.
proof fn lemma_trimmed_ends(t: Seq<char>)
    requires
        trim(t) == t,
        t.len() > 0,
    ensures
        !is_space(t.last()),
{
    lemma_leading_space_bound(t);
    let u = t.skip(leading_space(t) as int);
    lemma_trailing_space_bound(u);
    assert(trim(t).len() == t.len() - leading_space(t) - trailing_space(u));
    assert(u =~= t);
}

/// A decimal numeral is its own trim and holds no line break.
proof fn lemma_decimal_plain(n: nat)
    ensures
        trim(decimal(n)) == decimal(n),
        !decimal(n).contains('\n'),
        strip_cr(decimal(n)) == decimal(n),
{
    lemma_decimal(n);
    let d = decimal(n);
    assert forall|i: int| 0 <= i < d.len() implies !is_space(#[trigger] d[i]) by {
        assert(is_digit(d[i]));
    }
    lemma_leading_space_is(d, 0);
    assert(d.skip(0) =~= d);
    lemma_trailing_space_is(d, 0);
    assert(d.take(d.len() as int) =~= d);
    if d.contains('\n') {
        let j: int = choose|j: int| 0 <= j < d.len() && d[j] == '\n';
        assert(is_digit(d[j]));
    }
    assert(is_digit(d.last()));
}

/// A subtitle entry, copied as text ([`block_text`]), reads back as the same
/// entry, when its time line is a single trimmed line and its text is
/// non-empty and is rebuilt by joining its own lines.
pub proof fn law_srt_entry_reads_back(index: u32, time: Seq<char>, text: Seq<char>)
    requires
        trim(time) == time,
        !time.contains('\n'),
        text.len() > 0,
        join(lines(text), seq!['\n']) == text,
    ensures
        srt_entry(block_text(BlockView::SrtEntry { index, time, text })) == Some(
            BlockView::SrtEntry { index, time, text },
        ),
{
    let d = decimal(index as nat);
    lemma_decimal_plain(index as nat);
    law_decimal_parses_back(index);
    let chunk = block_text(BlockView::SrtEntry { index, time, text });
    let rest = time + seq!['\n'] + text;
    assert(chunk =~= d + seq!['\n'] + rest);
    lemma_lines_front(d, rest);
    lemma_lines_front(time, text);
    if time.len() > 0 {
        lemma_trimmed_ends(time);
    }
    assert(strip_cr(time) == time);
    let ls = lines(chunk);
    assert(ls =~= seq![d, time] + lines(text));
    assert(lines(text).len() > 0);
    assert(ls.skip(2) =~= lines(text));
}

/// Showing or hiding the find bar twice leaves the state as it was.
pub proof fn law_toggle_find_twice(s: NoteView)
    ensures
        after_command(after_command(s, CommandView::ToggleFind), CommandView::ToggleFind) == s,
{
}

/// Switching the theme twice leaves the state as it was.
pub proof fn law_toggle_theme_twice(s: NoteView)
    ensures
        after_command(after_command(s, CommandView::ToggleTheme), CommandView::ToggleTheme) == s,
{
}

/// "New" twice is "New" once.
pub proof fn law_new_file_idempotent(s: NoteView)
    ensures
        after_new_file(after_new_file(s)) == after_new_file(s),
{
}

/// An edit marks the text modified, and a successful save clears the mark.
pub proof fn law_edit_then_save(s: NoteView)
    ensures
        after_command(s, CommandView::Edited).modified,
        !after_save(after_command(s, CommandView::Edited), None).modified,
{
}

/// A text that is saved (as its UTF-8 bytes) and read back as a file of any
/// kind is the text that was saved, unmodified.
pub proof fn law_saved_text_reads_back(s: NoteView, path: Seq<char>, kind: FileKind)
    ensures
        after_text(after_save(s, None), path, kind, decoded_text(encode_utf8(s.content))).content == s.content,
        !after_text(after_save(s, None), path, kind, decoded_text(encode_utf8(s.content))).modified,
{
    encode_utf8_valid_utf8(s.content);
    encode_utf8_decode_utf8(s.content);
}

/// A text with non-whitespace at both ends is its own trim.
proof fn lemma_trim_of_solid(s: Seq<char>)
    requires
        s.len() > 0,
        !is_space(s[0]),
        !is_space(s.last()),
    ensures
        trim(s) == s,
{
    assert(leading_space(s) == 0);
    assert(trim_start(s) =~= s);
    assert(trailing_space(s) == 0);
    assert(trim_end(s) =~= s);
}

/// A non-empty trimmed text starts with non-whitespace.
proof fn lemma_trimmed_front(t: Seq<char>)
    requires
        trim(t) == t,
        t.len() > 0,
    ensures
        !is_space(t[0]),
{
    lemma_leading_space_bound(t);
    let u = t.skip(leading_space(t) as int);
    lemma_trailing_space_bound(u);
    assert(trim(t).len() == t.len() - leading_space(t) - trailing_space(u));
    if is_space(t[0]) {
        assert(leading_space(t) >= 1);
    }
}

/// Cutting `a`, a blank line and `b` at each blank line cuts `a` and `b`
/// apart, when no blank line can begin at `a`'s last character.
proof fn lemma_split_blank_concat(a: Seq<char>, b: Seq<char>)
    requires
        a.len() == 0 || a.last() != '\n',
    ensures
        split_on(a + seq!['\n', '\n'] + b, seq!['\n', '\n']) == split_on(a, seq!['\n', '\n'])
            + split_on(b, seq!['\n', '\n']),
    decreases a.len(),
{
    let sep = seq!['\n', '\n'];
    let s = a + sep + b;
    lemma_index_of(a, sep);
    let i: int = index_of(a, sep);
    if i >= 0 {
        assert(s.subrange(i, i + 2) =~= a.subrange(i, i + 2));
        assert forall|j: int| 0 <= j < i implies !#[trigger] matches_at(s, sep, j) by {
            if matches_at(s, sep, j) {
                assert(s.subrange(j, j + 2) =~= a.subrange(j, j + 2));
                assert(matches_at(a, sep, j));
            }
        }
        lemma_index_of_is(s, sep, i);
        let a2 = a.skip(i + 2);
        lemma_split_blank_concat(a2, b);
        assert(s.skip(i + 2) =~= a2 + sep + b);
        assert(s.take(i) =~= a.take(i));
        assert(split_on(s, sep) =~= seq![a.take(i)] + split_on(a2, sep) + split_on(b, sep));
        assert(split_on(a, sep) =~= seq![a.take(i)] + split_on(a2, sep));
    } else {
        let k: int = a.len() as int;
        assert(s.subrange(k, k + 2) =~= sep);
        assert forall|j: int| 0 <= j < k implies !#[trigger] matches_at(s, sep, j) by {
            if matches_at(s, sep, j) {
                if j + 2 <= k {
                    assert(s.subrange(j, j + 2) =~= a.subrange(j, j + 2));
                    assert(matches_at(a, sep, j));
                } else {
                    assert(s.subrange(j, j + 2)[0] == s[j]);
                    assert(s[j] == a.last());
                }
            }
        }
        lemma_index_of_is(s, sep, k);
        assert(s.take(k) =~= a);
        assert(s.skip(k + 2) =~= b);
        assert(split_on(s, sep) =~= seq![a] + split_on(b, sep));
        assert(split_on(a, sep) =~= seq![a]);
    }
}

/// The entries of two runs of chunks are those of each, one after the other.
proof fn lemma_entries_concat(xs: Seq<Seq<char>>, ys: Seq<Seq<char>>)
    ensures
        srt_entries(xs + ys) == srt_entries(xs) + srt_entries(ys),
    decreases ys.len(),
{
    if ys.len() == 0 {
        assert(xs + ys =~= xs);
        assert(srt_entries(xs) + srt_entries(ys) =~= srt_entries(xs));
    } else {
        lemma_entries_concat(xs, ys.drop_last());
        assert((xs + ys).drop_last() =~= xs + ys.drop_last());
        assert((xs + ys).last() == ys.last());
        assert(srt_entries(xs + ys) =~= srt_entries(xs) + srt_entries(ys));
    }
}

/// A subtitle file made of two trimmed, non-empty parts with a blank line
/// between them reads as the entries of the first part followed by those of
/// the second.
pub proof fn law_srt_concat(a: Seq<char>, b: Seq<char>)
    requires
        trim(a) == a,
        trim(b) == b,
        a.len() > 0,
        b.len() > 0,
    ensures
        srt_blocks(a + seq!['\n', '\n'] + b) == srt_blocks(a) + srt_blocks(b),
{
    let sep = seq!['\n', '\n'];
    let s = a + sep + b;
    lemma_trimmed_ends(a);
    lemma_trimmed_front(a);
    lemma_trimmed_ends(b);
    assert(s[0] == a[0]);
    assert(s.last() == b.last());
    lemma_trim_of_solid(s);
    assert(is_space('\n'));
    lemma_split_blank_concat(a, b);
    lemma_entries_concat(split_on(a, sep), split_on(b, sep));
}

/// Whether a block is a subtitle entry whose copied text reads back as
/// itself: its time line is a single non-empty trimmed line, and its text is
/// non-empty, trimmed, holds no blank line and is rebuilt by joining its own
/// lines.
pub open spec fn is_plain_entry(b: BlockView) -> bool {
    match b {
        BlockView::SrtEntry { index, time, text } => {
            &&& time.len() > 0
            &&& trim(time) == time
            &&& !time.contains('\n')
            &&& text.len() > 0
            &&& trim(text) == text
            &&& !contains(text, seq!['\n', '\n'])
            &&& join(lines(text), seq!['\n']) == text
        },
        _ => false,
    }
}

/// The copied text of one such entry is a single chunk that reads back as
/// the entry, with non-whitespace at both ends.
proof fn lemma_plain_entry_text(b: BlockView)
    requires
        is_plain_entry(b),
    ensures
        srt_blocks(block_text(b)) == seq![b],
        block_text(b).len() > 0,
        !is_space(block_text(b)[0]),
        !is_space(block_text(b).last()),
{
    let sep = seq!['\n', '\n'];
    let (index, time, text) = match b {
        BlockView::SrtEntry { index, time, text } => (index, time, text),
        _ => (0u32, seq![], seq![]),
    };
    let d = decimal(index as nat);
    lemma_decimal(index as nat);
    lemma_decimal_plain(index as nat);
    let t = block_text(b);
    assert(t == d + seq!['\n'] + time + seq!['\n'] + text);
    assert(is_digit(d[0]));
    assert(t[0] == d[0]);
    lemma_trimmed_ends(text);
    lemma_trimmed_front(text);
    lemma_trimmed_ends(time);
    assert(t.last() == text.last());
    lemma_trim_of_solid(t);
    lemma_index_of(text, sep);
    let p1: int = d.len() as int;
    let p2: int = p1 + 1 + time.len();
    let p3: int = p2 + 1;
    assert forall|j: int| 0 <= j implies !#[trigger] matches_at(t, sep, j) by {
        if matches_at(t, sep, j) {
            assert(t.subrange(j, j + 2)[0] == t[j]);
            assert(t.subrange(j, j + 2)[1] == t[j + 1]);
            if j < p1 {
                assert(t[j] == d[j]);
                assert(d.contains(d[j]));
            } else if j == p1 {
                assert(t[j + 1] == time[0]);
                assert(time.contains(time[0]));
            } else if j < p2 {
                assert(t[j] == time[j - p1 - 1]);
                assert(time.contains(time[j - p1 - 1]));
            } else if j == p2 {
                assert(t[j + 1] == text[0]);
            } else {
                assert(t.subrange(j, j + 2) =~= text.subrange(j - p3, j - p3 + 2));
                assert(matches_at(text, sep, j - p3));
            }
        }
    }
    lemma_index_of_none(t, sep);
    assert(split_on(t, sep) =~= seq![t]);
    law_srt_entry_reads_back(index, time, text);
    assert(b == BlockView::SrtEntry { index, time, text });
    assert(srt_entry(t) == Some(b));
    let one = seq![t];
    assert(one.drop_last() =~= Seq::<Seq<char>>::empty());
    assert(one.last() == t);
    assert(srt_entries(one.drop_last()) =~= Seq::<BlockView>::empty());
    assert(srt_entries(one) == srt_entries(one.drop_last()) + seq![b]);
    assert(srt_entries(one) =~= seq![b]);
}

/// The copied text of a run of such entries reads back as those entries and
/// has non-whitespace at both ends.
proof fn lemma_plain_entries_text(bs: Seq<BlockView>)
    requires
        bs.len() > 0,
        forall|i: int| 0 <= i < bs.len() ==> is_plain_entry(#[trigger] bs[i]),
    ensures
        srt_blocks(join(block_texts(bs), seq!['\n', '\n'])) == bs,
        join(block_texts(bs), seq!['\n', '\n']).len() > 0,
        !is_space(join(block_texts(bs), seq!['\n', '\n'])[0]),
        !is_space(join(block_texts(bs), seq!['\n', '\n']).last()),
    decreases bs.len(),
{
    let sep = seq!['\n', '\n'];
    let texts = block_texts(bs);
    assert(is_plain_entry(bs[bs.len() - 1]));
    lemma_plain_entry_text(bs.last());
    if bs.len() == 1 {
        assert(texts[0] == block_text(bs[0]));
        assert(bs =~= seq![bs[0]]);
    } else {
        let init = bs.drop_last();
        assert forall|i: int| 0 <= i < init.len() implies is_plain_entry(#[trigger] init[i]) by {
            assert(init[i] == bs[i]);
        }
        lemma_plain_entries_text(init);
        assert(texts.drop_last() =~= block_texts(init));
        assert(texts.last() == block_text(bs.last()));
        let a = join(block_texts(init), sep);
        let c = block_text(bs.last());
        assert(join(texts, sep) == a + sep + c);
        lemma_trim_of_solid(a);
        lemma_trim_of_solid(c);
        law_srt_concat(a, c);
        assert(bs =~= init + seq![bs.last()]);
        assert((a + sep + c)[0] == a[0]);
        assert((a + sep + c).last() == c.last());
    }
}

/// Subtitle entries copied as text (as "Copy all" does, through
/// [`document_text`]) read back as the same entries, when each is a
/// [`is_plain_entry`]: its time line a single non-empty trimmed line, its
/// text non-empty, trimmed, free of blank lines and rebuilt by joining its
/// own lines.
pub proof fn law_srt_copy_reads_back(bs: Seq<BlockView>, content: Seq<char>)
    requires
        bs.len() > 0,
        forall|i: int| 0 <= i < bs.len() ==> is_plain_entry(#[trigger] bs[i]),
    ensures
        srt_blocks(document_text(bs, content)) == bs,
{
    lemma_plain_entries_text(bs);
}

/// What the editor's state always keeps: with no file open it shows plain
/// text with nothing rendered, and it never holds a kind of file that is
/// handed to another application.
pub open spec fn note_invariant(s: NoteView) -> bool {
    &&& s.file_path is None ==> s.file_kind == FileKind::PlainText && s.blocks.len() == 0
    &&& s.file_kind != FileKind::Binary
}

/// The editor starts in a state that keeps [`note_invariant`], and every
/// action and every finished outside operation keeps it: handing a file to
/// another application, reading a Word document, reading a text file of the
/// kind that the load plan gives, a failed read, and saving.
pub proof fn law_note_invariant(
    s: NoteView,
    c: CommandView,
    path: Seq<char>,
    planned: FileKind,
    text: Seq<char>,
    opened: Result<Seq<char>, Seq<char>>,
    docx: Result<Seq<BlockView>, Seq<char>>,
    read_error: Seq<char>,
    save_error: Option<Seq<char>>,
)
    requires
        note_invariant(s),
    ensures
        note_invariant(initial_note()),
        note_invariant(after_command(s, c)),
        note_invariant(after_open_external(s, opened)),
        note_invariant(after_docx(s, path, docx)),
        plan_for_kind(planned) matches LoadPlan::ReadText(k) ==> note_invariant(after_text(s, path, k, text)),
        note_invariant(after_read_error(s, read_error)),
        note_invariant(after_save(s, save_error)),
        note_invariant(after_save_as(s, path, save_error)),
{
}

/// Reading a stream of events that follows one which ends outside every
/// element carries on from the initial state.
proof fn lemma_md_run_concat(e1: Seq<MdEventView>, e2: Seq<MdEventView>)
    requires
        md_run(e1).0 == md_initial(),
    ensures
        md_run(e1 + e2) == (md_run(e2).0, md_run(e1).1 + md_run(e2).1),
    decreases e2.len(),
{
    if e2.len() == 0 {
        assert(e1 + e2 =~= e1);
        assert(md_run(e1).1 + md_run(e2).1 =~= md_run(e1).1);
    } else {
        lemma_md_run_concat(e1, e2.drop_last());
        assert((e1 + e2).drop_last() =~= e1 + e2.drop_last());
        assert((e1 + e2).last() == e2.last());
        let (s, out) = md_run(e2.drop_last());
        let (s2, more) = md_step(s, e2.last());
        assert(md_run(e2) == (s2, out + more));
        assert(md_run(e1).1 + out + more =~= md_run(e1).1 + (out + more));
    }
}

/// Two Markdown event streams one after the other give the blocks of the
/// first followed by those of the second, when the first ends outside every
/// element (its reading leaves the initial state).
pub proof fn law_markdown_blocks_concat(e1: Seq<MdEventView>, e2: Seq<MdEventView>)
    requires
        md_run(e1).0 == md_initial(),
    ensures
        markdown_blocks(e1 + e2) == markdown_blocks(e1) + markdown_blocks(e2),
{
    lemma_md_run_concat(e1, e2);
}

/// A text with no `\r` that does not end in a line break is rebuilt by
/// joining its lines with line breaks.
proof fn lemma_join_lines(s: Seq<char>)
    requires
        !s.contains('\r'),
        s.len() == 0 || s.last() != '\n',
    ensures
        join(lines(s), seq!['\n']) == s,
    decreases s.len(),
{
    let nl = seq!['\n'];
    lemma_index_of(s, nl);
    let i: int = index_of(s, nl);
    if s.len() == 0 {
    } else if i < 0 {
    } else {
        assert(s.subrange(i, i + 1)[0] == s[i]);
        assert(i < s.len() - 1);
        let rest = s.skip(i + 1);
        assert(rest.last() == s.last());
        if rest.contains('\r') {
            let k: int = choose|k: int| 0 <= k < rest.len() && rest[k] == '\r';
            assert(s[i + 1 + k] == '\r');
        }
        lemma_join_lines(rest);
        let head = s.take(i);
        if head.len() > 0 && head.last() == '\r' {
            assert(s[i - 1] == '\r');
        }
        assert(strip_cr(head) == head);
        assert(lines(s) == seq![head] + lines(rest));
        assert(lines(rest).len() >= 1);
        lemma_join_front(head, lines(rest), nl);
        assert(head + nl + rest =~= s);
    }
}

/// Whether a chunk of a subtitle file holds no `\r`, does not end in a line
/// break and holds no blank line.
pub open spec fn clean_chunk(c: Seq<char>) -> bool {
    &&& !c.contains('\r')
    &&& (c.len() == 0 || c.last() != '\n')
    &&& index_of(c, seq!['\n', '\n']) < 0
}

/// Whether every chunk is clean.
pub open spec fn all_clean(chunks: Seq<Seq<char>>) -> bool {
    forall|k: int| 0 <= k < chunks.len() ==> clean_chunk(#[trigger] chunks[k])
}

/// Cutting a text with no `\r` that does not end in a line break at each
/// blank line gives clean chunks.
proof fn lemma_split_clean(s: Seq<char>)
    requires
        !s.contains('\r'),
        s.len() == 0 || s.last() != '\n',
    ensures
        all_clean(split_on(s, seq!['\n', '\n'])),
    decreases s.len(),
{
    let sep = seq!['\n', '\n'];
    lemma_index_of(s, sep);
    let i: int = index_of(s, sep);
    let pieces = split_on(s, sep);
    if i < 0 {
        assert(pieces =~= seq![s]);
        assert(clean_chunk(s));
    } else {
        let head = s.take(i);
        let rest = s.skip(i + 2);
        assert(pieces =~= seq![head] + split_on(rest, sep));
        if head.contains('\r') {
            let k: int = choose|k: int| 0 <= k < head.len() && head[k] == '\r';
            assert(s[k] == '\r');
        }
        if head.len() > 0 && head.last() == '\n' {
            assert(s.subrange(i, i + 2)[0] == s[i]);
            assert(s.subrange(i - 1, i + 1) =~= sep);
            assert(matches_at(s, sep, i - 1));
        }
        assert forall|j: int| 0 <= j implies !#[trigger] matches_at(head, sep, j) by {
            if matches_at(head, sep, j) {
                assert(s.subrange(j, j + 2) =~= head.subrange(j, j + 2));
                assert(matches_at(s, sep, j));
            }
        }
        lemma_index_of_none(head, sep);
        assert(clean_chunk(head));
        if rest.contains('\r') {
            let k: int = choose|k: int| 0 <= k < rest.len() && rest[k] == '\r';
            assert(s[i + 2 + k] == '\r');
        }
        if rest.len() > 0 {
            assert(rest.last() == s.last());
        }
        lemma_split_clean(rest);
        assert forall|k: int| 0 <= k < pieces.len() implies clean_chunk(#[trigger] pieces[k]) by {
            if k > 0 {
                assert(pieces[k] == split_on(rest, sep)[k - 1]);
                assert(clean_chunk(split_on(rest, sep)[k - 1]));
            }
        }
    }
}

/// Whether a block is a subtitle entry with a non-empty time line and a
/// non-empty, trimmed text.
pub open spec fn is_filled_entry(b: BlockView) -> bool {
    match b {
        BlockView::SrtEntry { time, text, .. } => time.len() > 0 && text.len() > 0 && trim(text) == text,
        _ => false,
    }
}

/// The entry of a clean chunk, when filled, is a plain entry.
proof fn lemma_clean_chunk_entry(c: Seq<char>)
    requires
        clean_chunk(c),
        srt_entry(c) matches Some(b) && is_filled_entry(b),
    ensures
        srt_entry(c) matches Some(b) && is_plain_entry(b),
{
    let nl = seq!['\n'];
    let sep = seq!['\n', '\n'];
    let ls = lines(c);
    assert(ls.len() >= 3);
    lemma_index_of(c, nl);
    let i1: int = index_of(c, nl);
    assert(i1 >= 0);
    let c1 = c.skip(i1 + 1);
    assert(ls == seq![strip_cr(c.take(i1))] + lines(c1));
    assert(lines(c1).len() >= 2);
    lemma_index_of(c1, nl);
    let i2: int = index_of(c1, nl);
    assert(i2 >= 0);
    let r = c1.skip(i2 + 1);
    assert(lines(c1) == seq![strip_cr(c1.take(i2))] + lines(r));
    assert(ls.skip(2) =~= lines(r));
    let off: int = i1 + 1 + i2 + 1;
    assert forall|k: int| 0 <= k < r.len() implies r[k] == #[trigger] c[off + k] by {}
    if r.contains('\r') {
        let k: int = choose|k: int| 0 <= k < r.len() && r[k] == '\r';
        assert(c[off + k] == '\r');
    }
    if r.len() > 0 {
        assert(r.last() == c[off + r.len() - 1]);
    }
    lemma_join_lines(r);
    let text = join(ls.skip(2), nl);
    assert(text == r);
    lemma_join_lines(text);
    lemma_index_of(r, sep);
    lemma_index_of(c, sep);
    if index_of(r, sep) >= 0 {
        let k: int = index_of(r, sep);
        assert(c.subrange(off + k, off + k + 2) =~= r.subrange(k, k + 2));
        assert(matches_at(c, sep, off + k));
    }
    assert(!contains(text, sep));
    lemma_lines_single(c);
    assert(!ls[1].contains('\n'));
    law_trim_idempotent(ls[1]);
    lemma_trim_single(ls[1]);
}

/// The filled entries of clean chunks are plain entries.
proof fn lemma_clean_entries(chunks: Seq<Seq<char>>)
    requires
        all_clean(chunks),
    ensures
        forall|i: int| 0 <= i < srt_entries(chunks).len() && is_filled_entry(#[trigger] srt_entries(chunks)[i])
            ==> is_plain_entry(srt_entries(chunks)[i]),
    decreases chunks.len(),
{
    if chunks.len() > 0 {
        let init = chunks.drop_last();
        assert forall|k: int| 0 <= k < init.len() implies clean_chunk(#[trigger] init[k]) by {
            assert(init[k] == chunks[k]);
        }
        lemma_clean_entries(init);
        let c = chunks.last();
        assert(clean_chunk(chunks[chunks.len() - 1]));
        if srt_entry(c) matches Some(b) && is_filled_entry(b) {
            lemma_clean_chunk_entry(c);
        }
        let out = srt_entries(init);
        let all = srt_entries(chunks);
        assert forall|i: int| 0 <= i < all.len() && is_filled_entry(#[trigger] all[i]) implies is_plain_entry(all[i]) by {
            if i < out.len() {
                assert(all[i] == out[i]);
            }
        }
    }
}

/// Every subtitle entry read from a file with no `\r` whose time line is
/// not empty and whose text is non-empty and trimmed is a plain entry
/// ([`is_plain_entry`]), so its copied text reads back.
pub proof fn law_srt_filled_entries_plain(src: Seq<char>)
    requires
        !src.contains('\r'),
    ensures
        forall|i: int| 0 <= i < srt_blocks(src).len() && is_filled_entry(#[trigger] srt_blocks(src)[i])
            ==> is_plain_entry(srt_blocks(src)[i]),
{
    let t = trim(src);
    lemma_trim_bounds(src);
    let (a, b): (int, int) = trim_bounds(src);
    if t.contains('\r') {
        let k: int = choose|k: int| 0 <= k < t.len() && t[k] == '\r';
        assert(src[a + k] == '\r');
    }
    if t.len() > 0 {
        law_trim_idempotent(src);
        lemma_trimmed_ends(t);
        assert(is_space('\n'));
    }
    lemma_split_clean(t);
    lemma_clean_entries(split_on(t, seq!['\n', '\n']));
}

/// A subtitle file with no `\r`, whose entries all have a non-empty time
/// line and a non-empty, trimmed text, reads back as the same entries from
/// its entries copied as text (as "Copy all" does).
pub proof fn law_srt_file_copy_reads_back(src: Seq<char>, content: Seq<char>)
    requires
        !src.contains('\r'),
        srt_blocks(src).len() > 0,
        forall|i: int| 0 <= i < srt_blocks(src).len() ==> is_filled_entry(#[trigger] srt_blocks(src)[i]),
    ensures
        srt_blocks(document_text(srt_blocks(src), content)) == srt_blocks(src),
{
    law_srt_filled_entries_plain(src);
    let bs = srt_blocks(src);
    assert forall|i: int| 0 <= i < bs.len() implies is_plain_entry(#[trigger] bs[i]) by {
        assert(is_filled_entry(bs[i]));
    }
    law_srt_copy_reads_back(bs, content);
}

} // verus!
