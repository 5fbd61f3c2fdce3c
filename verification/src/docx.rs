//! Word (`.docx`) documents as headings and paragraphs, read through
//! docx-rs's JSON form of the document.
use vstd::prelude::*;
use serde_json::Value;
use docx_rs::{Docx, ReaderError};
use crate::block::{view_blocks, Block, BlockView};
use crate::json::{
    items_or_empty, json_array, json_error_text, json_get, json_str, json_value, json_values,
    json_of_text, member, member_of, parse_json, str_or_empty, Json,
};
use crate::text::{
    chars_of, contains, contains_chars, eq_str, extend_chars, string_of, to_lowercase, trim,
    trim_range, unicode_lowercase,
};

verus! {

#[verifier::external_type_specification]
#[verifier::external_body]
pub struct ExDocx(Docx);

#[verifier::external_type_specification]
#[verifier::external_body]
pub struct ExReaderError(ReaderError);

/// The text of one run child: the `data.text` of a child of type `text`.
pub open spec fn piece_text(rc: Json) -> Seq<char> {
    if str_or_empty(member(rc, "type"@)) == "text"@ {
        str_or_empty(member_of(member(rc, "data"@), "text"@))
    } else {
        seq![]
    }
}

/// The texts of a run's children, one after another.
pub open spec fn pieces_text(items: Seq<Json>) -> Seq<char>
    decreases items.len(),
{
    if items.len() == 0 {
        seq![]
    } else {
        pieces_text(items.drop_last()) + piece_text(items.last())
    }
}

/// The text of one paragraph child: the text of the `data.children` of a
/// child of type `run`.
pub open spec fn run_text(run: Json) -> Seq<char> {
    if str_or_empty(member(run, "type"@)) == "run"@ {
        pieces_text(items_or_empty(member_of(member(run, "data"@), "children"@)))
    } else {
        seq![]
    }
}

/// The texts of a paragraph's children, one after another.
pub open spec fn runs_text(runs: Seq<Json>) -> Seq<char>
    decreases runs.len(),
{
    if runs.len() == 0 {
        seq![]
    } else {
        runs_text(runs.drop_last()) + run_text(runs.last())
    }
}

/// The text of a paragraph's `data`.
pub open spec fn paragraph_text(data: Json) -> Seq<char> {
    runs_text(items_or_empty(member(data, "children"@)))
}

/// The block for a paragraph text and its lowercased style name: `heading1`
/// or `title` make a first-level heading, `heading2` and `heading3` the next
/// levels, anything else a paragraph.
pub open spec fn styled_block(style: Seq<char>, text: Seq<char>) -> BlockView {
    if contains(style, "heading1"@) || style == "title"@ {
        BlockView::H1(text)
    } else if contains(style, "heading2"@) {
        BlockView::H2(text)
    } else if contains(style, "heading3"@) {
        BlockView::H3(text)
    } else {
        BlockView::Paragraph(text)
    }
}

/// The block of one document child: only paragraphs with `data` and some
/// non-whitespace text make one.
pub open spec fn child_block(child: Json) -> Option<BlockView> {
    if str_or_empty(member(child, "type"@)) != "paragraph"@ {
        None
    } else {
        match member(child, "data"@) {
            None => None,
            Some(data) => {
                let text = paragraph_text(data);
                if trim(text).len() == 0 {
                    None
                } else {
                    let style = str_or_empty(member_of(member(data, "property"@), "style"@));
                    Some(styled_block(unicode_lowercase(style), text))
                }
            },
        }
    }
}

/// The blocks of a sequence of document children.
pub open spec fn children_blocks(children: Seq<Json>) -> Seq<BlockView>
    decreases children.len(),
{
    if children.len() == 0 {
        seq![]
    } else {
        children_blocks(children.drop_last()) + match child_block(children.last()) {
            Some(b) => seq![b],
            None => seq![],
        }
    }
}

/// The blocks of docx-rs's JSON form of a document: one per child of
/// `document.children` that [`child_block`] accepts.
pub open spec fn docx_blocks(doc: Json) -> Seq<BlockView> {
    children_blocks(items_or_empty(member_of(member(doc, "document"@), "children"@)))
}

/// Why a Word document could not be read.
#[derive(Debug, Clone, PartialEq)]
pub enum DocxError {
    /// docx-rs could not read the file; its description of the failure.
    Unreadable(String),
    /// The document's JSON form did not parse; serde_json's message.
    BadJson(String),
}

impl DocxError {
    /// The message shown for this error.
    pub fn message(&self) -> (m: String)
        ensures
            m@ == (match self {
                DocxError::Unreadable(d) => d@,
                DocxError::BadJson(e) => "JSON parse error: "@ + e@,
            }),
    {
        match self {
            DocxError::Unreadable(d) => d.clone(),
            DocxError::BadJson(e) => {
                let mut m = chars_of("JSON parse error: ");
                extend_chars(&mut m, &chars_of(e.as_str()));
                string_of(&m)
            },
        }
    }
}

/// The text of member `key`, or empty when it is missing or not a string.
fn str_member(v: &Value, key: &str) -> (r: Vec<char>)
    ensures
        r@ == str_or_empty(member(json_value(*v), key@)),
{
    match json_get(v, key) {
        Some(x) => match json_str(x) {
            Some(t) => chars_of(t),
            None => Vec::new(),
        },
        None => Vec::new(),
    }
}

/// The text of member `inner` of member `outer`, or empty.
fn str_member2(v: &Value, outer: &str, inner: &str) -> (r: Vec<char>)
    ensures
        r@ == str_or_empty(member_of(member(json_value(*v), outer@), inner@)),
{
    match json_get(v, outer) {
        Some(x) => str_member(x, inner),
        None => Vec::new(),
    }
}

/// The items of member `inner` of member `outer`, if it is an array.
fn array_member2<'a>(v: &'a Value, outer: &str, inner: &str) -> (r: Option<&'a Vec<Value>>)
    ensures
        match r {
            Some(items) => items_or_empty(member_of(member(json_value(*v), outer@), inner@)) == json_values(items@),
            None => items_or_empty(member_of(member(json_value(*v), outer@), inner@)) == Seq::<Json>::empty(),
        },
{
    match json_get(v, outer) {
        Some(x) => match json_get(x, inner) {
            Some(y) => json_array(y),
            None => None,
        },
        None => None,
    }
}

/// The text of one run (see [`run_text`]).
fn run_chars(run: &Value) -> (r: Vec<char>)
    ensures
        r@ == run_text(json_value(*run)),
{
    let mut out: Vec<char> = Vec::new();
    if !eq_str(&str_member(run, "type"), "run") {
        return out;
    }
    if let Some(items) = array_member2(run, "data", "children") {
        let ghost js = json_values(items@);
        let mut i: usize = 0;
        while i < items.len()
            invariant
                i <= items.len(),
                js == json_values(items@),
                out@ == pieces_text(js.take(i as int)),
            decreases items.len() - i,
        {
            let rc = &items[i];
            if eq_str(&str_member(rc, "type"), "text") {
                extend_chars(&mut out, &str_member2(rc, "data", "text"));
            }
            proof {
                assert(js.take(i + 1).drop_last() =~= js.take(i as int));
                assert(js.take(i + 1).last() == json_value(*rc));
            }
            i = i + 1;
        }
        assert(js.take(items.len() as int) =~= js);
    }
    out
}

/// The text of a paragraph's `data` (see [`paragraph_text`]).
fn paragraph_chars(data: &Value) -> (r: Vec<char>)
    ensures
        r@ == paragraph_text(json_value(*data)),
{
    let mut out: Vec<char> = Vec::new();
    let runs = match json_get(data, "children") {
        Some(x) => json_array(x),
        None => None,
    };
    if let Some(runs) = runs {
        let ghost js = json_values(runs@);
        let mut i: usize = 0;
        while i < runs.len()
            invariant
                i <= runs.len(),
                js == json_values(runs@),
                out@ == runs_text(js.take(i as int)),
            decreases runs.len() - i,
        {
            extend_chars(&mut out, &run_chars(&runs[i]));
            proof {
                assert(js.take(i + 1).drop_last() =~= js.take(i as int));
            }
            i = i + 1;
        }
        assert(js.take(runs.len() as int) =~= js);
    }
    out
}

/// The block for a paragraph text and its lowercased style name (see
/// [`styled_block`]).
pub fn block_for_style(style: &str, text: String) -> (b: Block)
    ensures
        b@ == styled_block(style@, text@),
{
    let s = chars_of(style);
    if contains_chars(&s, &chars_of("heading1")) || eq_str(&s, "title") {
        Block::H1(text)
    } else if contains_chars(&s, &chars_of("heading2")) {
        Block::H2(text)
    } else if contains_chars(&s, &chars_of("heading3")) {
        Block::H3(text)
    } else {
        Block::Paragraph(text)
    }
}

/// The block of one document child (see [`child_block`]).
fn child_block_of(child: &Value) -> (r: Option<Block>)
    ensures
        match r {
            Some(b) => child_block(json_value(*child)) == Some(b@),
            None => child_block(json_value(*child)) is None,
        },
{
    if !eq_str(&str_member(child, "type"), "paragraph") {
        return None;
    }
    let data = match json_get(child, "data") {
        Some(d) => d,
        None => return None,
    };
    let text = paragraph_chars(data);
    let (a, b): (usize, usize) = trim_range(&text);
    if a == b {
        return None;
    }
    let style = str_member2(data, "property", "style");
    let lower = to_lowercase(string_of(&style).as_str());
    Some(block_for_style(lower.as_str(), string_of(&text)))
}

/// The blocks of docx-rs's JSON form of a document (see [`docx_blocks`]).
pub fn blocks_of_docx_value(doc: &Value) -> (blocks: Vec<Block>)
    ensures
        view_blocks(blocks@) == docx_blocks(json_value(*doc)),
{
    let mut blocks: Vec<Block> = Vec::new();
    if let Some(children) = array_member2(doc, "document", "children") {
        let ghost js = json_values(children@);
        let mut i: usize = 0;
        while i < children.len()
            invariant
                i <= children.len(),
                js == json_values(children@),
                view_blocks(blocks@) == children_blocks(js.take(i as int)),
            decreases children.len() - i,
        {
            let ghost before = blocks@;
            proof {
                assert(js.take(i + 1).drop_last() =~= js.take(i as int));
            }
            match child_block_of(&children[i]) {
                Some(b) => {
                    blocks.push(b);
                    assert(view_blocks(blocks@) =~= view_blocks(before) + seq![b@]);
                },
                None => {},
            }
            i = i + 1;
        }
        assert(js.take(children.len() as int) =~= js);
    }
    blocks
}

/// The blocks of a document's JSON text: an error exactly when serde_json
/// reads no JSON value from it, and else [`docx_blocks`] of that value.
pub fn blocks_of_docx_json(json: &str) -> (r: Result<Vec<Block>, DocxError>)
    ensures
        match json_of_text(json@) {
            Some(j) => r matches Ok(blocks) && view_blocks(blocks@) == docx_blocks(j),
            None => r matches Err(DocxError::BadJson(_)),
        },
{
    match parse_json(json) {
        Ok(v) => Ok(blocks_of_docx_value(&v)),
        Err(e) => Err(DocxError::BadJson(json_error_text(&e))),
    }
}

/// docx-rs's JSON form of a document, through `Docx::json`. Nothing is stated
/// of the text: it is a function of docx-rs's own numbering state as well as
/// of the document.
#[verifier::external_body]
fn docx_json(docx: &Docx) -> (json: String) {
    docx.json()
}

/// docx-rs's description of a read failure (its `Debug` form). Nothing is
/// stated of the text: for a failure that carries an I/O error it holds the
/// system's message, which depends on the machine.
#[verifier::external_body]
fn reader_error_text(e: &ReaderError) -> String {
    format!("{:?}", e)
}

/// The blocks of a Word document as docx-rs read it (`docx_rs::read_docx`
/// on the file's bytes): a read failure is `Unreadable`; a document's JSON
/// form is read by [`blocks_of_docx_json`].
pub fn parse_docx(read: Result<Docx, ReaderError>) -> (r: Result<Vec<Block>, DocxError>)
    ensures
        read is Err <==> r matches Err(DocxError::Unreadable(_)),
        r matches Ok(blocks) ==> exists|t: Seq<char>|
            #[trigger] json_of_text(t) matches Some(j) && view_blocks(blocks@) == docx_blocks(j),
        r matches Err(DocxError::BadJson(_)) ==> exists|t: Seq<char>| #[trigger] json_of_text(t) is None,
{
    let docx = match read {
        Ok(d) => d,
        Err(e) => return Err(DocxError::Unreadable(reader_error_text(&e))),
    };
    let json = docx_json(&docx);
    let r = blocks_of_docx_json(json.as_str());
    assert(json_of_text(json@) == json_of_text(json@));
    r
}

} // verus!
