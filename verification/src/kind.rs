//! The kind of a file, told by its extension.
use vstd::prelude::*;
use crate::text::{
    ascii_lowercase, chars_of, eq_str, is_ascii_text, is_infix, owned, to_lowercase, unicode_lowercase,
};

verus! {

/// How a file is shown.
#[derive(Debug, Clone, Copy, PartialEq, Eq, Structural)]
pub enum FileKind {
    PlainText,
    Markdown,
    Docx,
    Srt,
    Binary,
}

/// Extensions of files that are handed to the system's default application.
pub open spec fn is_binary_extension(e: Seq<char>) -> bool {
    ||| e == "pdf"@ || e == "png"@ || e == "jpg"@ || e == "jpeg"@ || e == "gif"@ || e == "bmp"@
    ||| e == "webp"@ || e == "svg"@ || e == "ico"@
    ||| e == "mp4"@ || e == "mp3"@ || e == "wav"@ || e == "ogg"@ || e == "avi"@ || e == "mkv"@
    ||| e == "mov"@ || e == "flac"@
    ||| e == "doc"@ || e == "xlsx"@ || e == "xls"@ || e == "pptx"@ || e == "ppt"@ || e == "odt"@
    ||| e == "ods"@ || e == "odp"@
    ||| e == "zip"@ || e == "rar"@ || e == "7z"@ || e == "tar"@ || e == "gz"@ || e == "bz2"@
    ||| e == "exe"@ || e == "dll"@ || e == "msi"@ || e == "bin"@ || e == "dat"@ || e == "iso"@
}

/// The kind that a lowercased extension stands for.
pub open spec fn kind_of_lower(e: Option<Seq<char>>) -> FileKind {
    match e {
        Some(x) => if x == "md"@ || x == "markdown"@ {
            FileKind::Markdown
        } else if x == "docx"@ {
            FileKind::Docx
        } else if x == "srt"@ {
            FileKind::Srt
        } else if is_binary_extension(x) {
            FileKind::Binary
        } else {
            FileKind::PlainText
        },
        None => FileKind::PlainText,
    }
}

/// The kind that an extension stands for, whatever its letter case.
pub open spec fn kind_of_extension(e: Option<Seq<char>>) -> FileKind {
    match e {
        Some(x) => kind_of_lower(Some(unicode_lowercase(x))),
        None => FileKind::PlainText,
    }
}

/// Whether `e` can be what std's `Path::extension` finds in `path`: the text
/// after a `.` in the path, holding no `.` and no `/`.
pub open spec fn extension_in(path: Seq<char>, e: Seq<char>) -> bool {
    &&& !e.contains('.')
    &&& !e.contains('/')
    &&& is_infix(seq!['.'] + e, path)
}

/// Whether `path` is a single file name on every platform: not empty, no
/// separator (`/`, `\\`), no drive colon, and neither `.` nor `..`.
pub open spec fn is_plain_file_name(path: Seq<char>) -> bool {
    &&& path.len() > 0
    &&& !path.contains('/')
    &&& !path.contains('\\')
    &&& !path.contains(':')
    &&& path != seq!['.']
    &&& path != seq!['.', '.']
}

/// The position of the last `c` in `s`, or -1.
pub open spec fn last_index_of(s: Seq<char>, c: char) -> int
    decreases s.len(),
{
    if s.len() == 0 {
        -1
    } else if s.last() == c {
        s.len() - 1
    } else {
        last_index_of(s.drop_last(), c)
    }
}

/// The text after the last `/` of a path (the whole path when it has none).
pub open spec fn final_name(path: Seq<char>) -> Seq<char> {
    path.skip(last_index_of(path, '/') + 1)
}

/// Whether every platform reads `path` as some directories followed by the
/// file name [`final_name`]: that name is a plain file name, and the path
/// holds no `\\` or `:` and does not start with `//` (which Windows reads as
/// a network share). A plain file name alone is such a path too.
pub open spec fn is_simple_path(path: Seq<char>) -> bool {
    &&& is_plain_file_name(final_name(path))
    &&& !path.contains('\\')
    &&& !path.contains(':')
    &&& !(path.len() >= 2 && path[0] == '/' && path[1] == '/')
}

/// Whether std's `Path::file_name` documents `path` as having no file name:
/// the root `/`, or a path that ends in `..`.
pub open spec fn has_no_file_name(path: Seq<char>) -> bool {
    ||| path == seq!['/']
    ||| path == seq!['.', '.']
    ||| (path.len() >= 3 && path.skip(path.len() - 3) == seq!['/', '.', '.'])
}

/// The extension of a file name as std's `Path::extension` documents it: the
/// text after the last `.`, unless there is no `.` or the only one starts the name.
pub open spec fn name_extension(name: Seq<char>) -> Option<Seq<char>> {
    let i: int = last_index_of(name, '.');
    if i <= 0 {
        None
    } else {
        Some(name.skip(i + 1))
    }
}

/// The view of an optional string.
pub open spec fn opt_chars(o: Option<String>) -> Option<Seq<char>> {
    match o {
        Some(s) => Some(s@),
        None => None,
    }
}

fn is_binary_extension_chars(e: &Vec<char>) -> (b: bool)
    ensures
        b == is_binary_extension(e@),
{
    eq_str(e, "pdf") || eq_str(e, "png") || eq_str(e, "jpg") || eq_str(e, "jpeg") || eq_str(e, "gif")
        || eq_str(e, "bmp") || eq_str(e, "webp") || eq_str(e, "svg") || eq_str(e, "ico") || eq_str(
        e,
        "mp4",
    ) || eq_str(e, "mp3") || eq_str(e, "wav") || eq_str(e, "ogg") || eq_str(e, "avi") || eq_str(
        e,
        "mkv",
    ) || eq_str(e, "mov") || eq_str(e, "flac") || eq_str(e, "doc") || eq_str(e, "xlsx") || eq_str(
        e,
        "xls",
    ) || eq_str(e, "pptx") || eq_str(e, "ppt") || eq_str(e, "odt") || eq_str(e, "ods") || eq_str(
        e,
        "odp",
    ) || eq_str(e, "zip") || eq_str(e, "rar") || eq_str(e, "7z") || eq_str(e, "tar") || eq_str(
        e,
        "gz",
    ) || eq_str(e, "bz2") || eq_str(e, "exe") || eq_str(e, "dll") || eq_str(e, "msi") || eq_str(
        e,
        "bin",
    ) || eq_str(e, "dat") || eq_str(e, "iso")
}

/// The kind that an already lowercased extension stands for.
pub fn kind_of_lower_extension(e: Option<&str>) -> (k: FileKind)
    ensures
        k == kind_of_lower(match e {
            Some(x) => Some(x@),
            None => None,
        }),
{
    match e {
        None => FileKind::PlainText,
        Some(x) => {
            let v = chars_of(x);
            if eq_str(&v, "md") || eq_str(&v, "markdown") {
                FileKind::Markdown
            } else if eq_str(&v, "docx") {
                FileKind::Docx
            } else if eq_str(&v, "srt") {
                FileKind::Srt
            } else if is_binary_extension_chars(&v) {
                FileKind::Binary
            } else {
                FileKind::PlainText
            }
        },
    }
}

/// The kind that an extension stands for, compared without regard to case.
pub fn kind_for_extension(e: Option<&str>) -> (k: FileKind)
    ensures
        k == kind_of_extension(match e {
            Some(x) => Some(x@),
            None => None,
        }),
        e matches Some(x) ==> (is_ascii_text(x@) ==> k == kind_of_lower(Some(ascii_lowercase(x@)))),
{
    match e {
        None => FileKind::PlainText,
        Some(x) => {
            let lower = to_lowercase(x);
            kind_of_lower_extension(Some(lower.as_str()))
        },
    }
}

/// The extension of a path, through std's `Path::extension`. Trusted: a
/// result is text that follows a `.` in the path and holds no `.` or `/`; a
/// path with no `.` has none; and a path that every platform splits into
/// directories and a file name ([`is_simple_path`]) has the extension of that
/// name as std documents it ([`name_extension`]). For other paths the
/// components depend on the platform's separators, and which `.` counts is
/// left unsaid.
#[verifier::external_body]
fn path_extension(path: &str) -> (r: Option<String>)
    ensures
        r matches Some(e) ==> extension_in(path@, e@),
        !path@.contains('.') ==> r is None,
        is_simple_path(path@) ==> opt_chars(r) == name_extension(final_name(path@)),
{
    std::path::Path::new(path).extension().map(|e| e.to_string_lossy().into_owned())
}

/// The final component of a path, through std's `Path::file_name`. Trusted: a
/// result is a part of the path that holds no `/`; a path that every platform
/// splits into directories and a file name ([`is_simple_path`]) has that name;
/// and the root and paths that end in `..` have none, as std documents. For
/// other paths the result depends on the platform's separators and is left
/// unsaid.
#[verifier::external_body]
pub(crate) fn path_file_name(path: &str) -> (r: Option<String>)
    ensures
        r matches Some(n) ==> !n@.contains('/') && is_infix(n@, path@),
        is_simple_path(path@) ==> opt_chars(r) == Some(final_name(path@)),
        has_no_file_name(path@) ==> r is None,
{
    std::path::Path::new(path).file_name().map(|n| n.to_string_lossy().into_owned())
}

/// The kind of the file at `path`, from its extension without regard to case:
/// `md`/`markdown`, `docx`, `srt`, the binary formats, and plain text for
/// anything else or no extension.
pub fn detect_kind(path: &str) -> (k: FileKind)
    ensures
        exists|e: Option<Seq<char>>|
            #![trigger kind_of_extension(e)]
            (e matches Some(x) ==> extension_in(path@, x)) && (!path@.contains('.') ==> e is None)
                && k == kind_of_extension(e),
        !path@.contains('.') ==> k == FileKind::PlainText,
        is_simple_path(path@) ==> k == kind_of_extension(name_extension(final_name(path@))),
        is_simple_path(path@) ==> (name_extension(final_name(path@)) matches Some(x) ==> (
        is_ascii_text(x) ==> k == kind_of_lower(Some(ascii_lowercase(x))))),
{
    let ext = path_extension(path);
    match ext {
        Some(e) => {
            let k = kind_for_extension(Some(e.as_str()));
            assert(kind_of_extension(Some(e@)) == k);
            k
        },
        None => {
            assert(kind_of_extension(None) == FileKind::PlainText);
            FileKind::PlainText
        },
    }
}

impl FileKind {
    /// Whether a file of this kind is edited as text and can be saved.
    pub fn can_save(&self) -> (b: bool)
        ensures
            b == (*self == FileKind::PlainText || *self == FileKind::Markdown || *self == FileKind::Srt),
    {
        match self {
            FileKind::PlainText | FileKind::Markdown | FileKind::Srt => true,
            _ => false,
        }
    }

    /// Whether a file of this kind is shown as rendered blocks.
    pub fn renders_blocks(&self) -> (b: bool)
        ensures
            b == (*self == FileKind::Markdown || *self == FileKind::Docx || *self == FileKind::Srt),
    {
        match self {
            FileKind::Markdown | FileKind::Docx | FileKind::Srt => true,
            _ => false,
        }
    }

    /// The name shown when a text file of this kind has been opened.
    pub fn opened_name(&self) -> (s: String)
        ensures
            s@ == (match *self {
                FileKind::Markdown => "Markdown"@,
                FileKind::Srt => "SRT Subtitle"@,
                _ => "Text file"@,
            }),
    {
        match self {
            FileKind::Markdown => owned("Markdown"),
            FileKind::Srt => owned("SRT Subtitle"),
            _ => owned("Text file"),
        }
    }

    /// The format badge: its label and its background colour.
    pub fn badge(&self) -> (r: (String, (u8, u8, u8)))
        ensures
            r.0@ == (match *self {
                FileKind::Markdown => "MD"@,
                FileKind::Docx => "DOCX"@,
                FileKind::Srt => "SRT"@,
                FileKind::PlainText => "TXT"@,
                FileKind::Binary => "BIN"@,
            }),
            r.1 == (match *self {
                FileKind::Markdown => (50u8, 70u8, 160u8),
                FileKind::Docx => (40u8, 100u8, 60u8),
                FileKind::Srt => (120u8, 60u8, 20u8),
                FileKind::PlainText => (50u8, 55u8, 80u8),
                FileKind::Binary => (80u8, 30u8, 30u8),
            }),
    {
        match self {
            FileKind::Markdown => (owned("MD"), (50, 70, 160)),
            FileKind::Docx => (owned("DOCX"), (40, 100, 60)),
            FileKind::Srt => (owned("SRT"), (120, 60, 20)),
            FileKind::PlainText => (owned("TXT"), (50, 55, 80)),
            FileKind::Binary => (owned("BIN"), (80, 30, 30)),
        }
    }
}

} // verus!
