//! The editor's state, and how each user action and each finished outside
//! operation (reading, writing, opening in another application) changes it.
use vstd::prelude::*;
use vstd::utf8::{decode_utf8, encode_utf8, valid_utf8};
use crate::block::{document_text, document_text_of, view_blocks, Block, BlockView};
use docx_rs::{Docx, ReaderError};
use crate::docx::{docx_blocks, parse_docx, DocxError};
use crate::json::json_of_text;
use crate::kind::{
    detect_kind, final_name, has_no_file_name, is_simple_path, kind_of_extension, kind_of_lower,
    name_extension,
    path_file_name, FileKind,
};
use crate::markdown::{markdown_blocks, markdown_events, parse_markdown};
use crate::srt::{parse_srt, srt_blocks};
use crate::text::{
    ascii_lowercase, chars_of, count_chars, count_matches, extend_chars, is_ascii_text, owned,
    string_of, to_lowercase, unicode_lowercase,
};

verus! {

/// The text that std's `String::from_utf8_lossy` makes of bytes that are not
/// valid UTF-8.
pub uninterp spec fn utf8_lossy(bytes: Seq<u8>) -> Seq<char>;

/// The text of a file's bytes: their UTF-8 decoding when they are valid
/// UTF-8, and else the lossy decoding.
pub open spec fn decoded_text(bytes: Seq<u8>) -> Seq<char> {
    if valid_utf8(bytes) {
        decode_utf8(bytes)
    } else {
        utf8_lossy(bytes)
    }
}

/// Decodes a file's bytes with std's `String::from_utf8_lossy`. Trusted:
/// valid UTF-8 is decoded as such, and other bytes give [`utf8_lossy`] of them.
#[verifier::external_body]
pub(crate) fn decode_text(bytes: &[u8]) -> (text: String)
    ensures
        valid_utf8(bytes@) ==> text@ == decode_utf8(bytes@),
        !valid_utf8(bytes@) ==> text@ == utf8_lossy(bytes@),
{
    String::from_utf8_lossy(bytes).into_owned()
}

/// The state of the editor window.
pub struct LiteNote {
    /// The text being edited (empty for a Word document).
    pub content: String,
    /// The rendered blocks of a Markdown, Word or subtitle file.
    pub blocks: Vec<Block>,
    pub file_path: Option<String>,
    pub file_kind: FileKind,
    /// Whether the text was edited since it was opened or saved.
    pub modified: bool,
    pub dark_mode: bool,
    pub word_wrap: bool,
    pub status: String,
    pub status_is_error: bool,
    pub show_find: bool,
    pub find_query: String,
    /// Text waiting to be put on the clipboard.
    pub copy_buffer: Option<String>,
}

/// The value of a [`LiteNote`].
pub struct NoteView {
    pub content: Seq<char>,
    pub blocks: Seq<BlockView>,
    pub file_path: Option<Seq<char>>,
    pub file_kind: FileKind,
    pub modified: bool,
    pub dark_mode: bool,
    pub word_wrap: bool,
    pub status: Seq<char>,
    pub status_is_error: bool,
    pub show_find: bool,
    pub find_query: Seq<char>,
    pub copy_buffer: Option<Seq<char>>,
}

/// The value of an optional string.
pub open spec fn opt_view(o: Option<String>) -> Option<Seq<char>> {
    match o {
        Some(s) => Some(s@),
        None => None,
    }
}

impl View for LiteNote {
    type V = NoteView;

    open spec fn view(&self) -> NoteView {
        NoteView {
            content: self.content@,
            blocks: view_blocks(self.blocks@),
            file_path: opt_view(self.file_path),
            file_kind: self.file_kind,
            modified: self.modified,
            dark_mode: self.dark_mode,
            word_wrap: self.word_wrap,
            status: self.status@,
            status_is_error: self.status_is_error,
            show_find: self.show_find,
            find_query: self.find_query@,
            copy_buffer: opt_view(self.copy_buffer),
        }
    }
}

/// The state of a freshly started editor.
pub open spec fn initial_note() -> NoteView {
    NoteView {
        content: seq![],
        blocks: seq![],
        file_path: None,
        file_kind: FileKind::PlainText,
        modified: false,
        dark_mode: true,
        word_wrap: true,
        status: "Ready \u{2014} drag a file here or click Open"@,
        status_is_error: false,
        show_find: false,
        find_query: seq![],
        copy_buffer: None,
    }
}

/// `s` with a new status line.
pub open spec fn with_status(s: NoteView, msg: Seq<char>, is_error: bool) -> NoteView {
    NoteView { status: msg, status_is_error: is_error, ..s }
}

/// The state after "New": an empty, unsaved plain-text document.
pub open spec fn after_new_file(s: NoteView) -> NoteView {
    NoteView {
        content: seq![],
        blocks: seq![],
        file_path: None,
        file_kind: FileKind::PlainText,
        modified: false,
        status: "New file"@,
        status_is_error: false,
        ..s
    }
}

/// The state after a file was handed to the default application: only the
/// status line changes.
pub open spec fn after_open_external(s: NoteView, result: Result<Seq<char>, Seq<char>>) -> NoteView {
    match result {
        Ok(name) => with_status(s, "'"@ + name + "' opened in default app"@, false),
        Err(e) => with_status(s, e, true),
    }
}

/// The state after reading a Word document: its blocks shown, or the error
/// on the status line with the rest unchanged.
pub open spec fn after_docx(s: NoteView, path: Seq<char>, result: Result<Seq<BlockView>, Seq<char>>) -> NoteView {
    match result {
        Ok(bs) => NoteView {
            blocks: bs,
            content: seq![],
            file_path: Some(path),
            file_kind: FileKind::Docx,
            modified: false,
            status: "Opened DOCX"@,
            status_is_error: false,
            ..s
        },
        Err(e) => with_status(s, "DOCX error: "@ + e, true),
    }
}

/// What reading a document that docx-rs accepted can give: the blocks of its
/// JSON form ([`docx_blocks`]), or the message of a JSON parse error.
pub open spec fn docx_outcome(r: Result<Seq<BlockView>, Seq<char>>) -> bool {
    match r {
        Ok(bs) => exists|t: Seq<char>|
            #[trigger] json_of_text(t) matches Some(j) && bs == docx_blocks(j),
        Err(m) => exists|e: Seq<char>| m == #[trigger] ("JSON parse error: "@ + e),
    }
}

/// The blocks rendered for a text file of a kind: Markdown and subtitles
/// are rendered, other texts are edited as they are.
pub open spec fn text_blocks(kind: FileKind, text: Seq<char>) -> Seq<BlockView> {
    match kind {
        FileKind::Markdown => markdown_blocks(markdown_events(text)),
        FileKind::Srt => srt_blocks(text),
        _ => seq![],
    }
}

/// The name of a kind on the status line after opening.
pub open spec fn opened_name(kind: FileKind) -> Seq<char> {
    match kind {
        FileKind::Markdown => "Markdown"@,
        FileKind::Srt => "SRT Subtitle"@,
        _ => "Text file"@,
    }
}

/// The state after a text file was read.
pub open spec fn after_text(s: NoteView, path: Seq<char>, kind: FileKind, text: Seq<char>) -> NoteView {
    NoteView {
        blocks: text_blocks(kind, text),
        content: text,
        file_kind: kind,
        file_path: Some(path),
        modified: false,
        status_is_error: false,
        status: "Opened "@ + opened_name(kind),
        ..s
    }
}

/// The state after a text file could not be read.
pub open spec fn after_read_error(s: NoteView, e: Seq<char>) -> NoteView {
    with_status(s, "Error: "@ + e, true)
}

/// The state after writing the text to the current file; `error` is the
/// write's failure, if any.
pub open spec fn after_save(s: NoteView, error: Option<Seq<char>>) -> NoteView {
    match error {
        None => NoteView { modified: false, status: "Saved"@, status_is_error: false, ..s },
        Some(e) => with_status(s, "Error saving: "@ + e, true),
    }
}

/// The state after writing the text to a newly chosen file.
pub open spec fn after_save_as(s: NoteView, path: Seq<char>, error: Option<Seq<char>>) -> NoteView {
    match error {
        None => NoteView {
            file_path: Some(path),
            modified: false,
            status: "Saved"@,
            status_is_error: false,
            ..s
        },
        Some(e) => with_status(s, "Error saving: "@ + e, true),
    }
}

/// The plain text of the document in `s`.
pub open spec fn note_text(s: NoteView) -> Seq<char> {
    document_text(s.blocks, s.content)
}

/// A user action.
pub enum Command {
    NewFile,
    OpenFile,
    SaveFile,
    SaveFileAs,
    ToggleFind,
    CloseFind,
    CopyAll,
    ToggleTheme,
    /// The text was changed in the editor.
    Edited,
    /// A file was dropped on the window.
    DropFile(String),
}

/// The value of a [`Command`].
pub enum CommandView {
    NewFile,
    OpenFile,
    SaveFile,
    SaveFileAs,
    ToggleFind,
    CloseFind,
    CopyAll,
    ToggleTheme,
    Edited,
    DropFile(Seq<char>),
}

impl View for Command {
    type V = CommandView;

    open spec fn view(&self) -> CommandView {
        match self {
            Command::NewFile => CommandView::NewFile,
            Command::OpenFile => CommandView::OpenFile,
            Command::SaveFile => CommandView::SaveFile,
            Command::SaveFileAs => CommandView::SaveFileAs,
            Command::ToggleFind => CommandView::ToggleFind,
            Command::CloseFind => CommandView::CloseFind,
            Command::CopyAll => CommandView::CopyAll,
            Command::ToggleTheme => CommandView::ToggleTheme,
            Command::Edited => CommandView::Edited,
            Command::DropFile(p) => CommandView::DropFile(p@),
        }
    }
}

/// The outside work that an action asks for.
#[derive(Debug, Clone, PartialEq)]
pub enum Effect {
    Nothing,
    /// Ask the user for a file to open.
    PickFileToOpen,
    /// Write the text to this path.
    WriteFile(String),
    /// Ask the user for a path to save to.
    PickSavePath,
    /// Load the file at this path.
    LoadFile(String),
}

/// The value of an [`Effect`].
pub enum EffectView {
    Nothing,
    PickFileToOpen,
    WriteFile(Seq<char>),
    PickSavePath,
    LoadFile(Seq<char>),
}

impl View for Effect {
    type V = EffectView;

    open spec fn view(&self) -> EffectView {
        match self {
            Effect::Nothing => EffectView::Nothing,
            Effect::PickFileToOpen => EffectView::PickFileToOpen,
            Effect::WriteFile(p) => EffectView::WriteFile(p@),
            Effect::PickSavePath => EffectView::PickSavePath,
            Effect::LoadFile(p) => EffectView::LoadFile(p@),
        }
    }
}

/// The state after an action.
pub open spec fn after_command(s: NoteView, c: CommandView) -> NoteView {
    match c {
        CommandView::NewFile => after_new_file(s),
        CommandView::ToggleFind => NoteView { show_find: !s.show_find, ..s },
        CommandView::CloseFind => NoteView { show_find: false, ..s },
        CommandView::CopyAll => NoteView {
            copy_buffer: Some(note_text(s)),
            status: "Copied to clipboard!"@,
            status_is_error: false,
            ..s
        },
        CommandView::ToggleTheme => NoteView { dark_mode: !s.dark_mode, ..s },
        CommandView::Edited => NoteView { modified: true, ..s },
        _ => s,
    }
}

/// The outside work an action asks for: saving writes to the current file
/// when there is one and asks for a path otherwise.
pub open spec fn effect_of(s: NoteView, c: CommandView) -> EffectView {
    match c {
        CommandView::OpenFile => EffectView::PickFileToOpen,
        CommandView::SaveFile => match s.file_path {
            Some(p) => EffectView::WriteFile(p),
            None => EffectView::PickSavePath,
        },
        CommandView::SaveFileAs => EffectView::PickSavePath,
        CommandView::DropFile(p) => EffectView::LoadFile(p),
        _ => EffectView::Nothing,
    }
}

/// A keyboard shortcut key, pressed with Ctrl.
#[derive(Debug, Clone, Copy, PartialEq, Eq, Structural)]
pub enum ShortcutKey {
    N,
    O,
    S,
    F,
}

/// The action of a key: with Ctrl, N is "New", O "Open", S "Save" and F
/// shows or hides the find bar; without Ctrl, none.
pub fn shortcut_command(ctrl: bool, key: ShortcutKey) -> (c: Option<Command>)
    ensures
        !ctrl ==> c is None,
        ctrl ==> (c matches Some(cmd) && cmd@ == (match key {
            ShortcutKey::N => CommandView::NewFile,
            ShortcutKey::O => CommandView::OpenFile,
            ShortcutKey::S => CommandView::SaveFile,
            ShortcutKey::F => CommandView::ToggleFind,
        })),
{
    if !ctrl {
        return None;
    }
    Some(
        match key {
            ShortcutKey::N => Command::NewFile,
            ShortcutKey::O => Command::OpenFile,
            ShortcutKey::S => Command::SaveFile,
            ShortcutKey::F => Command::ToggleFind,
        },
    )
}

/// How a file is loaded, from its kind.
#[derive(Debug, Clone, Copy, PartialEq, Eq, Structural)]
pub enum LoadPlan {
    /// Hand the file to the system's default application.
    OpenExternally,
    /// Read the file's bytes as a Word document.
    ReadDocx,
    /// Read the file's bytes as text of this kind.
    ReadText(FileKind),
}

/// How the file at `path` is loaded: binary files go to the default
/// application, Word documents are read as such, anything else as text.
pub fn load_plan(path: &str) -> (p: LoadPlan)
    ensures
        exists|k: FileKind|
            #![trigger plan_for_kind(k)]
            p == plan_for_kind(k) && (!path@.contains('.') ==> k == FileKind::PlainText),
        is_simple_path(path@) ==> p == plan_for_kind(kind_of_extension(name_extension(final_name(path@)))),
        is_simple_path(path@) ==> (name_extension(final_name(path@)) matches Some(x) ==> (
        is_ascii_text(x) ==> p == plan_for_kind(kind_of_lower(Some(ascii_lowercase(x)))))),
{
    let k = detect_kind(path);
    let p = plan_for(k);
    assert(p == plan_for_kind(k));
    p
}

/// The plan for a kind.
pub open spec fn plan_for_kind(k: FileKind) -> LoadPlan {
    match k {
        FileKind::Binary => LoadPlan::OpenExternally,
        FileKind::Docx => LoadPlan::ReadDocx,
        _ => LoadPlan::ReadText(k),
    }
}

/// Executable [`plan_for_kind`].
pub fn plan_for(k: FileKind) -> (p: LoadPlan)
    ensures
        p == plan_for_kind(k),
{
    match k {
        FileKind::Binary => LoadPlan::OpenExternally,
        FileKind::Docx => LoadPlan::ReadDocx,
        _ => LoadPlan::ReadText(k),
    }
}

fn concat2(a: &str, b: &str) -> (r: String)
    ensures
        r@ == a@ + b@,
{
    let mut v = chars_of(a);
    extend_chars(&mut v, &chars_of(b));
    string_of(&v)
}

fn concat3(a: &str, b: &str, c: &str) -> (r: String)
    ensures
        r@ == a@ + b@ + c@,
{
    let mut v = chars_of(a);
    extend_chars(&mut v, &chars_of(b));
    extend_chars(&mut v, &chars_of(c));
    string_of(&v)
}

/// The window title for a file name: "LiteNote — name", with " *" after it
/// when the text is modified.
pub fn title_for(name: &str, modified: bool) -> (t: String)
    ensures
        t@ == "LiteNote \u{2014} "@ + name@ + (if modified { " *"@ } else { ""@ }),
{
    concat3("LiteNote \u{2014} ", name, if modified { " *" } else { "" })
}

/// The label of the theme button: the mode it switches to.
pub fn theme_toggle_label(dark_mode: bool) -> (l: String)
    ensures
        l@ == (if dark_mode { "\u{2600} Light"@ } else { "\u{1f319} Dark"@ }),
{
    if dark_mode {
        owned("\u{2600} Light")
    } else {
        owned("\u{1f319} Dark")
    }
}

/// Whether a paragraph is highlighted for a search: the search text is not
/// empty and occurs in the paragraph, both lowercased.
pub fn paragraph_highlighted(text: &str, find: &str) -> (b: bool)
    ensures
        b == (find@.len() > 0 && crate::text::contains(
            unicode_lowercase(text@),
            unicode_lowercase(find@),
        )),
        is_ascii_text(text@) && is_ascii_text(find@) ==> b == (find@.len() > 0 && crate::text::contains(
            ascii_lowercase(text@),
            ascii_lowercase(find@),
        )),
{
    if find.is_empty() {
        return false;
    }
    let t = to_lowercase(text);
    let f = to_lowercase(find);
    crate::text::contains_chars(&chars_of(t.as_str()), &chars_of(f.as_str()))
}

impl LiteNote {
    /// A freshly started editor.
    pub fn new() -> (n: LiteNote)
        ensures
            n@ == initial_note(),
    {
        let blocks: Vec<Block> = Vec::new();
        assert(view_blocks(blocks@) =~= Seq::<BlockView>::empty());
        LiteNote {
            content: String::new(),
            blocks,
            file_path: None,
            file_kind: FileKind::PlainText,
            modified: false,
            dark_mode: true,
            word_wrap: true,
            status: owned("Ready \u{2014} drag a file here or click Open"),
            status_is_error: false,
            show_find: false,
            find_query: String::new(),
            copy_buffer: None,
        }
    }

    /// The window title: the file's name (or "Untitled") and a modification mark.
    pub fn window_title(&self) -> (t: String)
        ensures
            exists|name: Seq<char>|
                t@ == "LiteNote \u{2014} "@ + name + (if self.modified { " *"@ } else { ""@ }),
            self.file_path is None ==> t@ == "LiteNote \u{2014} "@ + "Untitled"@ + (if self.modified { " *"@ } else { ""@ }),
            self.file_path matches Some(p) ==> (has_no_file_name(p@) ==> t@ == "LiteNote \u{2014} "@
                + "Untitled"@ + (if self.modified { " *"@ } else { ""@ })),
            self.file_path matches Some(p) ==> (is_simple_path(p@) ==> t@ == "LiteNote \u{2014} "@
                + final_name(p@) + (if self.modified { " *"@ } else { ""@ })),
    {
        let name = match &self.file_path {
            Some(p) => match path_file_name(p.as_str()) {
                Some(n) => n,
                None => owned("Untitled"),
            },
            None => owned("Untitled"),
        };
        title_for(name.as_str(), self.modified)
    }

    /// The plain text of the document: see [`document_text`].
    pub fn all_text(&self) -> (t: String)
        ensures
            t@ == note_text(self@),
    {
        document_text_of(&self.blocks, self.content.as_str())
    }

    /// "New": an empty, unsaved plain-text document.
    pub fn new_file(&mut self)
        ensures
            final(self)@ == after_new_file(old(self)@),
    {
        self.content = String::new();
        self.blocks = Vec::new();
        assert(view_blocks(self.blocks@) =~= Seq::<BlockView>::empty());
        self.file_path = None;
        self.file_kind = FileKind::PlainText;
        self.modified = false;
        self.status = owned("New file");
        self.status_is_error = false;
    }

    /// Applies a user action and says what outside work it asks for.
    pub fn apply(&mut self, cmd: Command) -> (e: Effect)
        ensures
            final(self)@ == after_command(old(self)@, cmd@),
            e@ == effect_of(old(self)@, cmd@),
    {
        match cmd {
            Command::NewFile => {
                self.new_file();
                Effect::Nothing
            },
            Command::OpenFile => Effect::PickFileToOpen,
            Command::SaveFile => match &self.file_path {
                Some(p) => Effect::WriteFile(p.clone()),
                None => Effect::PickSavePath,
            },
            Command::SaveFileAs => Effect::PickSavePath,
            Command::ToggleFind => {
                self.show_find = !self.show_find;
                Effect::Nothing
            },
            Command::CloseFind => {
                self.show_find = false;
                Effect::Nothing
            },
            Command::CopyAll => {
                self.copy_buffer = Some(self.all_text());
                self.status = owned("Copied to clipboard!");
                self.status_is_error = false;
                Effect::Nothing
            },
            Command::ToggleTheme => {
                self.dark_mode = !self.dark_mode;
                Effect::Nothing
            },
            Command::Edited => {
                self.modified = true;
                Effect::Nothing
            },
            Command::DropFile(p) => Effect::LoadFile(p),
        }
    }

    /// Records the outcome of handing the file at `path` to the default
    /// application: its file name on success, the error otherwise.
    pub fn finish_open_external(&mut self, path: &str, result: Result<(), String>)
        ensures
            result is Err ==> final(self)@ == after_open_external(old(self)@, Err(result->Err_0@)),
            result is Ok ==> exists|name: Seq<char>|
                final(self)@ == #[trigger] after_open_external(old(self)@, Ok(name)),
            result is Ok && is_simple_path(path@) ==> final(self)@ == after_open_external(
                old(self)@,
                Ok(final_name(path@)),
            ),
            result is Ok && has_no_file_name(path@) ==> final(self)@ == after_open_external(
                old(self)@,
                Ok(seq![]),
            ),
    {
        match result {
            Ok(()) => {
                let name = match path_file_name(path) {
                    Some(n) => n,
                    None => String::new(),
                };
                self.status = concat3("'", name.as_str(), "' opened in default app");
                self.status_is_error = false;
                assert(self@ == after_open_external(old(self)@, Ok(name@)));
            },
            Err(e) => {
                self.status = e;
                self.status_is_error = true;
            },
        }
    }

    /// Records the outcome of reading a Word document: its blocks, or the error.
    pub fn finish_docx(&mut self, path: String, result: Result<Vec<Block>, String>)
        ensures
            final(self)@ == after_docx(old(self)@, path@, match result {
                Ok(bs) => Ok(view_blocks(bs@)),
                Err(e) => Err(e@),
            }),
    {
        match result {
            Ok(blocks) => {
                self.blocks = blocks;
                self.content = String::new();
                self.file_path = Some(path);
                self.file_kind = FileKind::Docx;
                self.modified = false;
                self.status = owned("Opened DOCX");
                self.status_is_error = false;
            },
            Err(e) => {
                self.status = concat2("DOCX error: ", e.as_str());
                self.status_is_error = true;
            },
        }
    }

    /// Opens a Word document from the outcome of reading its file and of
    /// docx-rs reading the bytes: the file's read error, or what
    /// [`parse_docx`] makes of docx-rs's outcome (a docx-rs failure is an error).
    pub fn open_docx(&mut self, path: String, read: Result<Result<Docx, ReaderError>, String>)
        ensures
            read matches Err(e) ==> final(self)@ == after_docx(old(self)@, path@, Err(e@)),
            read matches Ok(Err(_)) ==> exists|m: Seq<char>|
                final(self)@ == #[trigger] after_docx(old(self)@, path@, Err(m)),
            read matches Ok(Ok(_)) ==> exists|r: Result<Seq<BlockView>, Seq<char>>|
                #[trigger] after_docx(old(self)@, path@, r) == final(self)@ && docx_outcome(r),
    {
        match read {
            Err(e) => self.finish_docx(path, Err(e)),
            Ok(doc) => {
                let r = match parse_docx(doc) {
                    Ok(blocks) => Ok(blocks),
                    Err(de) => {
                        let m = de.message();
                        proof {
                            if let DocxError::BadJson(e) = de {
                                assert(m@ == "JSON parse error: "@ + e@);
                            }
                        }
                        Err(m)
                    },
                };
                let ghost rv = match &r {
                    Ok(bs) => Ok(view_blocks(bs@)),
                    Err(e) => Err(e@),
                };
                self.finish_docx(path, r);
                assert(self@ == after_docx(old(self)@, path@, rv));
            },
        }
    }

    /// Records a text file that was read: its text, rendered by kind.
    pub fn finish_text(&mut self, path: String, kind: FileKind, text: String)
        ensures
            final(self)@ == after_text(old(self)@, path@, kind, text@),
    {
        self.blocks = match kind {
            FileKind::Markdown => parse_markdown(text.as_str()),
            FileKind::Srt => parse_srt(text.as_str()),
            _ => Vec::new(),
        };
        assert(view_blocks(self.blocks@) =~= text_blocks(kind, text@));
        self.content = text;
        self.file_kind = kind;
        self.file_path = Some(path);
        self.modified = false;
        self.status_is_error = false;
        self.status = concat2("Opened ", kind.opened_name().as_str());
    }

    /// Opens a text file from the outcome of reading its bytes.
    pub fn open_text(&mut self, path: String, kind: FileKind, read: Result<Vec<u8>, String>)
        ensures
            match read {
                Ok(bytes) => final(self)@ == after_text(old(self)@, path@, kind, decoded_text(bytes@)),
                Err(e) => final(self)@ == after_read_error(old(self)@, e@),
            },
    {
        match read {
            Ok(bytes) => {
                let text = decode_text(bytes.as_slice());
                self.finish_text(path, kind, text);
            },
            Err(e) => {
                self.status = concat2("Error: ", e.as_str());
                self.status_is_error = true;
            },
        }
    }

    /// The bytes that saving writes: the UTF-8 encoding of the text.
    pub fn content_bytes(&self) -> (b: Vec<u8>)
        ensures
            b@ == encode_utf8(self.content@),
    {
        let s = self.content.as_str();
        let bytes = s.as_bytes();
        let mut v: Vec<u8> = Vec::new();
        let mut i: usize = 0;
        while i < bytes.len()
            invariant
                i <= bytes.len(),
                bytes@ == encode_utf8(self.content@),
                v@ == bytes@.take(i as int),
            decreases bytes.len() - i,
        {
            v.push(bytes[i]);
            i = i + 1;
            assert(bytes@.take(i as int) =~= bytes@.take(i - 1).push(bytes@[i - 1]));
        }
        assert(bytes@.take(bytes.len() as int) =~= bytes@);
        v
    }

    /// Records the outcome of writing the text to the current file.
    pub fn finish_save(&mut self, result: Result<(), String>)
        ensures
            final(self)@ == after_save(old(self)@, match result {
                Ok(()) => None,
                Err(e) => Some(e@),
            }),
    {
        match result {
            Ok(()) => {
                self.modified = false;
                self.status = owned("Saved");
                self.status_is_error = false;
            },
            Err(e) => {
                self.status = concat2("Error saving: ", e.as_str());
                self.status_is_error = true;
            },
        }
    }

    /// Records the outcome of writing the text to a newly chosen path.
    pub fn finish_save_as(&mut self, path: String, result: Result<(), String>)
        ensures
            final(self)@ == after_save_as(old(self)@, path@, match result {
                Ok(()) => None,
                Err(e) => Some(e@),
            }),
    {
        match result {
            Ok(()) => {
                self.file_path = Some(path);
                self.modified = false;
                self.status = owned("Saved");
                self.status_is_error = false;
            },
            Err(e) => {
                self.status = concat2("Error saving: ", e.as_str());
                self.status_is_error = true;
            },
        }
    }

    /// Whether the document is shown as rendered blocks rather than as
    /// editable text.
    pub fn is_rendered(&self) -> (b: bool)
        ensures
            b == ((self.file_kind == FileKind::Markdown || self.file_kind == FileKind::Docx
                || self.file_kind == FileKind::Srt) && self.blocks.len() > 0),
    {
        self.file_kind.renders_blocks() && self.blocks.len() > 0
    }

    /// Whether the "drop a file here" hint is shown: no text and no file.
    pub fn shows_empty_hint(&self) -> (b: bool)
        ensures
            b == (self.content@.len() == 0 && self.file_path is None),
    {
        self.content.as_str().is_empty() && self.file_path.is_none()
    }

    /// The text that rendered paragraphs are matched against: the find text
    /// while the find bar is shown, and else nothing.
    pub fn highlight_query(&self) -> (q: String)
        ensures
            q@ == (if self.show_find { self.find_query@ } else { Seq::<char>::empty() }),
    {
        if self.show_find {
            self.find_query.clone()
        } else {
            String::new()
        }
    }

    /// The text waiting for the clipboard, taken out.
    pub fn take_copy_buffer(&mut self) -> (t: Option<String>)
        ensures
            opt_view(t) == old(self)@.copy_buffer,
            final(self)@ == (NoteView { copy_buffer: None, ..old(self)@ }),
    {
        let t = self.copy_buffer.take();
        t
    }

    /// The number of characters of the document's plain text.
    pub fn char_count(&self) -> (n: usize)
        ensures
            n == note_text(self@).len(),
    {
        let t = self.all_text();
        let v = chars_of(t.as_str());
        v.len()
    }

    /// The number of times the find text occurs in the document's plain
    /// text, both lowercased; none for an empty find text.
    pub fn find_match_count(&self) -> (n: usize)
        ensures
            self.find_query@.len() == 0 ==> n == 0,
            self.find_query@.len() > 0 ==> n == match_total(
                unicode_lowercase(note_text(self@)),
                unicode_lowercase(self.find_query@),
            ),
    {
        if self.find_query.as_str().is_empty() {
            return 0;
        }
        let q = to_lowercase(self.find_query.as_str());
        let h = to_lowercase(self.all_text().as_str());
        count_chars(&chars_of(h.as_str()), &chars_of(q.as_str()))
    }
}

/// [`count_matches`], saturated at `usize::MAX`.
pub open spec fn match_total(h: Seq<char>, q: Seq<char>) -> nat {
    if count_matches(h, q) > usize::MAX {
        usize::MAX as nat
    } else {
        count_matches(h, q)
    }
}

impl Default for LiteNote {
    fn default() -> (n: LiteNote)
        ensures
            n@ == initial_note(),
    {
        LiteNote::new()
    }
}

} // verus!
