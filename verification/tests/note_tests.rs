use litenote::block::Block;
use litenote::kind::FileKind;
use litenote::note::{
    load_plan, paragraph_highlighted, shortcut_command, theme_toggle_label, title_for, Command,
    Effect, LiteNote, LoadPlan, ShortcutKey,
};
use litenote::theme::{Rgba, Theme};

fn ns(t: &str) -> String {
    t.to_string()
}

#[test]
fn fresh_editor() {
    let n = LiteNote::new();
    assert_eq!(n.content, "");
    assert!(n.blocks.is_empty());
    assert_eq!(n.file_path, None);
    assert_eq!(n.file_kind, FileKind::PlainText);
    assert!(!n.modified);
    assert!(n.dark_mode);
    assert!(n.word_wrap);
    assert_eq!(n.status, "Ready \u{2014} drag a file here or click Open");
    assert!(!n.status_is_error);
    assert!(!n.show_find);
    assert_eq!(n.find_query, "");
    assert_eq!(n.copy_buffer, None);
    assert_eq!(n.window_title(), "LiteNote \u{2014} Untitled");
    assert!(n.shows_empty_hint());
    let d = LiteNote::default();
    assert_eq!(d.status, n.status);
}

#[test]
fn editing_marks_the_title() {
    let mut n = LiteNote::new();
    assert_eq!(n.apply(Command::Edited), Effect::Nothing);
    assert!(n.modified);
    assert_eq!(n.window_title(), "LiteNote \u{2014} Untitled *");
    assert_eq!(title_for("a.txt", false), "LiteNote \u{2014} a.txt");
}

#[test]
fn open_markdown_text() {
    let mut n = LiteNote::new();
    n.open_text(ns("/tmp/notes/notes.md"), FileKind::Markdown, Ok(b"# Hi\n\nthere".to_vec()));
    assert_eq!(n.blocks, vec![Block::H1(ns("Hi")), Block::Paragraph(ns("there"))]);
    assert_eq!(n.content, "# Hi\n\nthere");
    assert_eq!(n.status, "Opened Markdown");
    assert!(!n.status_is_error);
    assert!(n.is_rendered());
    assert_eq!(n.file_path, Some(ns("/tmp/notes/notes.md")));
    assert_eq!(n.window_title(), "LiteNote \u{2014} notes.md");
    assert_eq!(n.all_text(), "Hi\n\nthere");
}

#[test]
fn open_srt_and_plain_text() {
    let mut n = LiteNote::new();
    n.open_text(ns("a.srt"), FileKind::Srt, Ok(b"1\n00:01\nHey".to_vec()));
    assert_eq!(n.status, "Opened SRT Subtitle");
    assert_eq!(n.blocks, vec![Block::SrtEntry { index: 1, time: ns("00:01"), text: ns("Hey") }]);
    n.open_text(ns("b.txt"), FileKind::PlainText, Ok(b"plain".to_vec()));
    assert_eq!(n.status, "Opened Text file");
    assert!(n.blocks.is_empty());
    assert!(!n.is_rendered());
}

#[test]
fn open_invalid_utf8_is_lossy() {
    let mut n = LiteNote::new();
    n.open_text(ns("x.txt"), FileKind::PlainText, Ok(vec![0x66, 0xff, 0x67]));
    assert_eq!(n.content, "f\u{fffd}g");
}

#[test]
fn open_read_error() {
    let mut n = LiteNote::new();
    n.open_text(ns("x.txt"), FileKind::PlainText, Err(ns("boom")));
    assert_eq!(n.status, "Error: boom");
    assert!(n.status_is_error);
    assert_eq!(n.file_path, None);
}

#[test]
fn docx_outcomes() {
    let mut n = LiteNote::new();
    n.content = ns("old");
    n.finish_docx(ns("r.docx"), Ok(vec![Block::H1(ns("T"))]));
    assert_eq!(n.content, "");
    assert_eq!(n.file_kind, FileKind::Docx);
    assert_eq!(n.status, "Opened DOCX");
    assert!(n.is_rendered());
    n.finish_docx(ns("q.docx"), Err(ns("bad")));
    assert_eq!(n.status, "DOCX error: bad");
    assert!(n.status_is_error);
    assert_eq!(n.file_path, Some(ns("r.docx")));
    n.open_docx(ns("z.docx"), Err(ns("missing")));
    assert_eq!(n.status, "DOCX error: missing");
    n.open_docx(ns("z.docx"), Ok(docx_rs::read_docx(b"not a zip")));
    assert!(n.status.starts_with("DOCX error: "));
    assert!(n.status_is_error);
}

#[test]
fn save_flows() {
    let mut n = LiteNote::new();
    assert_eq!(n.apply(Command::SaveFile), Effect::PickSavePath);
    assert_eq!(n.apply(Command::SaveFileAs), Effect::PickSavePath);
    n.apply(Command::Edited);
    n.finish_save_as(ns("/tmp/new.txt"), Ok(()));
    assert_eq!(n.file_path, Some(ns("/tmp/new.txt")));
    assert!(!n.modified);
    assert_eq!(n.status, "Saved");
    assert_eq!(n.apply(Command::SaveFile), Effect::WriteFile(ns("/tmp/new.txt")));
    n.apply(Command::Edited);
    n.finish_save(Err(ns("disk full")));
    assert_eq!(n.status, "Error saving: disk full");
    assert!(n.status_is_error);
    assert!(n.modified);
    n.finish_save(Ok(()));
    assert!(!n.modified);
    assert!(!n.status_is_error);
}

#[test]
fn saved_text_reads_back() {
    let mut n = LiteNote::new();
    n.content = ns("h\u{e9}llo \u{1f319}\nworld");
    let bytes = n.content_bytes();
    assert_eq!(bytes, n.content.as_bytes().to_vec());
    let before = n.content.clone();
    n.finish_save(Ok(()));
    n.open_text(ns("f.txt"), FileKind::PlainText, Ok(bytes));
    assert_eq!(n.content, before);
    assert!(!n.modified);
}

#[test]
fn new_file_resets() {
    let mut n = LiteNote::new();
    n.open_text(ns("a.md"), FileKind::Markdown, Ok(b"# x".to_vec()));
    n.apply(Command::Edited);
    assert_eq!(n.apply(Command::NewFile), Effect::Nothing);
    assert_eq!(n.content, "");
    assert!(n.blocks.is_empty());
    assert_eq!(n.file_path, None);
    assert_eq!(n.file_kind, FileKind::PlainText);
    assert!(!n.modified);
    assert_eq!(n.status, "New file");
}

#[test]
fn toggles_twice_restore() {
    let mut n = LiteNote::new();
    n.apply(Command::ToggleFind);
    assert!(n.show_find);
    n.apply(Command::ToggleFind);
    assert!(!n.show_find);
    n.apply(Command::ToggleTheme);
    assert!(!n.dark_mode);
    n.apply(Command::ToggleTheme);
    assert!(n.dark_mode);
    n.apply(Command::ToggleFind);
    n.apply(Command::CloseFind);
    assert!(!n.show_find);
}

#[test]
fn copy_all_and_text() {
    let mut n = LiteNote::new();
    n.blocks = vec![
        Block::SrtEntry { index: 12, time: ns("00:00"), text: ns("Hi") },
        Block::Hr,
        Block::Quote(ns("q")),
    ];
    let expected = format!("12\n00:00\nHi\n\n{}\n\nq", "\u{2500}".repeat(37));
    assert_eq!(n.all_text(), expected);
    assert_eq!(n.apply(Command::CopyAll), Effect::Nothing);
    assert_eq!(n.status, "Copied to clipboard!");
    assert_eq!(n.take_copy_buffer(), Some(expected));
    assert_eq!(n.copy_buffer, None);
    assert_eq!(n.take_copy_buffer(), None);
}

#[test]
fn find_counts() {
    let mut n = LiteNote::new();
    n.content = ns("Hello hello HELLO");
    n.find_query = ns("hello");
    assert_eq!(n.find_match_count(), 3);
    n.find_query = ns("");
    assert_eq!(n.find_match_count(), 0);
    n.content = ns("aaaa");
    n.find_query = ns("AA");
    assert_eq!(n.find_match_count(), 2);
    n.blocks = vec![Block::Paragraph(ns("x aa"))];
    assert_eq!(n.find_match_count(), 1);
}

#[test]
fn char_counts() {
    let mut n = LiteNote::new();
    n.content = ns("h\u{e9}llo");
    assert_eq!(n.char_count(), 5);
    n.blocks = vec![Block::H1(ns("ab")), Block::H2(ns("c"))];
    assert_eq!(n.char_count(), 5);
}

#[test]
fn highlight_decisions() {
    assert!(paragraph_highlighted("Hello World", "WORLD"));
    assert!(!paragraph_highlighted("Hello World", ""));
    assert!(!paragraph_highlighted("Hello", "bye"));
    let mut n = LiteNote::new();
    n.find_query = ns("q");
    assert_eq!(n.highlight_query(), "");
    n.apply(Command::ToggleFind);
    assert_eq!(n.highlight_query(), "q");
}

#[test]
fn shortcuts() {
    assert!(shortcut_command(false, ShortcutKey::N).is_none());
    assert!(matches!(shortcut_command(true, ShortcutKey::N), Some(Command::NewFile)));
    assert!(matches!(shortcut_command(true, ShortcutKey::O), Some(Command::OpenFile)));
    assert!(matches!(shortcut_command(true, ShortcutKey::S), Some(Command::SaveFile)));
    assert!(matches!(shortcut_command(true, ShortcutKey::F), Some(Command::ToggleFind)));
    let mut n = LiteNote::new();
    assert_eq!(n.apply(Command::OpenFile), Effect::PickFileToOpen);
    assert_eq!(n.apply(Command::DropFile(ns("/a/b.md"))), Effect::LoadFile(ns("/a/b.md")));
}

#[test]
fn load_plans() {
    assert_eq!(load_plan("a.pdf"), LoadPlan::OpenExternally);
    assert_eq!(load_plan("b.DOCX"), LoadPlan::ReadDocx);
    assert_eq!(load_plan("c.md"), LoadPlan::ReadText(FileKind::Markdown));
    assert_eq!(load_plan("d"), LoadPlan::ReadText(FileKind::PlainText));
}

#[test]
fn open_external_outcomes() {
    let mut n = LiteNote::new();
    n.finish_open_external("/tmp/x/report.pdf", Ok(()));
    assert_eq!(n.status, "'report.pdf' opened in default app");
    assert!(!n.status_is_error);
    n.finish_open_external("/tmp/x/report.pdf", Err(ns("Failed to open: nope")));
    assert_eq!(n.status, "Failed to open: nope");
    assert!(n.status_is_error);
}

#[test]
fn theme_colours() {
    let d = Theme::dark();
    assert_eq!(d.accent, Rgba { r: 108, g: 126, b: 255, a: 255 });
    assert_eq!(d.quote_bg, Rgba { r: 80, g: 90, b: 160, a: 28 });
    let l = Theme::light();
    assert_eq!(l.red, Rgba { r: 200, g: 38, b: 38, a: 255 });
    assert_eq!(Theme::for_mode(true), d);
    assert_eq!(Theme::for_mode(false), l);
    assert_eq!(theme_toggle_label(true), "\u{2600} Light");
    assert_eq!(theme_toggle_label(false), "\u{1f319} Dark");
}

#[test]
fn titles_of_paths_with_directories() {
    let mut n = LiteNote::new();
    n.file_path = Some(ns("/tmp/notes.txt"));
    n.modified = true;
    assert_eq!(n.window_title(), "LiteNote \u{2014} notes.txt *");
    n.modified = false;
    assert_eq!(n.window_title(), "LiteNote \u{2014} notes.txt");
    n.file_path = Some(ns("/"));
    n.modified = true;
    assert_eq!(n.window_title(), "LiteNote \u{2014} Untitled *");
    n.file_path = Some(ns("/tmp/sub/.."));
    assert_eq!(n.window_title(), "LiteNote \u{2014} Untitled *");
}

#[test]
fn open_docx_shows_the_document() {
    let doc = docx_rs::Docx::new()
        .add_paragraph(docx_rs::Paragraph::new().add_run(docx_rs::Run::new().add_text("Head")).style("Heading2"))
        .add_paragraph(docx_rs::Paragraph::new().add_run(docx_rs::Run::new().add_text("Body")));
    let mut buf = std::io::Cursor::new(Vec::new());
    doc.build().pack(&mut buf).unwrap();
    let bytes = buf.into_inner();
    let mut n = LiteNote::new();
    n.open_docx(ns("w.docx"), Ok(docx_rs::read_docx(&bytes)));
    assert_eq!(n.blocks, vec![Block::H2(ns("Head")), Block::Paragraph(ns("Body"))]);
    assert_eq!(n.status, "Opened DOCX");
    assert!(!n.status_is_error);
    assert_eq!(n.file_path, Some(ns("w.docx")));
}
