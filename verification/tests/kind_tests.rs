use litenote::kind::{detect_kind, kind_for_extension, kind_of_lower_extension, FileKind};

#[test]
fn kinds_by_extension() {
    assert_eq!(detect_kind("notes.md"), FileKind::Markdown);
    assert_eq!(detect_kind("dir/readme.markdown"), FileKind::Markdown);
    assert_eq!(detect_kind("report.docx"), FileKind::Docx);
    assert_eq!(detect_kind("movie.srt"), FileKind::Srt);
    assert_eq!(detect_kind("a.txt"), FileKind::PlainText);
    assert_eq!(detect_kind("Cargo.toml"), FileKind::PlainText);
}

#[test]
fn kinds_ignore_letter_case() {
    assert_eq!(detect_kind("notes.MD"), FileKind::Markdown);
    assert_eq!(detect_kind("notes.Md"), FileKind::Markdown);
    assert_eq!(detect_kind("subs.SRT"), FileKind::Srt);
    assert_eq!(detect_kind("photo.JPEG"), FileKind::Binary);
    assert_eq!(detect_kind("movie.MkV"), FileKind::Binary);
}

#[test]
fn binary_extensions() {
    for ext in [
        "pdf", "png", "jpg", "jpeg", "gif", "bmp", "webp", "svg", "ico", "mp4", "mp3", "wav", "ogg",
        "avi", "mkv", "mov", "flac", "doc", "xlsx", "xls", "pptx", "ppt", "odt", "ods", "odp", "zip",
        "rar", "7z", "tar", "gz", "bz2", "exe", "dll", "msi", "bin", "dat", "iso",
    ] {
        assert_eq!(detect_kind(&format!("file.{ext}")), FileKind::Binary, "{ext}");
    }
    assert_eq!(detect_kind("archive.tar.gz"), FileKind::Binary);
}

#[test]
fn no_extension_is_plain_text() {
    assert_eq!(detect_kind("README"), FileKind::PlainText);
    assert_eq!(detect_kind(".bashrc"), FileKind::PlainText);
    assert_eq!(detect_kind("dir.md/file"), FileKind::PlainText);
    assert_eq!(detect_kind(""), FileKind::PlainText);
    assert_eq!(detect_kind("x."), FileKind::PlainText);
}

#[test]
fn extension_helpers() {
    assert_eq!(kind_of_lower_extension(Some("md")), FileKind::Markdown);
    assert_eq!(kind_of_lower_extension(Some("MD")), FileKind::PlainText);
    assert_eq!(kind_of_lower_extension(None), FileKind::PlainText);
    assert_eq!(kind_for_extension(Some("DOCX")), FileKind::Docx);
    assert_eq!(kind_for_extension(Some("Zip")), FileKind::Binary);
    assert_eq!(kind_for_extension(None), FileKind::PlainText);
}

#[test]
fn kind_properties() {
    assert!(FileKind::PlainText.can_save());
    assert!(FileKind::Markdown.can_save());
    assert!(FileKind::Srt.can_save());
    assert!(!FileKind::Docx.can_save());
    assert!(!FileKind::Binary.can_save());
    assert!(FileKind::Docx.renders_blocks());
    assert!(!FileKind::PlainText.renders_blocks());
    assert_eq!(FileKind::Markdown.opened_name(), "Markdown");
    assert_eq!(FileKind::Srt.opened_name(), "SRT Subtitle");
    assert_eq!(FileKind::PlainText.opened_name(), "Text file");
    assert_eq!(FileKind::Markdown.badge(), ("MD".to_string(), (50, 70, 160)));
    assert_eq!(FileKind::Docx.badge(), ("DOCX".to_string(), (40, 100, 60)));
    assert_eq!(FileKind::Srt.badge(), ("SRT".to_string(), (120, 60, 20)));
    assert_eq!(FileKind::PlainText.badge(), ("TXT".to_string(), (50, 55, 80)));
    assert_eq!(FileKind::Binary.badge(), ("BIN".to_string(), (80, 30, 30)));
}

#[test]
fn kinds_of_paths_with_directories() {
    assert_eq!(detect_kind("/home/u/site.md/readme"), FileKind::PlainText);
    assert_eq!(detect_kind("/home/u/.md"), FileKind::PlainText);
    assert_eq!(detect_kind("/home/u/notes.md"), FileKind::Markdown);
    assert_eq!(detect_kind("notes.md.txt"), FileKind::PlainText);
    assert_eq!(detect_kind("draft.txt.md"), FileKind::Markdown);
    assert_eq!(detect_kind("clip.srt.zip"), FileKind::Binary);
    assert_eq!(detect_kind("/srv/a.b/Report.DOCX"), FileKind::Docx);
}
