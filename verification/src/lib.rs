//! A verified core for a small multi-format note viewer and editor:
//! file-kind detection, Markdown / DOCX / SRT block extraction, and the
//! editor's state transitions.

pub mod text;
pub mod block;
pub mod srt;
pub mod kind;
pub mod markdown;
pub mod json;
pub mod docx;
pub mod theme;
pub mod note;
pub mod laws;
pub mod render_laws;
