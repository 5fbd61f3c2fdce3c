//! The two colour themes of the editor.
use vstd::prelude::*;

verus! {

/// A colour: red, green, blue and (unmultiplied) alpha.
#[derive(Debug, Clone, Copy, PartialEq, Eq, Structural)]
pub struct Rgba {
    pub r: u8,
    pub g: u8,
    pub b: u8,
    pub a: u8,
}

/// The colours of the editor's surfaces, texts and rendered blocks.
#[derive(Debug, Clone, Copy, PartialEq, Eq, Structural)]
pub struct Theme {
    pub toolbar_bg: Rgba,
    pub editor_bg: Rgba,
    pub btn_bg: Rgba,
    pub btn_hover: Rgba,
    pub accent: Rgba,
    pub text: Rgba,
    pub text_dim: Rgba,
    pub h1: Rgba,
    pub h2: Rgba,
    pub h3: Rgba,
    pub code_bg: Rgba,
    pub quote_bg: Rgba,
    pub srt_card: Rgba,
    pub srt_index: Rgba,
    pub srt_time: Rgba,
    pub green: Rgba,
    pub red: Rgba,
}

impl Theme {
    /// The colours of the dark theme.
    pub open spec fn dark_theme() -> Theme {
        Theme {
            toolbar_bg: Rgba { r: 18, g: 21, b: 40, a: 255 },
            editor_bg: Rgba { r: 12, g: 14, b: 26, a: 255 },
            btn_bg: Rgba { r: 35, g: 40, b: 70, a: 255 },
            btn_hover: Rgba { r: 55, g: 62, b: 105, a: 255 },
            accent: Rgba { r: 108, g: 126, b: 255, a: 255 },
            text: Rgba { r: 215, g: 220, b: 245, a: 255 },
            text_dim: Rgba { r: 95, g: 105, b: 155, a: 255 },
            h1: Rgba { r: 148, g: 168, b: 255, a: 255 },
            h2: Rgba { r: 100, g: 210, b: 245, a: 255 },
            h3: Rgba { r: 140, g: 230, b: 165, a: 255 },
            code_bg: Rgba { r: 20, g: 24, b: 45, a: 255 },
            quote_bg: Rgba { r: 80, g: 90, b: 160, a: 28 },
            srt_card: Rgba { r: 38, g: 44, b: 85, a: 140 },
            srt_index: Rgba { r: 108, g: 126, b: 255, a: 255 },
            srt_time: Rgba { r: 88, g: 210, b: 165, a: 255 },
            green: Rgba { r: 88, g: 215, b: 130, a: 255 },
            red: Rgba { r: 255, g: 95, b: 95, a: 255 },
        }
    }

    /// The dark theme.
    pub fn dark() -> (t: Theme)
        ensures
            t == Theme::dark_theme(),
    {
        Theme {
            toolbar_bg: Rgba { r: 18, g: 21, b: 40, a: 255 },
            editor_bg: Rgba { r: 12, g: 14, b: 26, a: 255 },
            btn_bg: Rgba { r: 35, g: 40, b: 70, a: 255 },
            btn_hover: Rgba { r: 55, g: 62, b: 105, a: 255 },
            accent: Rgba { r: 108, g: 126, b: 255, a: 255 },
            text: Rgba { r: 215, g: 220, b: 245, a: 255 },
            text_dim: Rgba { r: 95, g: 105, b: 155, a: 255 },
            h1: Rgba { r: 148, g: 168, b: 255, a: 255 },
            h2: Rgba { r: 100, g: 210, b: 245, a: 255 },
            h3: Rgba { r: 140, g: 230, b: 165, a: 255 },
            code_bg: Rgba { r: 20, g: 24, b: 45, a: 255 },
            quote_bg: Rgba { r: 80, g: 90, b: 160, a: 28 },
            srt_card: Rgba { r: 38, g: 44, b: 85, a: 140 },
            srt_index: Rgba { r: 108, g: 126, b: 255, a: 255 },
            srt_time: Rgba { r: 88, g: 210, b: 165, a: 255 },
            green: Rgba { r: 88, g: 215, b: 130, a: 255 },
            red: Rgba { r: 255, g: 95, b: 95, a: 255 },
        }
    }

    /// The colours of the light theme.
    pub open spec fn light_theme() -> Theme {
        Theme {
            toolbar_bg: Rgba { r: 232, g: 235, b: 255, a: 255 },
            editor_bg: Rgba { r: 250, g: 251, b: 255, a: 255 },
            btn_bg: Rgba { r: 210, g: 216, b: 245, a: 255 },
            btn_hover: Rgba { r: 188, g: 196, b: 238, a: 255 },
            accent: Rgba { r: 65, g: 85, b: 215, a: 255 },
            text: Rgba { r: 28, g: 30, b: 58, a: 255 },
            text_dim: Rgba { r: 100, g: 110, b: 152, a: 255 },
            h1: Rgba { r: 38, g: 58, b: 200, a: 255 },
            h2: Rgba { r: 18, g: 118, b: 178, a: 255 },
            h3: Rgba { r: 28, g: 138, b: 78, a: 255 },
            code_bg: Rgba { r: 226, g: 230, b: 252, a: 255 },
            quote_bg: Rgba { r: 148, g: 158, b: 218, a: 40 },
            srt_card: Rgba { r: 210, g: 215, b: 245, a: 180 },
            srt_index: Rgba { r: 65, g: 85, b: 215, a: 255 },
            srt_time: Rgba { r: 18, g: 138, b: 100, a: 255 },
            green: Rgba { r: 18, g: 155, b: 58, a: 255 },
            red: Rgba { r: 200, g: 38, b: 38, a: 255 },
        }
    }

    /// The light theme.
    pub fn light() -> (t: Theme)
        ensures
            t == Theme::light_theme(),
    {
        Theme {
            toolbar_bg: Rgba { r: 232, g: 235, b: 255, a: 255 },
            editor_bg: Rgba { r: 250, g: 251, b: 255, a: 255 },
            btn_bg: Rgba { r: 210, g: 216, b: 245, a: 255 },
            btn_hover: Rgba { r: 188, g: 196, b: 238, a: 255 },
            accent: Rgba { r: 65, g: 85, b: 215, a: 255 },
            text: Rgba { r: 28, g: 30, b: 58, a: 255 },
            text_dim: Rgba { r: 100, g: 110, b: 152, a: 255 },
            h1: Rgba { r: 38, g: 58, b: 200, a: 255 },
            h2: Rgba { r: 18, g: 118, b: 178, a: 255 },
            h3: Rgba { r: 28, g: 138, b: 78, a: 255 },
            code_bg: Rgba { r: 226, g: 230, b: 252, a: 255 },
            quote_bg: Rgba { r: 148, g: 158, b: 218, a: 40 },
            srt_card: Rgba { r: 210, g: 215, b: 245, a: 180 },
            srt_index: Rgba { r: 65, g: 85, b: 215, a: 255 },
            srt_time: Rgba { r: 18, g: 138, b: 100, a: 255 },
            green: Rgba { r: 18, g: 155, b: 58, a: 255 },
            red: Rgba { r: 200, g: 38, b: 38, a: 255 },
        }
    }

    /// The theme for a mode: dark or light.
    pub fn for_mode(dark_mode: bool) -> (t: Theme)
        ensures
            dark_mode ==> t == Theme::dark_theme(),
            !dark_mode ==> t == Theme::light_theme(),
    {
        if dark_mode {
            Theme::dark()
        } else {
            Theme::light()
        }
    }
}

} // verus!
