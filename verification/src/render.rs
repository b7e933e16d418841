//! Colour palettes for the terminal presentation.  The palette is plain
//! data; applying it to a terminal is the surrounding program's work.

use vstd::prelude::*;

verus! {

/// The colours one theme uses, as RGB triples.
#[derive(Debug, Clone, Copy)]
pub struct ThemePalette {
    pub prompt_bracket: (u8, u8, u8),
    pub prompt_separator: (u8, u8, u8),
    pub prompt_provider: (u8, u8, u8),
    pub prompt_model: (u8, u8, u8),
    pub prompt_arrow: (u8, u8, u8),
    pub error: (u8, u8, u8),
    pub info: (u8, u8, u8),
    pub success: (u8, u8, u8),
    pub command_output_raw: (u8, u8, u8),
}

/// The Nord palette.
pub open spec fn sp_nord_palette() -> ThemePalette {
    ThemePalette {
        prompt_bracket: (76, 86, 106),
        prompt_separator: (76, 86, 106),
        prompt_provider: (129, 161, 193),
        prompt_model: (136, 192, 208),
        prompt_arrow: (76, 86, 106),
        error: (191, 97, 106),
        info: (76, 86, 106),
        success: (163, 190, 140),
        command_output_raw: (216, 222, 233),
    }
}

/// The fallback palette.
pub open spec fn sp_default_palette() -> ThemePalette {
    ThemePalette {
        prompt_bracket: (128, 128, 128),
        prompt_separator: (128, 128, 128),
        prompt_provider: (173, 216, 230),
        prompt_model: (173, 216, 230),
        prompt_arrow: (128, 128, 128),
        error: (200, 0, 0),
        info: (128, 128, 128),
        success: (0, 180, 0),
        command_output_raw: (220, 220, 220),
    }
}

pub fn get_nord_palette() -> (r: ThemePalette)
    ensures
        r == sp_nord_palette(),
{
    ThemePalette {
        prompt_bracket: (76, 86, 106),
        prompt_separator: (76, 86, 106),
        prompt_provider: (129, 161, 193),
        prompt_model: (136, 192, 208),
        prompt_arrow: (76, 86, 106),
        error: (191, 97, 106),
        info: (76, 86, 106),
        success: (163, 190, 140),
        command_output_raw: (216, 222, 233),
    }
}

pub fn get_default_palette() -> (r: ThemePalette)
    ensures
        r == sp_default_palette(),
{
    ThemePalette {
        prompt_bracket: (128, 128, 128),
        prompt_separator: (128, 128, 128),
        prompt_provider: (173, 216, 230),
        prompt_model: (173, 216, 230),
        prompt_arrow: (128, 128, 128),
        error: (200, 0, 0),
        info: (128, 128, 128),
        success: (0, 180, 0),
        command_output_raw: (220, 220, 220),
    }
}

/// The palette a theme paints with: the Nord theme has its own; the themes
/// still being tuned fall back to the default.
pub fn get_theme_palette(theme: crate::state::RenderTheme) -> (r: ThemePalette)
    ensures
        r == (match theme {
            crate::state::RenderTheme::Nord => sp_nord_palette(),
            _ => sp_default_palette(),
        }),
{
    match theme {
        crate::state::RenderTheme::Nord => get_nord_palette(),
        _ => get_default_palette(),
    }
}

} // verus!
