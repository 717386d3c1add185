//! Colour theme: the xterm 256-colour model and the bold / dim attributes.

use vstd::prelude::*;

verus! {

/// A terminal colour, as the screen model reports it for a cell.
#[derive(Clone, Copy, Debug, PartialEq, Eq, Structural)]
pub enum Color {
    /// The terminal's default colour.
    Default,
    /// An indexed colour (0-15 the theme palette, 16-231 the 6x6x6 cube,
    /// 232-255 the grey ramp).
    Idx(u8),
    /// A direct RGB colour.
    Rgb(u8, u8, u8),
}

/// Theme for terminal colours.
#[derive(Clone, Debug)]
pub struct Theme {
    /// Standard ANSI 16 colours (RGBA).
    pub colors: [[u8; 4]; 16],
}

/// The RGBA value of palette entry `i`.
pub open spec fn palette_entry(colors: [[u8; 4]; 16], i: int) -> Seq<u8> {
    colors@[i]@
}

/// One component of the 6x6x6 colour cube: `0, 51, ..., 255`.
pub open spec fn cube_level(k: int) -> u8 {
    (k * 51) as u8
}

/// The RGBA value of a colour under a palette.
pub open spec fn spec_color_to_rgba(colors: [[u8; 4]; 16], color: Color) -> Seq<u8> {
    match color {
        Color::Default => seq![229u8, 229u8, 229u8, 255u8],
        Color::Idx(i) => {
            if i < 16 {
                palette_entry(colors, i as int)
            } else if i >= 232 {
                let shade = ((i - 232) * 10 + 8) as u8;
                seq![shade, shade, shade, 255u8]
            } else {
                let j = i - 16;
                seq![cube_level(j / 36), cube_level((j / 6) % 6), cube_level(j % 6), 255u8]
            }
        },
        Color::Rgb(r, g, b) => seq![r, g, b, 255u8],
    }
}

/// The colour before the dim attribute is applied: bold maps the default
/// colour to bright white and the eight normal colours to their bright
/// variants.
pub open spec fn spec_bold_color(colors: [[u8; 4]; 16], color: Color, bold: bool) -> Seq<u8> {
    if bold {
        match color {
            Color::Default => palette_entry(colors, 15),
            Color::Idx(i) => {
                if i < 8 {
                    palette_entry(colors, i + 8)
                } else {
                    spec_color_to_rgba(colors, color)
                }
            },
            _ => spec_color_to_rgba(colors, color),
        }
    } else {
        spec_color_to_rgba(colors, color)
    }
}

/// Dim blends each colour channel halfway toward the background grey
/// (30, 30, 30): `c / 2 + 15`; alpha is kept.
pub open spec fn spec_dim(c: Seq<u8>) -> Seq<u8> {
    seq![(c[0] / 2 + 15) as u8, (c[1] / 2 + 15) as u8, (c[2] / 2 + 15) as u8, c[3]]
}

/// The foreground RGBA value of a cell with the given attributes.
pub open spec fn spec_foreground(colors: [[u8; 4]; 16], color: Color, bold: bool, dim: bool) -> Seq<u8> {
    let c = spec_bold_color(colors, color, bold);
    if dim {
        spec_dim(c)
    } else {
        c
    }
}

/// The palette of the default theme.
pub open spec fn default_palette() -> Seq<Seq<u8>> {
    seq![
        seq![0u8, 0u8, 0u8, 255u8],
        seq![194u8, 54u8, 33u8, 255u8],
        seq![37u8, 188u8, 36u8, 255u8],
        seq![173u8, 173u8, 39u8, 255u8],
        seq![73u8, 46u8, 225u8, 255u8],
        seq![211u8, 56u8, 211u8, 255u8],
        seq![51u8, 187u8, 200u8, 255u8],
        seq![203u8, 204u8, 205u8, 255u8],
        seq![128u8, 128u8, 128u8, 255u8],
        seq![255u8, 85u8, 85u8, 255u8],
        seq![85u8, 255u8, 85u8, 255u8],
        seq![255u8, 255u8, 85u8, 255u8],
        seq![85u8, 85u8, 255u8, 255u8],
        seq![255u8, 85u8, 255u8, 255u8],
        seq![85u8, 255u8, 255u8, 255u8],
        seq![255u8, 255u8, 255u8, 255u8],
    ]
}

impl Default for Theme {
    fn default() -> (r: Self)
        ensures
            forall|i: int| 0 <= i < 16 ==> #[trigger] palette_entry(r.colors, i) == default_palette()[i],
    {
        let r = Theme {
            colors: [
                // Normal colours
                [0, 0, 0, 255],  // Black
                [194, 54, 33, 255],  // Red
                [37, 188, 36, 255],  // Green
                [173, 173, 39, 255],  // Yellow
                [73, 46, 225, 255],  // Blue
                [211, 56, 211, 255],  // Magenta
                [51, 187, 200, 255],  // Cyan
                [203, 204, 205, 255],  // White
                // Bright colours
                [128, 128, 128, 255],  // Bright Black (Gray)
                [255, 85, 85, 255],  // Bright Red
                [85, 255, 85, 255],  // Bright Green
                [255, 255, 85, 255],  // Bright Yellow
                [85, 85, 255, 255],  // Bright Blue
                [255, 85, 255, 255],  // Bright Magenta
                [85, 255, 255, 255],  // Bright Cyan
                [255, 255, 255, 255],  // Bright White
            ],
        };
        assert(forall|i: int| 0 <= i < 16 ==> #[trigger] palette_entry(r.colors, i) == default_palette()[i]);
        r
    }
}

impl Theme {
    /// Convert a terminal colour to RGBA.
    pub fn color_to_rgba(&self, color: Color) -> (r: [u8; 4])
        ensures
            r@ == spec_color_to_rgba(self.colors, color),
    {
        match color {
            Color::Default => [229, 229, 229, 255],
            Color::Idx(i) => {
                if i < 16 {
                    self.colors[i as usize]
                } else if i >= 232 {
                    // Grayscale
                    let shade = (i - 232) * 10 + 8;
                    [shade, shade, shade, 255]
                } else {
                    // 216-colour cube
                    let i = i - 16;
                    let r = (i / 36) * 51;
                    let g = ((i / 6) % 6) * 51;
                    let b = (i % 6) * 51;
                    [r, g, b, 255]
                }
            },
            Color::Rgb(r, g, b) => [r, g, b, 255],
        }
    }

    /// Get the foreground colour with the bold and dim attributes applied.
    pub fn get_foreground(&self, color: Color, bold: bool, dim: bool) -> (r: [u8; 4])
        ensures
            r@ == spec_foreground(self.colors, color, bold, dim),
    {
        let rgba = if bold {
            match color {
                Color::Default => self.colors[15],  // bright white
                Color::Idx(i) => {
                    if i < 8 {
                        // Map normal colour to bright variant (index + 8)
                        self.colors[i as usize + 8]
                    } else {
                        self.color_to_rgba(color)
                    }
                },
                _ => self.color_to_rgba(color),
            }
        } else {
            self.color_to_rgba(color)
        };

        if dim {
            // Dim: blend 50% toward background (30,30,30)
            let bg: [u8; 3] = [30, 30, 30];
            [
                (rgba[0] as u16 / 2 + bg[0] as u16 / 2) as u8,
                (rgba[1] as u16 / 2 + bg[1] as u16 / 2) as u8,
                (rgba[2] as u16 / 2 + bg[2] as u16 / 2) as u8,
                rgba[3],
            ]
        } else {
            rgba
        }
    }

    /// Get the background colour.
    pub fn get_background(&self, color: Color) -> (r: [u8; 4])
        ensures
            r@ == spec_color_to_rgba(self.colors, color),
    {
        self.color_to_rgba(color)
    }
}

} // verus!
