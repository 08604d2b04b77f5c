use vstd::prelude::*;

verus! {

/// A terminal colour as the game uses it.
#[derive(Clone, Copy, Debug, PartialEq, Eq, Structural)]
pub enum Color {
    Reset,
    Black,
    White,
    Rgb { r: u8, g: u8, b: u8 },
}

/// The colour a third as bright, channel by channel; any colour that is not
/// an RGB triple becomes black.
pub open spec fn spec_darken(color: Color) -> Color {
    match color {
        Color::Rgb { r, g, b } => Color::Rgb { r: r / 3, g: g / 3, b: b / 3 },
        _ => Color::Black,
    }
}

pub fn darken(color: Color) -> (res: Color)
    ensures
        res == spec_darken(color),
{
    match color {
        Color::Rgb { r, g, b } => Color::Rgb { r: r / 3, g: g / 3, b: b / 3 },
        _ => Color::Black,
    }
}

} // verus!
