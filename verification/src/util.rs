//! The palette of the forces and the list of maps.

use vstd::prelude::*;
use crate::game::Force;

verus! {

/// The map files that can be played.
pub struct MapManifest {
    pub map_files: Vec<String>,
}

/// Gathers what the game needs before it starts.
pub struct MacroUtils {}

impl MacroUtils {
    /// The manifest of the map files found, in the order in which they were
    /// found.
    pub fn manifest(map_files: Vec<String>) -> (manifest: MapManifest)
        ensures
            manifest.map_files == map_files,
    {
        MapManifest { map_files }
    }
}

/// The colours in which the forces are drawn.
#[derive(Clone, Copy, Debug, PartialEq, Eq, Structural)]
pub enum ColorPalette {
    ForceRed,
    ForceBlue,
    ForceYellow,
    ForceOrange,
    ForceGreen,
    ForceBlack,
    ForceWhite,
}

/// A colour by its red, green and blue parts, each out of 255.
#[derive(Clone, Copy, Debug, PartialEq, Eq, Structural)]
pub struct Rgb {
    pub r: u16,
    pub g: u16,
    pub b: u16,
}

impl ColorPalette {
    /// The colour's parts.
    pub open spec fn spec_value(&self) -> Rgb {
        match self {
            ColorPalette::ForceRed => Rgb { r: 227, g: 72, b: 71 },
            ColorPalette::ForceBlue => Rgb { r: 150, g: 143, b: 239 },
            ColorPalette::ForceYellow => Rgb { r: 239, g: 255, b: 100 },
            ColorPalette::ForceOrange => Rgb { r: 225, g: 164, b: 3 },
            ColorPalette::ForceGreen => Rgb { r: 10, g: 155, b: 112 },
            ColorPalette::ForceWhite => Rgb { r: 255, g: 255, b: 255 },
            ColorPalette::ForceBlack => Rgb { r: 0, g: 0, b: 0 },
        }
    }

    /// The colour's parts.
    pub fn value(&self) -> (rgb: Rgb)
        ensures
            rgb == self.spec_value(),
            rgb.r <= 255 && rgb.g <= 255 && rgb.b <= 255,
    {
        match self {
            ColorPalette::ForceRed => Self::rgb(227, 72, 71),
            ColorPalette::ForceBlue => Self::rgb(150, 143, 239),
            ColorPalette::ForceYellow => Self::rgb(239, 255, 100),
            ColorPalette::ForceOrange => Self::rgb(225, 164, 3),
            ColorPalette::ForceGreen => Self::rgb(10, 155, 112),
            ColorPalette::ForceWhite => Self::rgb(255, 255, 255),
            ColorPalette::ForceBlack => Self::rgb(0, 0, 0),
        }
    }

    fn rgb(r: u16, g: u16, b: u16) -> (rgb: Rgb)
        ensures
            rgb == (Rgb { r, g, b }),
    {
        Rgb { r, g, b }
    }
}

impl Force {
    /// The colour of a force: the first six forces have one each, all later
    /// ones are white.
    pub open spec fn spec_color(&self) -> ColorPalette {
        if self.0 == 0 {
            ColorPalette::ForceBlue
        } else if self.0 == 1 {
            ColorPalette::ForceGreen
        } else if self.0 == 2 {
            ColorPalette::ForceOrange
        } else if self.0 == 3 {
            ColorPalette::ForceRed
        } else if self.0 == 4 {
            ColorPalette::ForceYellow
        } else if self.0 == 5 {
            ColorPalette::ForceBlack
        } else {
            ColorPalette::ForceWhite
        }
    }

    /// The colour in which the force is drawn.
    pub fn color(&self) -> (color: ColorPalette)
        ensures
            color == self.spec_color(),
    {
        match self.0 {
            0 => ColorPalette::ForceBlue,
            1 => ColorPalette::ForceGreen,
            2 => ColorPalette::ForceOrange,
            3 => ColorPalette::ForceRed,
            4 => ColorPalette::ForceYellow,
            5 => ColorPalette::ForceBlack,
            _ => ColorPalette::ForceWhite,
        }
    }
}

} // verus!
