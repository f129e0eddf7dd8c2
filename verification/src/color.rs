//! Colors with channels of a single byte.

use vstd::prelude::*;
use crate::rgb::hex_str::{hex_text, printed_alpha, LetterCase, ShorthandNotation};
use crate::rgb::OmitAlphaChannel;

verus! {

/// Represents a single RGB color with an alpha channel, each channel held in a single byte.
#[derive(Debug, Clone, Copy, PartialEq, Eq, Structural)]
pub struct RGB {
    pub red: u8,
    pub green: u8,
    pub blue: u8,
    pub alpha: u8,
}

impl RGB {
    pub fn red(&self) -> (red: u8)
        ensures
            red == self.red,
    {
        self.red
    }

    pub fn green(&self) -> (green: u8)
        ensures
            green == self.green,
    {
        self.green
    }

    pub fn blue(&self) -> (blue: u8)
        ensures
            blue == self.blue,
    {
        self.blue
    }

    pub fn alpha(&self) -> (alpha: u8)
        ensures
            alpha == self.alpha,
    {
        self.alpha
    }

    /// Creates a RGB instance with custom alpha channel based on the given values.
    pub fn from_rgba(red: u8, green: u8, blue: u8, alpha: u8) -> (color: RGB)
        ensures
            color == (RGB { red, green, blue, alpha }),
    {
        RGB { red, green, blue, alpha }
    }

    /// Creates a RGB instance based on the given values. The alpha channel is fully opaque.
    pub fn from_rgb(red: u8, green: u8, blue: u8) -> (color: RGB)
        ensures
            color == (RGB { red, green, blue, alpha: 255 }),
    {
        RGB::from_rgba(red, green, blue, u8::MAX)
    }

    /// Creates the string that stands for this color where no notation is asked
    /// for: hex notation, in upper case and as short as it can be.
    pub fn to_string(&self) -> (text: String)
        ensures
            text@ == hex_text(
                self.red,
                self.green,
                self.blue,
                printed_alpha(self.alpha, self.alpha == 255, OmitAlphaChannel::IfOpaque),
                ShorthandNotation::IfPossible,
                LetterCase::Uppercase,
            ),
    {
        self.to_hex_str(
            OmitAlphaChannel::IfOpaque,
            ShorthandNotation::IfPossible,
            LetterCase::Uppercase,
        )
    }
}

} // verus!
