//! **R**ed **G**reen **B**lue color model.

use vstd::prelude::*;
use crate::color::RGB;
use crate::component::{byte_ceil, is_byte_exact, FloatComponent, SingleByteComponent};
use crate::component::{BYTE_STEP, VALUE_MAX};

pub use crate::rgb::hex_str::{LetterCase, ShorthandNotation};
pub use crate::rgb::rgb_channel::RgbChannel;
pub use crate::rgb::rgb_function_str::ChannelUnit;
use crate::rgb::hex_str::{hex_text, printed_alpha};
use crate::rgb::rgb_function_str::rgb_function_text;

pub mod hex_str;
pub mod rgb_function_str;
mod rgb_channel;

verus! {

/// Represents a color in the [RGB color model](https://en.wikipedia.org/wiki/RGB_color_model) (with an alpha channel).
#[derive(Debug, Clone, Copy, PartialEq, Eq, Structural)]
pub struct Rgb {
    pub red: RgbChannel,
    pub green: RgbChannel,
    pub blue: RgbChannel,
    pub alpha: RgbChannel,
}

/// If the alpha channel may be omitted if it is opaque.
#[derive(Debug, PartialEq, Eq, Copy, Clone, Structural)]
pub enum OmitAlphaChannel {
    Never,
    IfOpaque,
}

impl Rgb {
    pub fn red(&self) -> (channel: &RgbChannel)
        ensures
            *channel == self.red,
    {
        &self.red
    }

    pub fn green(&self) -> (channel: &RgbChannel)
        ensures
            *channel == self.green,
    {
        &self.green
    }

    pub fn blue(&self) -> (channel: &RgbChannel)
        ensures
            *channel == self.blue,
    {
        &self.blue
    }

    pub fn alpha(&self) -> (channel: &RgbChannel)
        ensures
            *channel == self.alpha,
    {
        &self.alpha
    }

    /// Whether the alpha channel is at the upper end of its range.
    pub open spec fn spec_is_opaque(&self) -> bool {
        self.alpha@ == VALUE_MAX
    }

    /// Returns if this color is fully opaque.
    #[verifier::when_used_as_spec(spec_is_opaque)]
    pub fn is_opaque(&self) -> (opaque: bool)
        ensures
            opaque == self.spec_is_opaque(),
    {
        self.alpha.value() == VALUE_MAX
    }

    /// Whether each of the four channels lies exactly on a value of the range 0 to 255.
    pub open spec fn spec_channels_fit_in_u8(&self) -> bool {
        &&& is_byte_exact(self.red@)
        &&& is_byte_exact(self.green@)
        &&& is_byte_exact(self.blue@)
        &&& is_byte_exact(self.alpha@)
    }

    /// Checks if this color can be fully represented with channels in a range from 0 to 255.
    #[verifier::when_used_as_spec(spec_channels_fit_in_u8)]
    pub fn channels_fit_in_u8(&self) -> (fit: bool)
        ensures
            fit == self.spec_channels_fit_in_u8(),
    {
        self.red.fits_in_u8() && self.blue.fits_in_u8() && self.green.fits_in_u8()
            && self.alpha.fits_in_u8()
    }

    /// The color whose channels have the given single byte values.
    pub open spec fn of_bytes(bytes: RGB) -> Rgb {
        Rgb {
            red: RgbChannel::with_value((bytes.red * BYTE_STEP) as nat),
            green: RgbChannel::with_value((bytes.green * BYTE_STEP) as nat),
            blue: RgbChannel::with_value((bytes.blue * BYTE_STEP) as nat),
            alpha: RgbChannel::with_value((bytes.alpha * BYTE_STEP) as nat),
        }
    }

    /// Creates a color whose channels have the given single byte values.
    pub fn from_bytes(bytes: &RGB) -> (color: Rgb)
        ensures
            color == Rgb::of_bytes(*bytes),
    {
        Rgb {
            red: RgbChannel::from_u8(bytes.red),
            green: RgbChannel::from_u8(bytes.green),
            blue: RgbChannel::from_u8(bytes.blue),
            alpha: RgbChannel::from_u8(bytes.alpha),
        }
    }

    /// The channels of this color, each rounded up to a single byte value.
    pub open spec fn rounded_bytes(&self) -> RGB {
        RGB {
            red: byte_ceil(self.red@) as u8,
            green: byte_ceil(self.green@) as u8,
            blue: byte_ceil(self.blue@) as u8,
            alpha: byte_ceil(self.alpha@) as u8,
        }
    }

    /// Returns the color with the channels of this color, each rounded up to a single
    /// byte value. Precision is lost unless the channels fit, see
    /// [`channels_fit_in_u8`](#method.channels_fit_in_u8).
    pub fn to_bytes_round(&self) -> (bytes: RGB)
        ensures
            bytes == self.rounded_bytes(),
    {
        RGB {
            red: self.red.to_u8_round(),
            green: self.green.to_u8_round(),
            blue: self.blue.to_u8_round(),
            alpha: self.alpha.to_u8_round(),
        }
    }

    /// Creates an opaque color based on the given color channels.
    pub fn from_channels(red: RgbChannel, green: RgbChannel, blue: RgbChannel) -> (color: Rgb)
        ensures
            color == (Rgb { red, green, blue, alpha: RgbChannel::with_value(VALUE_MAX as nat) }),
    {
        Rgb::from_channels_with_alpha(red, green, blue, RgbChannel::from_value(VALUE_MAX))
    }

    /// Creates a color based on the given color and alpha channels.
    pub fn from_channels_with_alpha(
        red: RgbChannel,
        green: RgbChannel,
        blue: RgbChannel,
        alpha: RgbChannel,
    ) -> (color: Rgb)
        ensures
            color == (Rgb { red, green, blue, alpha }),
    {
        Rgb { red, green, blue, alpha }
    }

    /// The text that stands for this color where no notation is asked for: hex
    /// notation if every channel fits in a single byte, else RGB function notation,
    /// so that no precision is lost.
    pub open spec fn text(&self) -> Seq<char> {
        if self.channels_fit_in_u8() {
            hex_text(
                self.rounded_bytes().red,
                self.rounded_bytes().green,
                self.rounded_bytes().blue,
                printed_alpha(
                    self.rounded_bytes().alpha,
                    self.is_opaque(),
                    OmitAlphaChannel::IfOpaque,
                ),
                ShorthandNotation::IfPossible,
                LetterCase::Uppercase,
            )
        } else {
            rgb_function_text(
                *self,
                OmitAlphaChannel::IfOpaque,
                ChannelUnit::Number,
                ChannelUnit::Number,
            )
        }
    }

    /// Creates the string that stands for this color where no notation is asked
    /// for: hex notation if every channel fits in a single byte, else RGB function
    /// notation.
    pub fn to_string(&self) -> (text: String)
        ensures
            text@ == self.text(),
    {
        if self.channels_fit_in_u8() {
            self.to_hex_str(
                OmitAlphaChannel::IfOpaque,
                ShorthandNotation::IfPossible,
                LetterCase::Uppercase,
            )
        } else {
            self.to_rgb_function_str(
                OmitAlphaChannel::IfOpaque,
                ChannelUnit::Number,
                ChannelUnit::Number,
            )
        }
    }
}

} // verus!
