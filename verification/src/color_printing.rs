//! A color as it is printed in the notation asked for.

use vstd::prelude::*;
use crate::color_format::ColorFormat;
use crate::contrast::{best_contrast_at, is_best_contrast};
use crate::rgb::rgb_function_str::rgb_function_text;
use crate::rgb::hex_str::{hex_text, printed_alpha};
use crate::rgb::{ChannelUnit, LetterCase, OmitAlphaChannel, Rgb, ShorthandNotation};
use crate::hue_models::convert::{hsl_of, hwb_of, rgb_to_hsl, rgb_to_hwb};
use crate::hue_models::hsl_function::{hsl_function_text, to_hsl_function_str};
use crate::hue_models::hwb_function::{hwb_function_text, to_hwb_function_str};

verus! {

/// A color in the notation asked for. Where none is asked for, the color is
/// printed as its `to_string` prints it. The alpha channel is omitted if the color
/// is opaque, hex notation is in upper case and as short as it can be, and
/// channels that can be numbers or percentages are numbers.
pub open spec fn color_text(color: Rgb, format: ColorFormat) -> Seq<char> {
    match format {
        ColorFormat::Auto => color.text(),
        ColorFormat::RgbHex => hex_text(
            color.rounded_bytes().red,
            color.rounded_bytes().green,
            color.rounded_bytes().blue,
            printed_alpha(
                color.rounded_bytes().alpha,
                color.is_opaque(),
                OmitAlphaChannel::IfOpaque,
            ),
            ShorthandNotation::IfPossible,
            LetterCase::Uppercase,
        ),
        ColorFormat::RgbFunction => rgb_function_text(
            color,
            OmitAlphaChannel::IfOpaque,
            ChannelUnit::Number,
            ChannelUnit::Number,
        ),
        ColorFormat::HslFunction => hsl_function_text(
            hsl_of(color),
            OmitAlphaChannel::IfOpaque,
            ChannelUnit::Number,
        ),
        ColorFormat::HwbFunction => hwb_function_text(
            hwb_of(color),
            OmitAlphaChannel::IfOpaque,
            ChannelUnit::Number,
        ),
    }
}

/// Formats a color in the notation asked for.
pub fn format_color(color: &Rgb, format: ColorFormat) -> (text: String)
    ensures
        text@ == color_text(*color, format),
{
    match format {
        ColorFormat::Auto => color.to_string(),
        ColorFormat::RgbHex => color.to_hex_str(
            OmitAlphaChannel::IfOpaque,
            ShorthandNotation::IfPossible,
            LetterCase::Uppercase,
        ),
        ColorFormat::RgbFunction => color.to_rgb_function_str(
            OmitAlphaChannel::IfOpaque,
            ChannelUnit::Number,
            ChannelUnit::Number,
        ),
        ColorFormat::HslFunction => to_hsl_function_str(
            &rgb_to_hsl(color),
            OmitAlphaChannel::IfOpaque,
            ChannelUnit::Number,
        ),
        ColorFormat::HwbFunction => to_hwb_function_str(
            &rgb_to_hwb(color),
            OmitAlphaChannel::IfOpaque,
            ChannelUnit::Number,
        ),
    }
}

/// Finds and returns the `color_options` value that has the best contrast to
/// `initial_color`: the first of those whose contrast ratio no other exceeds. Without
/// any option, `initial_color` is returned.
pub fn get_best_contrast<'a>(initial_color: &'a Rgb, color_options: &'a [Rgb]) -> (best: &'a Rgb)
    ensures
        color_options@.len() == 0 ==> *best == *initial_color,
        color_options@.len() > 0 ==> exists|at: int|
            is_best_contrast(*initial_color, color_options@, at) && *best == color_options@[at],
{
    match best_contrast_at(initial_color, color_options) {
        Some(best) => &color_options[best],
        // Only without options, so any color is as good as this one.
        None => initial_color,
    }
}

} // verus!
