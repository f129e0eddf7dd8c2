//! Parsing of a color in whichever notation it is written.

use vstd::prelude::*;
use crate::color::RGB;
use crate::color_format::ColorFormat;
use crate::error::ParsingError;
use crate::rgb::hex_str::hex_str_color;
use crate::rgb::rgb_function_str::rgb_function_color;
use crate::rgb::Rgb;
use crate::hue_models::convert::{hsl_color, hsl_to_rgb, hwb_color, hwb_to_rgb};
use crate::hue_models::hsl_function::{hsl_function_color, Hsla};
use crate::hue_models::hwb_function::{hwb_function_color, Hwba};
use crate::text::{
    chars_of, equals_ignoring_case, is_word, starts_with_ignoring_case, starts_with_word,
};

verus! {

/// The color that a name stands for in CSS, as red, green and blue in a single byte
/// each, or none where CSS has no color of that name. A name is the same name in
/// upper and lower case.
pub uninterp spec fn named_color_of(ident: Seq<char>) -> Option<(u8, u8, u8)>;

/// Looks a name up among the named colors of CSS, with `parse_named_color` of
/// `cssparser`: the color of that name, or none where there is no such name.
#[verifier::external_body]
fn parse_named_color(ident: &str) -> (color: Option<(u8, u8, u8)>)
    ensures
        color == named_color_of(ident@),
{
    cssparser::color::parse_named_color(ident).ok()
}

/// What a string means that is no color in hex notation and none in a function
/// notation, where `named` is the named color of CSS that it stands for: the keyword
/// `currentcolor` and the `color` function are not supported, the keyword
/// `transparent` is black without any opacity, and a named color is opaque.
pub open spec fn keyword_color(s: Seq<char>, named: Option<(u8, u8, u8)>) -> Result<
    Rgb,
    ParsingError,
> {
    if is_word(s, "currentcolor"@) {
        Err(ParsingError::UnsupportedValue("currentcolor is not supported in this context"))
    } else if starts_with_word(s, "color("@) {
        Err(ParsingError::UnsupportedValue("format is not supported"))
    } else if is_word(s, "transparent"@) {
        Ok(Rgb::of_bytes(RGB { red: 0, green: 0, blue: 0, alpha: 0 }))
    } else {
        match named {
            Some((red, green, blue)) => Ok(Rgb::of_bytes(RGB { red, green, blue, alpha: 255 })),
            None => Err(ParsingError::InvalidSyntax("Invalid syntax")),
        }
    }
}

/// What a string means as a color: it is read in hex notation, where that fails in
/// RGB function notation, then in HSL function notation, then in HWB function
/// notation, and where that fails as a keyword, whose error is then the error.
pub open spec fn color_of(s: Seq<char>) -> Result<Rgb, ParsingError> {
    match hex_str_color(s) {
        Ok(bytes) => Ok(Rgb::of_bytes(bytes)),
        Err(_) => match rgb_function_color(s) {
            Ok(color) => Ok(color),
            Err(_) => match hsl_function_color(s) {
                Ok(hsl) => Ok(hsl_color(hsl)),
                Err(_) => match hwb_function_color(s) {
                    Ok(hwb) => Ok(hwb_color(hwb)),
                    Err(_) => keyword_color(s, named_color_of(s)),
                },
            },
        },
    }
}

/// Gives the color of a keyword or of a name, where `named` is the named color of
/// CSS that the string stands for.
///
/// # Errors
/// - `UnsupportedValue` if the string is the keyword `currentcolor`.
/// - `UnsupportedValue` if the string starts as the `color` function does.
/// - `InvalidSyntax` if the string is neither of these, nor the keyword
///   `transparent`, and `named` is none.
pub fn color_of_keyword(seq: &[char], named: Option<(u8, u8, u8)>) -> (result: Result<
    Rgb,
    ParsingError,
>)
    ensures
        result == keyword_color(seq@, named),
{
    if equals_ignoring_case(seq, "currentcolor") {
        Err(ParsingError::UnsupportedValue("currentcolor is not supported in this context"))
    } else if starts_with_ignoring_case(seq, "color(") {
        Err(ParsingError::UnsupportedValue("format is not supported"))
    } else if equals_ignoring_case(seq, "transparent") {
        Ok(Rgb::from_bytes(&RGB::from_rgba(0, 0, 0, 0)))
    } else {
        match named {
            Some((red, green, blue)) => Ok(Rgb::from_bytes(&RGB::from_rgb(red, green, blue))),
            None => Err(ParsingError::InvalidSyntax("Invalid syntax")),
        }
    }
}

/// Parses a CSS color string: a color in hex notation or in RGB, HSL or HWB function
/// notation, the keyword `transparent`, or a named color.
///
/// # Errors
/// Where the string is in none of these notations, those of [`color_of_keyword`].
pub fn parse_color(seq: &str) -> (result: Result<Rgb, ParsingError>)
    ensures
        result == color_of(seq@),
{
    match Rgb::from_hex_str(seq) {
        Ok(color) => Ok(color),
        Err(_) => match Rgb::from_rgb_function_str(seq) {
            Ok(color) => Ok(color),
            Err(_) => match Hsla::from_hsl_function_str(seq) {
                Ok(hsl) => Ok(hsl_to_rgb(&hsl)),
                Err(_) => match Hwba::from_hwb_function_str(seq) {
                    Ok(hwb) => Ok(hwb_to_rgb(&hwb)),
                    Err(_) => {
                        let chars = chars_of(seq);
                        color_of_keyword(chars.as_slice(), parse_named_color(seq))
                    },
                },
            },
        },
    }
}

/// What a string means as a color in the notation asked for, or in whichever
/// notation it is written where none is asked for.
pub open spec fn color_in_format(s: Seq<char>, format: ColorFormat) -> Result<Rgb, ParsingError> {
    match format {
        ColorFormat::Auto => color_of(s),
        ColorFormat::RgbHex => match hex_str_color(s) {
            Ok(bytes) => Ok(Rgb::of_bytes(bytes)),
            Err(e) => Err(e),
        },
        ColorFormat::RgbFunction => rgb_function_color(s),
        ColorFormat::HslFunction => match hsl_function_color(s) {
            Ok(hsl) => Ok(hsl_color(hsl)),
            Err(e) => Err(e),
        },
        ColorFormat::HwbFunction => match hwb_function_color(s) {
            Ok(hwb) => Ok(hwb_color(hwb)),
            Err(e) => Err(e),
        },
    }
}

/// Parses a CSS color string in the notation asked for, or in whichever notation
/// it is written where none is asked for.
///
/// # Errors
/// Those of the notation asked for, and those of [`parse_color`] where none is
/// asked for.
pub fn parse_color_in_format(seq: &str, format: ColorFormat) -> (result: Result<
    Rgb,
    ParsingError,
>)
    ensures
        result == color_in_format(seq@, format),
{
    match format {
        ColorFormat::Auto => parse_color(seq),
        ColorFormat::RgbHex => Rgb::from_hex_str(seq),
        ColorFormat::RgbFunction => Rgb::from_rgb_function_str(seq),
        ColorFormat::HslFunction => match Hsla::from_hsl_function_str(seq) {
            Ok(hsl) => Ok(hsl_to_rgb(&hsl)),
            Err(e) => Err(e),
        },
        ColorFormat::HwbFunction => match Hwba::from_hwb_function_str(seq) {
            Ok(hwb) => Ok(hwb_to_rgb(&hwb)),
            Err(e) => Err(e),
        },
    }
}

} // verus!
