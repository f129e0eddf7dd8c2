//! CSS RGB function notation, see <https://www.w3.org/TR/css-color-4/#rgb-functions>.

use vstd::prelude::*;
use vstd::slice::slice_subrange;
use crate::color::RGB;
use crate::component::{FloatComponent, BYTE_STEP, VALUE_MAX};
use crate::css_function::{
    format_function, function_fields, function_text, function_values,
    lemma_function_text_fields, FunctionFields,
};
use crate::css_types::{
    decimal_text, ends_with_percent, format_number, format_percentage, is_number,
    is_percentage, is_power_of_ten, lemma_decimal_text, matches_number, no_space, number_text,
    number_units, parse_number, parse_percentage, percentage_text, steps_up, CssNumber,
    NUMBER_ONE, PERCENT_ONE, PERCENT_STEP,
};
use crate::error::{NumberError, ParsingError};
use crate::rgb::{OmitAlphaChannel, Rgb, RgbChannel};
use crate::text::{chars_of, string_from_chars};

verus! {

/// Possible CSS types able to represent an RGB component value.
#[derive(Debug, PartialEq, Eq, Copy, Clone, Structural)]
pub enum ChannelUnit {
    Number,
    Percentage,
}

/// Whether a value is a number or a percentage.
pub open spec fn is_channel_value(field: Seq<char>) -> bool {
    if ends_with_percent(field) {
        is_number(field.drop_last())
    } else {
        is_number(field)
    }
}

/// The values of an RGB function string, or none if the string does not have the
/// shape of one: between `rgb(` and `)` stand the values of red, green and blue,
/// or these, a slash and the value of alpha, with one space between any two. Each
/// value is a number or a percentage.
pub open spec fn rgb_function_fields(s: Seq<char>) -> Option<FunctionFields> {
    match function_fields(s, seq!['r', 'g', 'b']) {
        Some(fields) => if is_channel_value(fields.first) && is_channel_value(fields.second)
            && is_channel_value(fields.third) && (fields.alpha matches Some(alpha)
            ==> is_channel_value(alpha)) {
            Some(fields)
        } else {
            None
        },
        None => None,
    }
}

/// The number that the value of a color channel stands for, in units: 255 and
/// 100% are the upper end of the range.
pub open spec fn color_channel_units(field: Seq<char>) -> Result<int, NumberError> {
    if ends_with_percent(field) {
        number_units(field.drop_last(), PERCENT_STEP as nat)
    } else {
        number_units(field, BYTE_STEP as nat)
    }
}

/// The number that the value of the alpha channel stands for, in units: 1 and
/// 100% are the upper end of the range.
pub open spec fn alpha_channel_units(field: Seq<char>) -> Result<int, NumberError> {
    if ends_with_percent(field) {
        number_units(field.drop_last(), PERCENT_STEP as nat)
    } else {
        number_units(field, VALUE_MAX as nat)
    }
}

/// The channel value at or next to a number: what is below the range is taken as
/// its lower end, what is above it as its upper end.
pub open spec fn clamp_units(units: int) -> nat {
    if units < 0 {
        0
    } else if units > VALUE_MAX {
        VALUE_MAX as nat
    } else {
        units as nat
    }
}

/// What the values of an RGB function string mean once their units are known
/// not to be mixed: the color, or the first number that cannot be held.
pub open spec fn fields_color(fields: FunctionFields) -> Result<Rgb, ParsingError> {
    match color_channel_units(fields.first) {
        Err(cause) => Err(ParsingError::NumberConversionFailed(cause)),
        Ok(red) => match color_channel_units(fields.second) {
            Err(cause) => Err(ParsingError::NumberConversionFailed(cause)),
            Ok(green) => match color_channel_units(fields.third) {
                Err(cause) => Err(ParsingError::NumberConversionFailed(cause)),
                Ok(blue) => match fields.alpha {
                    None => Ok(
                        Rgb {
                            red: RgbChannel::with_value(clamp_units(red)),
                            green: RgbChannel::with_value(clamp_units(green)),
                            blue: RgbChannel::with_value(clamp_units(blue)),
                            alpha: RgbChannel::with_value(VALUE_MAX as nat),
                        },
                    ),
                    Some(alpha_field) => match alpha_channel_units(alpha_field) {
                        Err(cause) => Err(ParsingError::NumberConversionFailed(cause)),
                        Ok(alpha) => Ok(
                            Rgb {
                                red: RgbChannel::with_value(clamp_units(red)),
                                green: RgbChannel::with_value(clamp_units(green)),
                                blue: RgbChannel::with_value(clamp_units(blue)),
                                alpha: RgbChannel::with_value(clamp_units(alpha)),
                            },
                        ),
                    },
                },
            },
        },
    }
}

/// What a string means in RGB function notation: the color, or what is wrong with
/// the string.
pub open spec fn rgb_function_color(s: Seq<char>) -> Result<Rgb, ParsingError> {
    match rgb_function_fields(s) {
        None => Err(ParsingError::InvalidSyntax("String did not match RGB function string pattern")),
        Some(fields) => if ends_with_percent(fields.first) != ends_with_percent(fields.second)
            || ends_with_percent(fields.first) != ends_with_percent(fields.third) {
            Err(
                ParsingError::InvalidSyntax(
                    "Unexpected combination of percentage and absolute values",
                ),
            )
        } else {
            fields_color(fields)
        },
    }
}

/// A color channel as it is printed: as a number from 0 to 255, or as a percentage.
pub open spec fn color_channel_text(units: nat, unit: ChannelUnit) -> Seq<char> {
    match unit {
        ChannelUnit::Number => number_text(units, BYTE_STEP as nat),
        ChannelUnit::Percentage => percentage_text(units, VALUE_MAX as nat),
    }
}

/// The alpha channel as it is printed: as a number from 0 to 1, or as a percentage.
pub open spec fn alpha_channel_text(units: nat, unit: ChannelUnit) -> Seq<char> {
    match unit {
        ChannelUnit::Number => number_text(units, VALUE_MAX as nat),
        ChannelUnit::Percentage => percentage_text(units, VALUE_MAX as nat),
    }
}

/// The RGB function notation of a color.
pub open spec fn rgb_function_text(
    color: Rgb,
    omit_alpha_channel: OmitAlphaChannel,
    color_channel_unit: ChannelUnit,
    alpha_channel_unit: ChannelUnit,
) -> Seq<char> {
    function_text(
        seq!['r', 'g', 'b'],
        color_channel_text(color.red@, color_channel_unit),
        color_channel_text(color.green@, color_channel_unit),
        color_channel_text(color.blue@, color_channel_unit),
        if color.is_opaque() && omit_alpha_channel == OmitAlphaChannel::IfOpaque {
            None
        } else {
            Some(alpha_channel_text(color.alpha@, alpha_channel_unit))
        },
    )
}

/// Brings a number into the range of a channel: what is below the range becomes its
/// lower end, what is above it its upper end.
pub fn clamp_in_channel_range(channel_val: CssNumber) -> (clamped: u64)
    ensures
        clamped == clamp_units(channel_val@),
{
    if channel_val.negative {
        0
    } else if channel_val.magnitude > VALUE_MAX as u128 {
        VALUE_MAX
    } else {
        channel_val.magnitude as u64
    }
}

/// Parses the value of a color channel: a number from 0 to 255, or a percentage.
pub fn parse_color_channel(seq: &[char]) -> (channel: Result<RgbChannel, ParsingError>)
    ensures
        channel == match color_channel_units(seq@) {
            Ok(units) => Ok::<RgbChannel, ParsingError>(
                RgbChannel::with_value(clamp_units(units)),
            ),
            Err(cause) => Err(ParsingError::NumberConversionFailed(cause)),
        },
{
    let channel_val = if is_percentage(seq) {
        parse_percentage(seq)?
    } else {
        parse_number(seq, BYTE_STEP)?
    };
    Ok(RgbChannel::from_value(clamp_in_channel_range(channel_val)))
}

/// Parses the value of the alpha channel: a number from 0 to 1, or a percentage.
// https://www.w3.org/TR/css-color-4/#typedef-alpha-value
pub fn parse_alpha_channel(seq: &[char]) -> (channel: Result<RgbChannel, ParsingError>)
    ensures
        channel == match alpha_channel_units(seq@) {
            Ok(units) => Ok::<RgbChannel, ParsingError>(
                RgbChannel::with_value(clamp_units(units)),
            ),
            Err(cause) => Err(ParsingError::NumberConversionFailed(cause)),
        },
{
    let channel_val = if is_percentage(seq) {
        parse_percentage(seq)?
    } else {
        // When parsing the alpha channel, the value ranges from 0 to 1 already.
        parse_number(seq, VALUE_MAX)?
    };
    Ok(RgbChannel::from_value(clamp_in_channel_range(channel_val)))
}

/// Checks if a value is a number or a percentage.
pub fn matches_channel_value(seq: &[char]) -> (matches: bool)
    ensures
        matches == is_channel_value(seq@),
{
    if is_percentage(seq) {
        let number = slice_subrange(seq, 0, seq.len() - 1);
        assert(number@ =~= seq@.drop_last());
        matches_number(number)
    } else {
        matches_number(seq)
    }
}

/// Takes an RGB function string apart: the values of red, green and blue and, where
/// there is one, of alpha, or none if the string does not have the shape of an RGB
/// function string.
pub fn rgb_function_values<'a>(chars: &'a [char]) -> (values: Option<
    (&'a [char], &'a [char], &'a [char], Option<&'a [char]>),
>)
    ensures
        match rgb_function_fields(chars@) {
            None => values is None,
            Some(fields) => values matches Some(v) && v.0@ == fields.first && v.1@
                == fields.second && v.2@ == fields.third && match fields.alpha {
                None => v.3 is None,
                Some(alpha) => v.3 matches Some(a) && a@ == alpha,
            },
        },
{
    proof {
        reveal_strlit("rgb");
        assert("rgb"@ =~= seq!['r', 'g', 'b']);
    }
    match function_values(chars, "rgb") {
        Some((red, green, blue, alpha)) => {
            if !matches_channel_value(red) || !matches_channel_value(green)
                || !matches_channel_value(blue) {
                return None;
            }
            match alpha {
                Some(a) => {
                    if !matches_channel_value(a) {
                        return None;
                    }
                },
                None => {},
            }
            Some((red, green, blue, alpha))
        },
        None => None,
    }
}

impl Rgb {
    /// Parses a CSS-style RGB function string.
    /// For details see the [CSS color specification](https://www.w3.org/TR/css-color-4/#rgb-functions).
    ///
    /// Values out of range are clamped. The legacy syntax with comma and the `rgba`
    /// function are *not* supported.
    ///
    /// # Errors
    /// - `InvalidSyntax` if the input does not have the shape of an RGB function string.
    /// - `InvalidSyntax` if only some of red, green and blue are percentages.
    /// - `NumberConversionFailed` if a value is too large or has too many decimal
    ///   places to be held.
    pub fn from_rgb_function_str(rgb_str: &str) -> (result: Result<Rgb, ParsingError>)
        ensures
            result == rgb_function_color(rgb_str@),
    {
        let chars = chars_of(rgb_str);
        match rgb_function_values(chars.as_slice()) {
            None => Err(
                ParsingError::InvalidSyntax("String did not match RGB function string pattern"),
            ),
            Some((red_str, green_str, blue_str, alpha_str_opt)) => {
                if is_percentage(red_str) != is_percentage(green_str) || is_percentage(red_str)
                    != is_percentage(blue_str) {
                    return Err(
                        ParsingError::InvalidSyntax(
                            "Unexpected combination of percentage and absolute values",
                        ),
                    );
                }
                let red = parse_color_channel(red_str)?;
                let green = parse_color_channel(green_str)?;
                let blue = parse_color_channel(blue_str)?;

                match alpha_str_opt {
                    None => Ok(Rgb::from_channels(red, green, blue)),
                    Some(alpha_str) => {
                        let alpha = parse_alpha_channel(alpha_str)?;
                        Ok(Rgb::from_channels_with_alpha(red, green, blue, alpha))
                    },
                }
            },
        }
    }
}

impl RGB {
    /// Parses a CSS-style RGB function string, see [`Rgb::from_rgb_function_str`], and
    /// rounds each channel up to a single byte value.
    pub fn from_rgb_str(rgb_str: &str) -> (result: Result<RGB, ParsingError>)
        ensures
            result == match rgb_function_color(rgb_str@) {
                Ok(color) => Ok::<RGB, ParsingError>(color.rounded_bytes()),
                Err(e) => Err(e),
            },
    {
        match Rgb::from_rgb_function_str(rgb_str) {
            Ok(color) => Ok(color.to_bytes_round()),
            Err(e) => Err(e),
        }
    }
}

/// Formats a color channel as a number from 0 to 255, or as a percentage.
pub fn format_color_channel(color_channel: &RgbChannel, unit: ChannelUnit) -> (text: Vec<char>)
    ensures
        text@ == color_channel_text(color_channel@, unit),
{
    match unit {
        ChannelUnit::Number => format_number(color_channel.value(), BYTE_STEP),
        ChannelUnit::Percentage => format_percentage(color_channel.value(), VALUE_MAX),
    }
}

/// Formats the alpha channel as a number from 0 to 1, or as a percentage.
pub fn format_alpha_channel(alpha_channel: &RgbChannel, unit: ChannelUnit) -> (text: Vec<char>)
    ensures
        text@ == alpha_channel_text(alpha_channel@, unit),
{
    match unit {
        ChannelUnit::Number => format_number(alpha_channel.value(), VALUE_MAX),
        ChannelUnit::Percentage => format_percentage(alpha_channel.value(), VALUE_MAX),
    }
}

impl Rgb {
    /// Creates a CSS-style RGB function string for this color.
    /// For details see the [CSS color specification](https://www.w3.org/TR/css-color-4/#rgb-functions).
    pub fn to_rgb_function_str(
        &self,
        omit_alpha_channel: OmitAlphaChannel,
        color_channel_unit: ChannelUnit,
        alpha_channel_unit: ChannelUnit,
    ) -> (rgb_str: String)
        ensures
            rgb_str@ == rgb_function_text(
                *self,
                omit_alpha_channel,
                color_channel_unit,
                alpha_channel_unit,
            ),
    {
        let red_str = format_color_channel(self.red(), color_channel_unit);
        let green_str = format_color_channel(self.green(), color_channel_unit);
        let blue_str = format_color_channel(self.blue(), color_channel_unit);

        let alpha_str_opt = if self.is_opaque() && omit_alpha_channel
            == OmitAlphaChannel::IfOpaque {
            None
        } else {
            Some(format_alpha_channel(self.alpha(), alpha_channel_unit))
        };
        proof {
            reveal_strlit("rgb");
            assert("rgb"@ =~= seq!['r', 'g', 'b']);
        }
        let text = format_function("rgb", red_str, green_str, blue_str, alpha_str_opt);
        string_from_chars(&text)
    }
}

impl RGB {
    /// Creates a CSS-style RGB function string for this color.
    pub fn to_rgb_str(
        &self,
        omit_alpha_channel: OmitAlphaChannel,
        color_channel_unit: ChannelUnit,
        alpha_channel_unit: ChannelUnit,
    ) -> (rgb_str: String)
        ensures
            rgb_str@ == rgb_function_text(
                Rgb::of_bytes(*self),
                omit_alpha_channel,
                color_channel_unit,
                alpha_channel_unit,
            ),
    {
        Rgb::from_bytes(self).to_rgb_function_str(
            omit_alpha_channel,
            color_channel_unit,
            alpha_channel_unit,
        )
    }
}

/// What a color channel is once it was printed and read again: itself if it was
/// printed as a number, else the multiple of 255 units at or next above it.
pub open spec fn reread_color_channel(units: nat, unit: ChannelUnit) -> nat {
    match unit {
        ChannelUnit::Number => units,
        ChannelUnit::Percentage => reread_fraction(units),
    }
}

/// What a fraction of `VALUE_MAX` is once it was printed as an alpha value or as a
/// percentage and read again: the multiple of 255 units at or next above it.
pub open spec fn reread_fraction(units: nat) -> nat {
    255 * steps_up(units, VALUE_MAX as nat)
}

/// A channel value in steps is the value in units, where a step is a unit.
pub proof fn lemma_steps_up_of_bytes(units: nat)
    ensures
        steps_up(units, BYTE_STEP as nat) == units,
{
    let one = NUMBER_ONE as nat;
    assert(units * one % one == 0 && units * one / one == units) by (nonlinear_arith)
        requires
            one > 0,
    ;
}

/// The multiple of 255 units at or next above a channel value is less than 255
/// units above it, and within the range.
pub proof fn lemma_steps_up_of_range(units: nat)
    requires
        units <= VALUE_MAX,
    ensures
        units <= 255 * steps_up(units, VALUE_MAX as nat) < units + 255,
        steps_up(units, VALUE_MAX as nat) <= NUMBER_ONE,
{
    let one = NUMBER_ONE as nat;
    let quotient = units / 255;
    let remainder = units % 255;
    let scaled = units * one;
    assert(scaled == (255 * one) * quotient + remainder * one && 0 <= remainder * one < 255 * one)
        by (nonlinear_arith)
        requires
            units == 255 * quotient + remainder,
            0 <= remainder < 255,
            scaled == units * one,
            one > 0,
    ;
    vstd::arithmetic::div_mod::lemma_fundamental_div_mod_converse(
        scaled as int,
        (255 * one) as int,
        quotient as int,
        (remainder * one) as int,
    );
    assert(remainder * one == 0 <==> remainder == 0) by (nonlinear_arith)
        requires
            one > 0,
            remainder >= 0,
    ;
}

/// A color channel that is printed is a value without a space, a percentage if and
/// only if it was printed as one, and it is read as `reread_color_channel` says.
pub proof fn lemma_color_channel_text(units: nat, unit: ChannelUnit)
    requires
        units <= VALUE_MAX,
    ensures
        is_channel_value(color_channel_text(units, unit)),
        no_space(color_channel_text(units, unit)),
        ends_with_percent(color_channel_text(units, unit)) == (unit == ChannelUnit::Percentage),
        color_channel_units(color_channel_text(units, unit)) == Ok::<int, NumberError>(
            reread_color_channel(units, unit) as int,
        ),
        units <= reread_color_channel(units, unit) < units + 255,
        reread_color_channel(units, unit) <= VALUE_MAX,
{
    lemma_steps_up_of_bytes(units);
    lemma_steps_up_of_range(units);
    match unit {
        ChannelUnit::Number => {
            assert(is_power_of_ten(NUMBER_ONE as nat)) by {
                reveal_with_fuel(is_power_of_ten, 18);
            }
            lemma_decimal_text(units, NUMBER_ONE as nat, 1);
        },
        ChannelUnit::Percentage => {
            lemma_percentage_text(units);
        },
    }
}

/// A fraction of `VALUE_MAX` that is printed as a percentage is a percentage
/// without a space, and it is read as the multiple of 255 units at or next above it.
pub proof fn lemma_percentage_text(units: nat)
    requires
        units <= VALUE_MAX,
    ensures
        ends_with_percent(percentage_text(units, VALUE_MAX as nat)),
        is_number(percentage_text(units, VALUE_MAX as nat).drop_last()),
        no_space(percentage_text(units, VALUE_MAX as nat)),
        number_units(percentage_text(units, VALUE_MAX as nat).drop_last(), PERCENT_STEP as nat)
            == Ok::<int, NumberError>((255 * steps_up(units, VALUE_MAX as nat)) as int),
{
    let steps = steps_up(units, VALUE_MAX as nat);
    let number = decimal_text(steps, PERCENT_ONE as nat);
    let text = percentage_text(units, VALUE_MAX as nat);
    lemma_steps_up_of_range(units);
    assert(is_power_of_ten(PERCENT_ONE as nat)) by {
        reveal_with_fuel(is_power_of_ten, 16);
    }
    lemma_decimal_text(steps, PERCENT_ONE as nat, 255);
    assert(text.drop_last() =~= number);
    assert forall|i: int| 0 <= i < text.len() implies #[trigger] text[i] != ' ' by {
        if i < number.len() {
            assert(text[i] == number[i]);
        }
    }
}

/// An alpha channel that is printed is a value without a space, and it is read as
/// `reread_fraction` says.
pub proof fn lemma_alpha_channel_text(units: nat, unit: ChannelUnit)
    requires
        units <= VALUE_MAX,
    ensures
        is_channel_value(alpha_channel_text(units, unit)),
        no_space(alpha_channel_text(units, unit)),
        alpha_channel_units(alpha_channel_text(units, unit)) == Ok::<int, NumberError>(
            reread_fraction(units) as int,
        ),
        units <= reread_fraction(units) < units + 255,
        reread_fraction(units) <= VALUE_MAX,
{
    lemma_steps_up_of_range(units);
    match unit {
        ChannelUnit::Number => {
            assert(is_power_of_ten(NUMBER_ONE as nat)) by {
                reveal_with_fuel(is_power_of_ten, 18);
            }
            lemma_decimal_text(steps_up(units, VALUE_MAX as nat), NUMBER_ONE as nat, 255);
        },
        ChannelUnit::Percentage => {
            lemma_percentage_text(units);
        },
    }
}

/// Round trip: the RGB function notation of a color is read as a color again,
/// whichever options it was printed with. A color channel that was printed as a
/// number is read as it was. A color channel that was printed as a percentage, and
/// the alpha channel, are read as the multiple of 255 units at or next above them,
/// which is less than 255 units or 0.0000000000000001 of the range away. An alpha
/// channel that was omitted is read as opaque, as it was.
pub proof fn lemma_rgb_function_str_round_trip(
    color: Rgb,
    omit_alpha_channel: OmitAlphaChannel,
    color_channel_unit: ChannelUnit,
    alpha_channel_unit: ChannelUnit,
)
    requires
        color.red@ <= VALUE_MAX,
        color.green@ <= VALUE_MAX,
        color.blue@ <= VALUE_MAX,
        color.alpha@ <= VALUE_MAX,
    ensures
        rgb_function_color(
            rgb_function_text(color, omit_alpha_channel, color_channel_unit, alpha_channel_unit),
        ) == Ok::<Rgb, ParsingError>(
            Rgb {
                red: RgbChannel::with_value(reread_color_channel(color.red@, color_channel_unit)),
                green: RgbChannel::with_value(
                    reread_color_channel(color.green@, color_channel_unit),
                ),
                blue: RgbChannel::with_value(
                    reread_color_channel(color.blue@, color_channel_unit),
                ),
                alpha: RgbChannel::with_value(reread_fraction(color.alpha@)),
            },
        ),
        color.alpha@ <= reread_fraction(color.alpha@) < color.alpha@ + 255,
        color_channel_unit == ChannelUnit::Number ==> reread_color_channel(
            color.red@,
            color_channel_unit,
        ) == color.red@ && reread_color_channel(color.green@, color_channel_unit) == color.green@
            && reread_color_channel(color.blue@, color_channel_unit) == color.blue@,
{
    let red = color_channel_text(color.red@, color_channel_unit);
    let green = color_channel_text(color.green@, color_channel_unit);
    let blue = color_channel_text(color.blue@, color_channel_unit);
    let alpha = if color.is_opaque() && omit_alpha_channel == OmitAlphaChannel::IfOpaque {
        None
    } else {
        Some(alpha_channel_text(color.alpha@, alpha_channel_unit))
    };
    lemma_color_channel_text(color.red@, color_channel_unit);
    lemma_color_channel_text(color.green@, color_channel_unit);
    lemma_color_channel_text(color.blue@, color_channel_unit);
    lemma_alpha_channel_text(color.alpha@, alpha_channel_unit);
    lemma_function_text_fields(seq!['r', 'g', 'b'], red, green, blue, alpha);
    lemma_steps_up_of_range(VALUE_MAX as nat);
    if color.is_opaque() {
        assert(reread_fraction(color.alpha@) == VALUE_MAX);
    }
}

} // verus!
