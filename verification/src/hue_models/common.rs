//! What the notations have in common.

use vstd::prelude::*;
use crate::component::{FloatComponent, VALUE_MAX};
use crate::css_function::{
    function_fields, function_text, function_values, lemma_function_text_fields, FunctionFields,
};
use crate::css_types::{
    is_power_of_ten, lemma_decimal_text, no_space, number_text, percentage_text, NUMBER_ONE,
};
use crate::error::{NumberError, ParsingError};
use crate::rgb::rgb_function_str::{
    alpha_channel_units, clamp_units, is_channel_value, lemma_alpha_channel_text,
    lemma_percentage_text, lemma_steps_up_of_bytes, lemma_steps_up_of_range,
    matches_channel_value, parse_alpha_channel, reread_fraction, ChannelUnit,
};
use crate::text::ascii_lower;
use crate::rgb::OmitAlphaChannel;
use crate::hue_models::css_types::{
    alpha_value_text, format_alpha_value, hue_text, hue_units, is_hue_value,
    is_percentage_value, matches_hue, matches_percentage, parse_fraction, parse_hue,
    percentage_units, HUE_DEGREE, HUE_TURN,
};

verus! {

/// The alpha value as it is printed, or none where it is omitted: it is omitted
/// where it may be and the color is opaque.
pub open spec fn alpha_value_text_conditionally(
    alpha: nat,
    alpha_channel_unit: ChannelUnit,
    omit_alpha_channel: OmitAlphaChannel,
) -> Option<Seq<char>> {
    if omit_alpha_channel == OmitAlphaChannel::IfOpaque && alpha == VALUE_MAX {
        None
    } else {
        Some(alpha_value_text(alpha, alpha_channel_unit))
    }
}

/// Formats the alpha value, unless it is omitted.
pub fn format_alpha_value_conditionally(
    alpha: u64,
    alpha_channel_unit: ChannelUnit,
    omit_alpha_channel: OmitAlphaChannel,
) -> (text: Option<Vec<char>>)
    ensures
        match alpha_value_text_conditionally(
            alpha as nat,
            alpha_channel_unit,
            omit_alpha_channel,
        ) {
            Some(wanted) => text matches Some(t) && t@ == wanted,
            None => text is None,
        },
{
    if omit_alpha_channel == OmitAlphaChannel::IfOpaque && alpha == VALUE_MAX {
        None
    } else {
        Some(format_alpha_value(alpha, alpha_channel_unit))
    }
}

/// The values of a function of a hue, two percentages and an alpha value, in units.
pub struct HueFunctionValues {
    pub hue: nat,
    pub second: nat,
    pub third: nat,
    pub alpha: nat,
}

/// Whether the values of a function are a hue, two percentages and, where there is
/// one, an alpha value.
pub open spec fn are_hue_function_fields(fields: FunctionFields) -> bool {
    &&& is_hue_value(fields.first)
    &&& is_percentage_value(fields.second)
    &&& is_percentage_value(fields.third)
    &&& (fields.alpha matches Some(alpha) ==> is_channel_value(alpha))
}

/// What the values of a function of a hue, two percentages and an alpha value
/// mean: the values in units, or the first number that cannot be held. Without an
/// alpha value the color is opaque.
pub open spec fn hue_fields_values(fields: FunctionFields) -> Result<
    HueFunctionValues,
    ParsingError,
> {
    match hue_units(fields.first) {
        Err(cause) => Err(ParsingError::NumberConversionFailed(cause)),
        Ok(hue) => match percentage_units(fields.second) {
            Err(cause) => Err(ParsingError::NumberConversionFailed(cause)),
            Ok(second) => match percentage_units(fields.third) {
                Err(cause) => Err(ParsingError::NumberConversionFailed(cause)),
                Ok(third) => match fields.alpha {
                    None => Ok(HueFunctionValues { hue, second, third, alpha: VALUE_MAX as nat }),
                    Some(alpha_field) => match alpha_channel_units(alpha_field) {
                        Err(cause) => Err(ParsingError::NumberConversionFailed(cause)),
                        Ok(alpha) => Ok(
                            HueFunctionValues { hue, second, third, alpha: clamp_units(alpha) },
                        ),
                    },
                },
            },
        },
    }
}

/// What a string means as the function of the given name of a hue, two percentages
/// and an alpha value: the values in units, or what is wrong with the string. The
/// name is given in lower case, and `mismatch` says that the string does not have
/// the shape of the function.
pub open spec fn hue_function_values(
    s: Seq<char>,
    name: Seq<char>,
    mismatch: &'static str,
) -> Result<HueFunctionValues, ParsingError> {
    match function_fields(s, name) {
        None => Err(ParsingError::InvalidSyntax(mismatch)),
        Some(fields) => if are_hue_function_fields(fields) {
            hue_fields_values(fields)
        } else {
            Err(ParsingError::InvalidSyntax(mismatch))
        },
    }
}

/// Parses the function of the given name of a hue, two percentages and an alpha
/// value. The name is given in lower case. Values out of range are clamped.
///
/// # Errors
/// - `InvalidSyntax` with `mismatch` if the input does not have the shape of the
///   function.
/// - `NumberConversionFailed` if a value is too large or has too many decimal
///   places to be held.
pub fn parse_hue_function(chars: &[char], name: &str, mismatch: &'static str) -> (result: Result<
    (u64, u64, u64, u64),
    ParsingError,
>)
    ensures
        match hue_function_values(chars@, name@, mismatch) {
            Ok(values) => result == Ok::<(u64, u64, u64, u64), ParsingError>(
                (values.hue as u64, values.second as u64, values.third as u64, values.alpha as u64),
            ) && values.hue < HUE_TURN && values.second <= VALUE_MAX && values.third
                <= VALUE_MAX && values.alpha <= VALUE_MAX,
            Err(e) => result == Err::<(u64, u64, u64, u64), ParsingError>(e),
        },
{
    match function_values(chars, name) {
        None => Err(ParsingError::InvalidSyntax(mismatch)),
        Some((hue_str, second_str, third_str, alpha_str_opt)) => {
            if !matches_hue(hue_str) || !matches_percentage(second_str) || !matches_percentage(
                third_str,
            ) {
                return Err(ParsingError::InvalidSyntax(mismatch));
            }
            match alpha_str_opt {
                Some(alpha_str) => {
                    if !matches_channel_value(alpha_str) {
                        return Err(ParsingError::InvalidSyntax(mismatch));
                    }
                },
                None => {},
            }
            let hue = parse_hue(hue_str)?;
            let second = parse_fraction(second_str)?;
            let third = parse_fraction(third_str)?;
            match alpha_str_opt {
                None => Ok((hue, second, third, VALUE_MAX)),
                Some(alpha_str) => {
                    let alpha = parse_alpha_channel(alpha_str)?;
                    proof {
                        crate::rgb::RgbChannel::lemma_with_value(
                            clamp_units(alpha_channel_units(alpha_str@)->Ok_0),
                        );
                    }
                    Ok((hue, second, third, alpha.value()))
                },
            }
        },
    }
}

/// A hue that is printed is a hue without a space, and it is read as it was.
pub proof fn lemma_hue_text(hue: nat)
    requires
        hue < HUE_TURN,
    ensures
        is_hue_value(hue_text(hue)),
        no_space(hue_text(hue)),
        hue_units(hue_text(hue)) == Ok::<nat, NumberError>(hue),
{
    let text = hue_text(hue);
    let number = number_text(hue, HUE_DEGREE as nat);
    lemma_steps_up_of_bytes(hue);
    assert(is_power_of_ten(NUMBER_ONE as nat)) by {
        reveal_with_fuel(is_power_of_ten, 18);
    }
    lemma_decimal_text(hue, NUMBER_ONE as nat, 1);
    let unit = text.subrange(text.len() - 3, text.len() as int);
    assert(unit =~= seq!['d', 'e', 'g']);
    assert(text.take(text.len() - 3) =~= number);
    assert forall|i: int| 0 <= i < text.len() implies #[trigger] text[i] != ' ' by {
        if i < number.len() {
            assert(text[i] == number[i]);
        }
    }
}

/// Round trip: the printed function of a hue, two percentages and an alpha value is
/// read as these values again. The hue is read as it was. A percentage and the
/// alpha value are read as the multiple of 255 units at or next above them, which
/// is less than 255 units or 0.0000000000000001 of the range away. An alpha value
/// that was omitted is read as opaque, as it was.
pub proof fn lemma_hue_function_text(
    name: Seq<char>,
    mismatch: &'static str,
    values: HueFunctionValues,
    alpha_channel_unit: ChannelUnit,
    omit_alpha_channel: OmitAlphaChannel,
)
    requires
        forall|i: int| 0 <= i < name.len() ==> ascii_lower(#[trigger] name[i]) == name[i],
        values.hue < HUE_TURN,
        values.second <= VALUE_MAX,
        values.third <= VALUE_MAX,
        values.alpha <= VALUE_MAX,
    ensures
        hue_function_values(
            function_text(
                name,
                hue_text(values.hue),
                percentage_text(values.second, VALUE_MAX as nat),
                percentage_text(values.third, VALUE_MAX as nat),
                alpha_value_text_conditionally(
                    values.alpha,
                    alpha_channel_unit,
                    omit_alpha_channel,
                ),
            ),
            name,
            mismatch,
        ) == Ok::<HueFunctionValues, ParsingError>(
            HueFunctionValues {
                hue: values.hue,
                second: reread_fraction(values.second),
                third: reread_fraction(values.third),
                alpha: reread_fraction(values.alpha),
            },
        ),
        values.second <= reread_fraction(values.second) < values.second + 255,
        values.third <= reread_fraction(values.third) < values.third + 255,
        values.alpha <= reread_fraction(values.alpha) < values.alpha + 255,
{
    let hue = hue_text(values.hue);
    let second = percentage_text(values.second, VALUE_MAX as nat);
    let third = percentage_text(values.third, VALUE_MAX as nat);
    let alpha = alpha_value_text_conditionally(
        values.alpha,
        alpha_channel_unit,
        omit_alpha_channel,
    );
    lemma_hue_text(values.hue);
    lemma_percentage_text(values.second);
    lemma_percentage_text(values.third);
    lemma_alpha_channel_text(values.alpha, alpha_channel_unit);
    lemma_steps_up_of_range(values.second);
    lemma_steps_up_of_range(values.third);
    lemma_steps_up_of_range(values.alpha);
    lemma_steps_up_of_range(VALUE_MAX as nat);
    lemma_function_text_fields(name, hue, second, third, alpha);
    if alpha is None {
        assert(reread_fraction(values.alpha) == VALUE_MAX);
    }
}

} // verus!
