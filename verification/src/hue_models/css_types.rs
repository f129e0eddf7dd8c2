//! CSS hues and alpha values.

use vstd::prelude::*;
use vstd::slice::slice_subrange;
use crate::component::VALUE_MAX;
use crate::css_types::{
    ends_with_percent, format_number, format_percentage, is_number, is_percentage,
    matches_number, number_text, number_units, parse_number, parse_percentage, percentage_text,
    CssNumber, PERCENT_STEP,
};
use crate::error::{NumberError, ParsingError};
use crate::rgb::rgb_function_str::{clamp_in_channel_range, clamp_units, ChannelUnit};
use crate::text::{equals_ignoring_case, is_word};

verus! {

/// The units that a degree of hue is made of.
pub const HUE_DEGREE: u64 = 10_000_000_000_000_000;

/// The hue of a full turn, 360 degrees.
pub const HUE_TURN: u64 = 3_600_000_000_000_000_000;

/// A fraction of [`VALUE_MAX`] as it is printed: as a number from 0 to 1, or as a
/// percentage.
pub open spec fn alpha_value_text(alpha: nat, unit: ChannelUnit) -> Seq<char> {
    match unit {
        ChannelUnit::Number => number_text(alpha, VALUE_MAX as nat),
        ChannelUnit::Percentage => percentage_text(alpha, VALUE_MAX as nat),
    }
}

/// A hue as it is printed: in degrees.
pub open spec fn hue_text(hue: nat) -> Seq<char> {
    number_text(hue, HUE_DEGREE as nat) + seq!['d', 'e', 'g']
}

/// Formats a fraction of [`VALUE_MAX`] as an alpha-value.
pub fn format_alpha_value(alpha: u64, unit: ChannelUnit) -> (text: Vec<char>)
    ensures
        text@ == alpha_value_text(alpha as nat, unit),
{
    match unit {
        ChannelUnit::Number => format_number(alpha, VALUE_MAX),
        ChannelUnit::Percentage => format_percentage(alpha, VALUE_MAX),
    }
}

/// Formats a hue as degrees.
pub fn format_hue(hue: u64) -> (text: Vec<char>)
    ensures
        text@ == hue_text(hue as nat),
{
    let mut text = format_number(hue, HUE_DEGREE);
    text.push('d');
    text.push('e');
    text.push('g');
    text
}

/// Whether a value ends with the unit of degrees, in upper or lower case.
pub open spec fn ends_with_deg(s: Seq<char>) -> bool {
    s.len() >= 3 && is_word(s.subrange(s.len() - 3, s.len() as int), seq!['d', 'e', 'g'])
}

/// The number of a hue, without the unit of degrees where it has one.
pub open spec fn hue_number(s: Seq<char>) -> Seq<char> {
    if ends_with_deg(s) {
        s.take(s.len() - 3)
    } else {
        s
    }
}

/// Whether a value is a hue: a number, or a number and the unit of degrees.
pub open spec fn is_hue_value(s: Seq<char>) -> bool {
    is_number(hue_number(s))
}

/// The hue that a number of units stands for: full turns are taken off it or added
/// to it until it is not below 0 and below a full turn.
pub open spec fn normal_hue(units: int) -> nat {
    (units % (HUE_TURN as int)) as nat
}

/// What a hue means: the hue in units, or why its number cannot be held.
pub open spec fn hue_units(s: Seq<char>) -> Result<nat, NumberError> {
    match number_units(hue_number(s), HUE_DEGREE as nat) {
        Ok(units) => Ok(normal_hue(units)),
        Err(cause) => Err(cause),
    }
}

/// Whether a value is a percentage: a number and the percentage sign.
pub open spec fn is_percentage_value(s: Seq<char>) -> bool {
    ends_with_percent(s) && is_number(s.drop_last())
}

/// What a percentage means as a fraction of [`VALUE_MAX`]: the fraction in units,
/// where what is below 0% is taken as 0% and what is above 100% as 100%, or why its
/// number cannot be held.
pub open spec fn percentage_units(s: Seq<char>) -> Result<nat, NumberError> {
    match number_units(s.drop_last(), PERCENT_STEP as nat) {
        Ok(units) => Ok(clamp_units(units)),
        Err(cause) => Err(cause),
    }
}

/// Takes the unit of degrees off a hue, where it has one.
fn without_deg<'a>(seq: &'a [char]) -> (number: &'a [char])
    ensures
        number@ == hue_number(seq@),
{
    let len = seq.len();
    proof {
        reveal_strlit("deg");
        assert("deg"@ =~= seq!['d', 'e', 'g']);
    }
    if len >= 3 && equals_ignoring_case(slice_subrange(seq, len - 3, len), "deg") {
        let number = slice_subrange(seq, 0, len - 3);
        assert(number@ =~= seq@.take(len - 3));
        number
    } else {
        seq
    }
}

/// Checks if a value is a hue: a number, or a number and the unit of degrees.
pub fn matches_hue(seq: &[char]) -> (matches: bool)
    ensures
        matches == is_hue_value(seq@),
{
    matches_number(without_deg(seq))
}

/// Checks if a value is a percentage: a number and the percentage sign.
pub fn matches_percentage(seq: &[char]) -> (matches: bool)
    ensures
        matches == is_percentage_value(seq@),
{
    if is_percentage(seq) {
        let number = slice_subrange(seq, 0, seq.len() - 1);
        assert(number@ =~= seq@.drop_last());
        matches_number(number)
    } else {
        false
    }
}

/// Takes full turns off a hue or adds them to it until it is not below 0 and below
/// a full turn.
pub fn normalize_hue(hue: CssNumber) -> (normal: u64)
    ensures
        normal == normal_hue(hue@),
        normal < HUE_TURN,
{
    let rest = (hue.magnitude % HUE_TURN as u128) as u64;
    if hue.negative && rest != 0 {
        HUE_TURN - rest
    } else {
        rest
    }
}

/// Parses a hue in degrees (e.g. `'180'` or `'180deg'`).
///
/// # Errors
/// Those of [`parse_number`], for the number of the hue.
pub fn parse_hue(seq: &[char]) -> (hue: Result<u64, ParsingError>)
    ensures
        match hue_units(seq@) {
            Ok(units) => hue == Ok::<u64, ParsingError>(units as u64) && units < HUE_TURN,
            Err(cause) => hue == Err::<u64, ParsingError>(
                ParsingError::NumberConversionFailed(cause),
            ),
        },
{
    let number = parse_number(without_deg(seq), HUE_DEGREE)?;
    Ok(normalize_hue(number))
}

/// Parses a percentage as a fraction of [`VALUE_MAX`] (e.g. `'60%'`). What is below
/// 0% is taken as 0% and what is above 100% as 100%.
///
/// # Errors
/// Those of [`parse_number`], for the number in front of the percentage sign.
pub fn parse_fraction(seq: &[char]) -> (fraction: Result<u64, ParsingError>)
    requires
        ends_with_percent(seq@),
    ensures
        match percentage_units(seq@) {
            Ok(units) => fraction == Ok::<u64, ParsingError>(units as u64) && units <= VALUE_MAX,
            Err(cause) => fraction == Err::<u64, ParsingError>(
                ParsingError::NumberConversionFailed(cause),
            ),
        },
{
    let number = parse_percentage(seq)?;
    Ok(clamp_in_channel_range(number))
}

} // verus!
