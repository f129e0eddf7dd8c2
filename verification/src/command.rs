//! What the commands of the program print of a contrast.

use vstd::prelude::*;
use crate::contrast::{ContrastLevel, RATIO_ONE};
use crate::css_types::{decimal_text, digit_char, format_decimal, format_natural, natural_text};
use crate::text::{chars_of, string_from_chars};

verus! {

/// The steps of a contrast ratio that the decimal place `n` is worth. A place behind
/// the sixth is worth no more than the sixth.
pub open spec fn decimal_place(n: u8) -> nat {
    match n {
        0 => 1_000_000,
        1 => 100_000,
        2 => 10_000,
        3 => 1_000,
        4 => 100,
        5 => 10,
        _ => 1,
    }
}

/// A contrast ratio rounded down to `n` decimal places.
pub open spec fn floored(val: nat, n: u8) -> nat {
    (val - val % decimal_place(n)) as nat
}

/// A contrast ratio rounded up to `n` decimal places.
pub open spec fn ceiled(val: nat, n: u8) -> nat {
    if val % decimal_place(n) == 0 {
        val
    } else {
        (val - val % decimal_place(n) + decimal_place(n)) as nat
    }
}

/// A contrast ratio with its first two decimal places.
pub open spec fn two_places_text(ratio: nat) -> Seq<char> {
    natural_text(ratio / (RATIO_ONE as nat)) + seq![
        '.',
        digit_char(ratio % (RATIO_ONE as nat) / 100_000),
        digit_char(ratio % 100_000 / 10_000),
    ]
}

/// A contrast ratio as it is printed: rounded down to two decimal places unless
/// more detail was asked for, else with as many of its six decimal places as are
/// needed.
pub open spec fn ratio_text(ratio: nat, verbosity: u8) -> Seq<char> {
    if verbosity == 0 {
        two_places_text(floored(ratio, 2))
    } else {
        decimal_text(ratio, RATIO_ONE as nat)
    }
}

/// The names of levels, with a comma and a space between any two.
pub open spec fn joined_names(levels: Seq<ContrastLevel>) -> Seq<char>
    decreases levels.len(),
{
    if levels.len() == 0 {
        Seq::empty()
    } else if levels.len() == 1 {
        levels[0].spec_as_str()@
    } else {
        joined_names(levels.drop_last()) + seq![',', ' '] + levels.last().spec_as_str()@
    }
}

/// The levels that were reached as they are printed: their names, or `None` where
/// there is none.
pub open spec fn levels_text(levels: Seq<ContrastLevel>) -> Seq<char> {
    if levels.len() == 0 {
        "None"@
    } else {
        joined_names(levels)
    }
}

fn step_of_place(n: u8) -> (step: u64)
    ensures
        step == decimal_place(n),
{
    match n {
        0 => 1_000_000,
        1 => 100_000,
        2 => 10_000,
        3 => 1_000,
        4 => 100,
        5 => 10,
        _ => 1,
    }
}

/// Rounds a contrast ratio down to `n` decimal places.
pub fn floor_n_decimals(val: u64, n: u8) -> (rounded: u64)
    ensures
        rounded == floored(val as nat, n),
{
    val - val % step_of_place(n)
}

/// Rounds a contrast ratio up to `n` decimal places.
pub fn ceil_n_decimals(val: u64, n: u8) -> (rounded: u64)
    requires
        val <= u64::MAX - 1_000_000,
    ensures
        rounded == ceiled(val as nat, n),
{
    let step = step_of_place(n);
    if val % step == 0 {
        val
    } else {
        val - val % step + step
    }
}

/// Formats a contrast ratio: rounded down to two decimal places unless more detail
/// was asked for, else with as many of its six decimal places as are needed.
pub fn format_contrast_ratio(ratio: u64, verbosity: u8) -> (text: String)
    ensures
        text@ == ratio_text(ratio as nat, verbosity),
{
    if verbosity == 0 {
        // Usually only displaying the first 2 decimal places is enough.
        let floored_val = floor_n_decimals(ratio, 2);
        let mut text = format_natural((floored_val / RATIO_ONE) as u128);
        text.push('.');
        text.push((48u8 + (floored_val % RATIO_ONE / 100_000) as u8) as char);
        text.push((48u8 + (floored_val % 100_000 / 10_000) as u8) as char);
        assert(text@ =~= two_places_text(floored_val as nat));
        string_from_chars(&text)
    } else {
        assert(crate::css_types::is_power_of_ten(RATIO_ONE as nat)) by {
            reveal_with_fuel(crate::css_types::is_power_of_ten, 8);
        }
        let text = format_decimal(ratio as u128, RATIO_ONE);
        string_from_chars(&text)
    }
}

/// Formats the levels that were reached: their names, or `None` where there is none.
pub fn format_contrast_levels(levels: &Vec<ContrastLevel>) -> (text: String)
    ensures
        text@ == levels_text(levels@),
{
    if levels.len() == 0 {
        return "None".to_owned();
    }
    let mut text: Vec<char> = Vec::new();
    let mut at: usize = 0;
    while at < levels.len()
        invariant
            at <= levels.len(),
            text@ == joined_names(levels@.take(at as int)),
        decreases levels.len() - at,
    {
        if at > 0 {
            text.push(',');
            text.push(' ');
        }
        let mut name = chars_of(levels[at].as_str());
        text.append(&mut name);
        proof {
            let seen = levels@.take(at + 1);
            assert(seen.drop_last() =~= levels@.take(at as int));
            assert(seen.last() == levels[at as int]);
            assert(text@ =~= joined_names(seen));
        }
        at += 1;
    }
    assert(levels@.take(levels.len() as int) =~= levels@);
    string_from_chars(&text)
}

} // verus!
