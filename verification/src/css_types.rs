//! CSS numbers and percentages, see <https://www.w3.org/TR/css-values-3/#numeric-types>.
//!
//! A number is held exactly, as a whole number of units. How many units the
//! number 1 stands for is up to the caller, who knows what the number measures.

use vstd::prelude::*;
use vstd::slice::slice_subrange;
use crate::component::VALUE_MAX;
use crate::error::{NumberError, ParsingError};

verus! {

/// The units that 1% stands for, where [`VALUE_MAX`] units are 100%.
pub const PERCENT_STEP: u64 = 25_500_000_000_000_000;

/// The steps that 1 is made of where a number is printed: a number has up to 16
/// decimal places.
pub const NUMBER_ONE: u64 = 10_000_000_000_000_000;

/// The steps that 1% is made of where a percentage is printed: a percentage has up
/// to 14 decimal places.
pub const PERCENT_ONE: u64 = 100_000_000_000_000;

/// A CSS number, in units.
#[derive(Debug, Clone, Copy, PartialEq, Eq, Structural)]
pub struct CssNumber {
    /// Whether the number was written with a minus sign.
    pub negative: bool,
    /// The distance of the number from 0.
    pub magnitude: u128,
}

impl View for CssNumber {
    type V = int;

    open spec fn view(&self) -> int {
        if self.negative {
            -(self.magnitude as int)
        } else {
            self.magnitude as int
        }
    }
}

/// Whether a character is one of the ten decimal digits.
pub open spec fn is_digit(c: char) -> bool {
    '0' <= c <= '9'
}

/// The number that a decimal digit stands for.
pub open spec fn digit_value(c: char) -> nat {
    (c as u32 - '0' as u32) as nat
}

/// Whether each of the characters is a decimal digit.
pub open spec fn all_digits(s: Seq<char>) -> bool {
    forall|i: int| 0 <= i < s.len() ==> is_digit(#[trigger] s[i])
}

/// The whole number that a sequence of decimal digits stands for.
pub open spec fn digits_value(digits: Seq<char>) -> nat
    decreases digits.len(),
{
    if digits.len() == 0 {
        0
    } else {
        10 * digits_value(digits.drop_last()) + digit_value(digits.last())
    }
}

/// The place of the first `wanted` at or after `from`, or the length where there is none.
pub open spec fn find_from(s: Seq<char>, wanted: char, from: int) -> int
    decreases s.len() - from,
{
    if from >= s.len() || s[from] == wanted {
        from
    } else {
        find_from(s, wanted, from + 1)
    }
}

/// Whether a number starts with a sign.
pub open spec fn has_sign(s: Seq<char>) -> bool {
    s.len() > 0 && (s[0] == '-' || s[0] == '+')
}

/// A number without its sign.
pub open spec fn unsigned_part(s: Seq<char>) -> Seq<char> {
    if has_sign(s) {
        s.skip(1)
    } else {
        s
    }
}

/// The digits of a number before its decimal point.
pub open spec fn integer_digits(s: Seq<char>) -> Seq<char> {
    unsigned_part(s).take(find_from(unsigned_part(s), '.', 0))
}

/// The digits of a number after its decimal point.
pub open spec fn fraction_digits(s: Seq<char>) -> Seq<char> {
    let point = find_from(unsigned_part(s), '.', 0);
    if point < unsigned_part(s).len() {
        unsigned_part(s).skip(point + 1)
    } else {
        Seq::empty()
    }
}

/// Whether a sequence of characters is a number: a sign or none, then digits,
/// or digits, a point and digits.
pub open spec fn is_number(s: Seq<char>) -> bool {
    &&& integer_digits(s).len() > 0
    &&& all_digits(integer_digits(s))
    &&& all_digits(fraction_digits(s))
    &&& (find_from(unsigned_part(s), '.', 0) < unsigned_part(s).len() ==> fraction_digits(s).len()
        > 0)
}

/// Whether decimal places can be held where the place before the first of them
/// is worth `one` units: each place is worth a tenth of the place before it, and
/// that must be a whole number of units.
pub open spec fn fraction_fits(digits: Seq<char>, one: nat) -> bool
    decreases digits.len(),
{
    digits.len() > 0 ==> one % 10 == 0 && fraction_fits(digits.skip(1), one / 10)
}

/// The units that decimal places stand for where the place before the first of
/// them is worth `one` units.
pub open spec fn fraction_units(digits: Seq<char>, one: nat) -> nat
    decreases digits.len(),
{
    if digits.len() == 0 {
        0
    } else {
        digit_value(digits[0]) * (one / 10) + fraction_units(digits.skip(1), one / 10)
    }
}

/// What a number means where 1 stands for `one` units: the number in units, or why
/// it cannot be held.
pub open spec fn number_units(s: Seq<char>, one: nat) -> Result<int, NumberError> {
    if !is_number(s) {
        Err(NumberError::InvalidDigit)
    } else if digits_value(integer_digits(s)) > u64::MAX {
        Err(NumberError::TooLarge)
    } else if !fraction_fits(fraction_digits(s), one) {
        Err(NumberError::TooPrecise)
    } else {
        let magnitude = digits_value(integer_digits(s)) * one + fraction_units(
            fraction_digits(s),
            one,
        );
        if s[0] == '-' {
            Ok(-magnitude)
        } else {
            Ok(magnitude as int)
        }
    }
}

/// Whether a sequence of characters ends with the percentage sign.
pub open spec fn ends_with_percent(s: Seq<char>) -> bool {
    s.len() > 0 && s.last() == '%'
}

/// The decimal digit that stands for a number below 10.
pub open spec fn digit_char(value: nat) -> char {
    ('0' as u32 + value) as char
}

/// A whole number in decimal digits, without leading zeros.
pub open spec fn natural_text(n: nat) -> Seq<char>
    decreases n,
{
    if n < 10 {
        seq![digit_char(n)]
    } else {
        natural_text(n / 10).push(digit_char(n % 10))
    }
}

/// Whether a number is 1, 10, 100 and so on.
pub open spec fn is_power_of_ten(n: nat) -> bool
    decreases n,
{
    n == 1 || (n >= 10 && n % 10 == 0 && is_power_of_ten(n / 10))
}

/// The decimal places of `steps / one`, for `steps` below `one`, up to the last
/// place that is not 0.
pub open spec fn places_text(steps: nat, one: nat) -> Seq<char>
    decreases one,
{
    if steps == 0 || one < 10 {
        Seq::empty()
    } else {
        seq![digit_char(steps / (one / 10))] + places_text(steps % (one / 10), one / 10)
    }
}

/// The number `steps / one` in decimal digits, where `one` is a power of ten:
/// without a decimal point if it is whole, else up to the last decimal place that is
/// not 0.
pub open spec fn decimal_text(steps: nat, one: nat) -> Seq<char> {
    if steps % one == 0 {
        natural_text(steps / one)
    } else {
        natural_text(steps / one) + seq!['.'] + places_text(steps % one, one)
    }
}

/// The number `val / one` in steps of which [`NUMBER_ONE`] make up 1, rounded
/// towards positive infinity.
pub open spec fn steps_up(val: nat, one: nat) -> nat {
    let scaled = val * (NUMBER_ONE as nat);
    if scaled % one == 0 {
        scaled / one
    } else {
        scaled / one + 1
    }
}

/// The number `val / one` as a CSS number with up to 16 decimal places, rounded
/// towards positive infinity.
pub open spec fn number_text(val: nat, one: nat) -> Seq<char> {
    decimal_text(steps_up(val, one), NUMBER_ONE as nat)
}

/// The number `val / one` as a CSS percentage with up to 14 decimal places, rounded
/// towards positive infinity.
pub open spec fn percentage_text(val: nat, one: nat) -> Seq<char> {
    decimal_text(steps_up(val, one), PERCENT_ONE as nat).push('%')
}

/// `find_from` gives the first place at or after `from` that holds `wanted`.
pub proof fn lemma_find_from(s: Seq<char>, wanted: char, from: int, found: int)
    requires
        0 <= from <= found <= s.len(),
        forall|i: int| from <= i < found ==> s[i] != wanted,
        found < s.len() ==> s[found] == wanted,
    ensures
        find_from(s, wanted, from) == found,
    decreases found - from,
{
    if from < found {
        lemma_find_from(s, wanted, from + 1, found);
    }
}

/// The value of the first digits of a number is not above the value of all of them.
pub proof fn lemma_digits_value_prefix(digits: Seq<char>, count: int)
    requires
        0 <= count <= digits.len(),
    ensures
        digits_value(digits.take(count)) <= digits_value(digits),
    decreases digits.len() - count,
{
    if count < digits.len() {
        lemma_digits_value_prefix(digits, count + 1);
        assert(digits.take(count + 1).drop_last() =~= digits.take(count));
    } else {
        assert(digits.take(count) =~= digits);
    }
}

/// The place of the first `wanted` at or after `from`, or the length where there is none.
pub fn find_char(chars: &[char], wanted: char, from: usize) -> (found: usize)
    requires
        from <= chars.len(),
    ensures
        found == find_from(chars@, wanted, from as int),
        from <= found <= chars.len(),
        forall|i: int| from <= i < found ==> chars[i] != wanted,
        found < chars.len() ==> chars[found as int] == wanted,
{
    let mut at = from;
    while at < chars.len() && chars[at] != wanted
        invariant
            from <= at <= chars.len(),
            forall|i: int| from <= i < at ==> chars[i] != wanted,
        decreases chars.len() - at,
    {
        at += 1;
    }
    proof {
        lemma_find_from(chars@, wanted, from as int, at as int);
    }
    at
}

/// Checks if the characters from `from` up to `to` are all decimal digits.
fn digits_between(chars: &[char], from: usize, to: usize) -> (digits: bool)
    requires
        from <= to <= chars.len(),
    ensures
        digits == all_digits(chars@.subrange(from as int, to as int)),
{
    let mut at = from;
    while at < to
        invariant
            from <= at <= to <= chars.len(),
            forall|i: int| from <= i < at ==> is_digit(chars[i]),
        decreases to - at,
    {
        if !('0' <= chars[at] && chars[at] <= '9') {
            assert(!is_digit(chars@.subrange(from as int, to as int)[at - from]));
            return false;
        }
        at += 1;
    }
    assert forall|i: int| 0 <= i < to - from implies is_digit(
        #[trigger] chars@.subrange(from as int, to as int)[i],
    ) by {
        assert(is_digit(chars[from + i]));
    }
    true
}

/// Checks if something can be parsed as a CSS percentage.
pub fn is_percentage(seq: &[char]) -> (percentage: bool)
    ensures
        percentage == ends_with_percent(seq@),
{
    seq.len() > 0 && seq[seq.len() - 1] == '%'
}

/// The place of the first character of a number that is not its sign.
fn after_sign(seq: &[char]) -> (start: usize)
    ensures
        start <= seq.len(),
        start == if has_sign(seq@) { 1int } else { 0int },
        unsigned_part(seq@) == seq@.subrange(start as int, seq.len() as int),
{
    if seq.len() > 0 && (seq[0] == '-' || seq[0] == '+') {
        1
    } else {
        assert(seq@.subrange(0, seq.len() as int) =~= seq@);
        0
    }
}

/// Finds the decimal point of a number whose first character after the sign is at `start`.
fn find_point(seq: &[char], start: usize) -> (point: usize)
    requires
        start <= seq.len(),
        unsigned_part(seq@) == seq@.subrange(start as int, seq.len() as int),
    ensures
        start <= point <= seq.len(),
        point - start == find_from(unsigned_part(seq@), '.', 0),
        integer_digits(seq@) == seq@.subrange(start as int, point as int),
        point < seq.len() ==> fraction_digits(seq@) == seq@.subrange(
            point + 1,
            seq.len() as int,
        ),
        point == seq.len() ==> fraction_digits(seq@) == Seq::<char>::empty(),
{
    let point = find_char(seq, '.', start);
    proof {
        let unsigned = unsigned_part(seq@);
        assert forall|i: int| 0 <= i < point - start implies unsigned[i] != '.' by {
            assert(unsigned[i] == seq[start + i]);
        }
        lemma_find_from(unsigned, '.', 0, point - start);
        assert(unsigned.take(point - start) =~= seq@.subrange(start as int, point as int));
        if point < seq.len() {
            assert(unsigned.skip(point - start + 1) =~= seq@.subrange(
                point + 1,
                seq.len() as int,
            ));
        }
    }
    point
}

/// Checks if something is a CSS number: a sign or none, then digits, or digits, a
/// point and digits.
pub fn matches_number(seq: &[char]) -> (number: bool)
    ensures
        number == is_number(seq@),
{
    let start = after_sign(seq);
    let point = find_point(seq, start);
    if point == start || !digits_between(seq, start, point) {
        return false;
    }
    if point == seq.len() {
        return true;
    }
    point + 1 < seq.len() && digits_between(seq, point + 1, seq.len())
}

/// Parses a CSS number (e.g. `'1.2'`). The number 1 stands for `one` units.
///
/// # Errors
/// `NumberConversionFailed`, with the cause:
/// - `InvalidDigit` if this is no number.
/// - `TooLarge` if what stands before the decimal point is above `u64::MAX`.
/// - `TooPrecise` if the last decimal place is not worth a whole number of units.
pub fn parse_number(seq: &[char], one: u64) -> (number: Result<CssNumber, ParsingError>)
    ensures
        match number_units(seq@, one as nat) {
            Ok(units) => number matches Ok(n) && n@ == units && n.negative == (seq@[0] == '-'),
            Err(cause) => number matches Err(ParsingError::NumberConversionFailed(c)) && c
                == cause,
        },
{
    if !matches_number(seq) {
        return Err(ParsingError::NumberConversionFailed(NumberError::InvalidDigit));
    }
    let start = after_sign(seq);
    let point = find_point(seq, start);
    let negative = seq[0] == '-';
    let ghost whole_digits = integer_digits(seq@);
    let ghost places = fraction_digits(seq@);

    let mut whole: u64 = 0;
    let mut at = start;
    while at < point
        invariant
            start <= at <= point <= seq.len(),
            is_number(seq@),
            whole_digits == integer_digits(seq@),
            whole_digits == seq@.subrange(start as int, point as int),
            whole == digits_value(whole_digits.take(at - start)),
        decreases point - at,
    {
        let ghost seen = whole_digits.take(at - start + 1);
        assert(seen.drop_last() =~= whole_digits.take(at - start));
        assert(seen.last() == seq[at as int]);
        assert(is_digit(whole_digits[at - start]));
        let digit = (seq[at] as u32 - '0' as u32) as u64;
        assert(digits_value(seen) == 10 * whole + digit);
        if whole > (u64::MAX - digit) / 10 {
            proof {
                lemma_digits_value_prefix(whole_digits, at - start + 1);
            }
            return Err(ParsingError::NumberConversionFailed(NumberError::TooLarge));
        }
        whole = whole * 10 + digit;
        at += 1;
    }
    assert(whole_digits.take(point - start) =~= whole_digits);

    let mut step: u64 = one;
    let mut fraction: u64 = 0;
    if point < seq.len() {
        at = point + 1;
        while at < seq.len()
            invariant
                point < at <= seq.len(),
                is_number(seq@),
                digits_value(integer_digits(seq@)) <= u64::MAX,
                places == fraction_digits(seq@),
                places == seq@.subrange(point + 1, seq.len() as int),
                fraction + step <= one,
                fraction_fits(places, one as nat) == fraction_fits(
                    seq@.subrange(at as int, seq.len() as int),
                    step as nat,
                ),
                fraction_fits(places, one as nat) ==> fraction_units(places, one as nat)
                    == fraction + fraction_units(
                    seq@.subrange(at as int, seq.len() as int),
                    step as nat,
                ),
            decreases seq.len() - at,
        {
            let ghost rest = seq@.subrange(at as int, seq.len() as int);
            assert(rest.skip(1) =~= seq@.subrange(at + 1, seq.len() as int));
            assert(rest[0] == seq[at as int]);
            assert(is_digit(places[at - point - 1]));
            if step % 10 != 0 {
                return Err(ParsingError::NumberConversionFailed(NumberError::TooPrecise));
            }
            let digit = (seq[at] as u32 - '0' as u32) as u64;
            step = step / 10;
            assert(digit * step <= 9 * step) by (nonlinear_arith)
                requires
                    digit <= 9,
            ;
            fraction = fraction + digit * step;
            at += 1;
        }
    }
    assert(fraction_fits(places, one as nat));
    assert(fraction_units(places, one as nat) == fraction);
    assert(whole as u128 * one as u128 <= u64::MAX * u64::MAX) by (nonlinear_arith)
        requires
            whole <= u64::MAX,
            one <= u64::MAX,
    ;
    let magnitude: u128 = whole as u128 * one as u128 + fraction as u128;
    Ok(CssNumber { negative, magnitude })
}

/// Parses a CSS percentage (e.g. `'60%'`). 100% stands for `VALUE_MAX` units.
///
/// # Errors
/// Those of [`parse_number`], for the number in front of the percentage sign.
pub fn parse_percentage(seq: &[char]) -> (number: Result<CssNumber, ParsingError>)
    requires
        ends_with_percent(seq@),
    ensures
        match number_units(seq@.drop_last(), PERCENT_STEP as nat) {
            Ok(units) => number matches Ok(n) && n@ == units && n.negative == (seq@[0] == '-'),
            Err(cause) => number matches Err(ParsingError::NumberConversionFailed(c)) && c
                == cause,
        },
{
    let number = slice_subrange(seq, 0, seq.len() - 1);
    assert(number@ =~= seq@.drop_last());
    assert(is_number(number@) ==> number@.len() > 0 && number@[0] == seq@[0]);
    parse_number(number, PERCENT_STEP)
}

/// Appends a whole number in decimal digits.
fn push_natural(text: &mut Vec<char>, n: u128)
    ensures
        final(text)@ == old(text)@ + natural_text(n as nat),
    decreases n,
{
    if n >= 10 {
        push_natural(text, n / 10);
    }
    text.push((48u8 + (n % 10) as u8) as char);
    proof {
        if n >= 10 {
            assert(final(text)@ =~= old(text)@ + natural_text(n as nat));
        } else {
            assert(final(text)@ =~= old(text)@ + natural_text(n as nat));
        }
    }
}

/// Appends the decimal places of `steps / one`, up to the last that is not 0.
fn push_places(text: &mut Vec<char>, steps: u64, one: u64)
    requires
        steps < one,
        is_power_of_ten(one as nat),
    ensures
        final(text)@ == old(text)@ + places_text(steps as nat, one as nat),
    decreases one,
{
    if steps == 0 || one < 10 {
        assert(final(text)@ =~= old(text)@ + places_text(steps as nat, one as nat));
        return ;
    }
    let tenth = one / 10;
    let digit = steps / tenth;
    assert(digit < 10) by (nonlinear_arith)
        requires
            steps < one,
            one == 10 * tenth,
            tenth > 0,
            digit == steps / tenth,
    ;
    text.push((48u8 + digit as u8) as char);
    let ghost pushed = text@;
    push_places(text, steps % tenth, tenth);
    assert(final(text)@ =~= old(text)@ + places_text(steps as nat, one as nat));
}

/// Formats a whole number in decimal digits, without leading zeros.
pub fn format_natural(n: u128) -> (text: Vec<char>)
    ensures
        text@ == natural_text(n as nat),
{
    let mut text: Vec<char> = Vec::new();
    push_natural(&mut text, n);
    text
}

/// Formats the number `steps / one`, where `one` is a power of ten: without a
/// decimal point if it is whole, else up to the last decimal place that is not 0.
pub(crate) fn format_decimal(steps: u128, one: u64) -> (text: Vec<char>)
    requires
        is_power_of_ten(one as nat),
    ensures
        text@ == decimal_text(steps as nat, one as nat),
{
    let whole = steps / one as u128;
    let rest = (steps % one as u128) as u64;
    let mut text: Vec<char> = Vec::new();
    push_natural(&mut text, whole);
    if rest != 0 {
        text.push('.');
        push_places(&mut text, rest, one);
    }
    assert(text@ =~= decimal_text(steps as nat, one as nat));
    text
}

/// The number `val / one` in steps of which [`NUMBER_ONE`] make up 1, rounded
/// towards positive infinity.
fn round_up_to_steps(val: u64, one: u64) -> (steps: u128)
    requires
        one > 0,
    ensures
        steps == steps_up(val as nat, one as nat),
{
    assert(val as u128 * NUMBER_ONE as u128 <= u64::MAX * NUMBER_ONE) by (nonlinear_arith)
        requires
            val <= u64::MAX,
    ;
    let scaled: u128 = val as u128 * NUMBER_ONE as u128;
    let whole = scaled / one as u128;
    let steps = if scaled % one as u128 == 0 {
        whole
    } else {
        whole + 1
    };
    steps
}

/// Formats the number `val / one` as a CSS number (e.g. 6/10 as `'0.6'`), with up
/// to 16 decimal places, rounded towards positive infinity.
pub fn format_number(val: u64, one: u64) -> (text: Vec<char>)
    requires
        one > 0,
    ensures
        text@ == number_text(val as nat, one as nat),
{
    let steps = round_up_to_steps(val, one);
    assert(is_power_of_ten(NUMBER_ONE as nat)) by {
        reveal_with_fuel(is_power_of_ten, 18);
    }
    format_decimal(steps, NUMBER_ONE)
}

/// Formats the number `val / one` as a CSS percentage (e.g. 6/10 as `'60%'`), with
/// up to 14 decimal places, rounded towards positive infinity.
pub fn format_percentage(val: u64, one: u64) -> (text: Vec<char>)
    requires
        one > 0,
    ensures
        text@ == percentage_text(val as nat, one as nat),
{
    let steps = round_up_to_steps(val, one);
    assert(is_power_of_ten(PERCENT_ONE as nat)) by {
        reveal_with_fuel(is_power_of_ten, 16);
    }
    let mut text = format_decimal(steps, PERCENT_ONE);
    text.push('%');
    text
}

/// Whether none of the characters is a space.
pub open spec fn no_space(s: Seq<char>) -> bool {
    forall|i: int| 0 <= i < s.len() ==> #[trigger] s[i] != ' '
}

/// A decimal digit stands for the number that it was made from.
pub proof fn lemma_digit_char(value: nat)
    requires
        value < 10,
    ensures
        is_digit(digit_char(value)),
        digit_value(digit_char(value)) == value,
{
}

/// A whole number that is printed and read again is the same number.
pub proof fn lemma_natural_text(n: nat)
    ensures
        natural_text(n).len() > 0,
        all_digits(natural_text(n)),
        digits_value(natural_text(n)) == n,
    decreases n,
{
    lemma_digit_char(n % 10);
    if n >= 10 {
        lemma_natural_text(n / 10);
        let text = natural_text(n);
        assert(text.drop_last() =~= natural_text(n / 10));
        assert(text.last() == digit_char(n % 10));
        assert forall|i: int| 0 <= i < text.len() implies is_digit(#[trigger] text[i]) by {
            if i < text.len() - 1 {
                assert(text[i] == natural_text(n / 10)[i]);
            }
        }
    } else {
        let text = natural_text(n);
        assert(text.drop_last() =~= Seq::<char>::empty());
        assert(digits_value(text.drop_last()) == 0);
    }
}

/// Decimal places that are printed in steps of which `one` make up 1, and read
/// again where 1 stands for `factor * one` units, are `factor` units for each step.
pub proof fn lemma_places_text(steps: nat, one: nat, factor: nat)
    requires
        is_power_of_ten(one),
        steps < one,
    ensures
        all_digits(places_text(steps, one)),
        steps > 0 ==> places_text(steps, one).len() > 0,
        fraction_fits(places_text(steps, one), factor * one),
        fraction_units(places_text(steps, one), factor * one) == factor * steps,
    decreases one,
{
    let text = places_text(steps, one);
    if steps == 0 || one < 10 {
        assert(steps == 0);
        assert(factor * steps == 0) by (nonlinear_arith)
            requires
                steps == 0,
        ;
    } else {
        let tenth = one / 10;
        let digit = steps / tenth;
        let rest = steps % tenth;
        assert(digit < 10) by (nonlinear_arith)
            requires
                steps < one,
                one == 10 * tenth,
                tenth > 0,
                digit == steps / tenth,
        ;
        assert(steps == tenth * digit + rest) by {
            vstd::arithmetic::div_mod::lemma_fundamental_div_mod(steps as int, tenth as int);
        }
        lemma_digit_char(digit);
        lemma_places_text(rest, tenth, factor);
        assert(text.skip(1) =~= places_text(rest, tenth));
        assert(text[0] == digit_char(digit));
        assert forall|i: int| 0 <= i < text.len() implies is_digit(#[trigger] text[i]) by {
            if i > 0 {
                assert(text[i] == places_text(rest, tenth)[i - 1]);
            }
        }
        assert(factor * one == 10 * (factor * tenth)) by (nonlinear_arith)
            requires
                one == 10 * tenth,
        ;
        assert(digit * (factor * tenth) + factor * rest == factor * steps) by (nonlinear_arith)
            requires
                steps == tenth * digit + rest,
        ;
    }
}

/// A number that is printed in steps of which `one` make up 1 is a number without
/// a sign and without a space, and read again where 1 stands for `factor * one`
/// units, it is `factor` units for each step.
pub proof fn lemma_decimal_text(steps: nat, one: nat, factor: nat)
    requires
        is_power_of_ten(one),
        steps / one <= u64::MAX,
    ensures
        is_number(decimal_text(steps, one)),
        no_space(decimal_text(steps, one)),
        !ends_with_percent(decimal_text(steps, one)),
        number_units(decimal_text(steps, one), factor * one) == Ok::<int, NumberError>(
            (factor * steps) as int,
        ),
{
    let text = decimal_text(steps, one);
    let whole = natural_text(steps / one);
    let places = places_text(steps % one, one);
    lemma_natural_text(steps / one);
    lemma_places_text(steps % one, one, factor);
    assert(steps == one * (steps / one) + steps % one) by {
        vstd::arithmetic::div_mod::lemma_fundamental_div_mod(steps as int, one as int);
    }
    assert forall|i: int| 0 <= i < whole.len() implies is_digit(text[i]) by {
        assert(text[i] == whole[i]);
    }
    assert(!has_sign(text)) by {
        assert(is_digit(text[0]));
    }
    assert(unsigned_part(text) == text);
    if steps % one == 0 {
        assert(text == whole);
        lemma_find_from(text, '.', 0, text.len() as int);
        assert(integer_digits(text) =~= whole);
        assert(fraction_digits(text) =~= places);
    } else {
        assert(text[whole.len() as int] == '.');
        lemma_find_from(text, '.', 0, whole.len() as int);
        assert(integer_digits(text) =~= whole);
        assert(fraction_digits(text) =~= places);
        assert forall|i: int| 0 <= i < text.len() implies #[trigger] text[i] != ' ' by {
            if i < whole.len() {
                assert(is_digit(text[i]));
            } else if i > whole.len() {
                assert(text[i] == places[i - whole.len() - 1]);
                assert(is_digit(places[i - whole.len() - 1]));
            }
        }
        assert(is_digit(text.last())) by {
            assert(text.last() == places[places.len() - 1]);
        }
    }
    let quotient = steps / one;
    let remainder = steps % one;
    assert(quotient * (factor * one) + factor * remainder == factor * steps) by (nonlinear_arith)
        requires
            steps == one * quotient + remainder,
    ;
}

} // verus!
