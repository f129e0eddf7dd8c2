//! CSS hex color notation, see <https://www.w3.org/TR/css-color-4/#hex-notation>.

use vstd::prelude::*;
use crate::color::RGB;
use crate::component::{BYTE_STEP, VALUE_MAX};
use crate::error::{NumberError, ParsingError};
use crate::rgb::{OmitAlphaChannel, Rgb, RgbChannel};
use crate::text::string_from_chars;

verus! {

/// Represents the case of hexadecimal letters.
#[derive(Debug, PartialEq, Eq, Copy, Clone, Structural)]
pub enum LetterCase {
    Uppercase,
    Lowercase,
}

/// If shorthand (single digit per channel) notation may be used if the double digit notation is the same digit two times.
#[derive(Debug, PartialEq, Eq, Copy, Clone, Structural)]
pub enum ShorthandNotation {
    Never,
    IfPossible,
}

/// The number that a hexadecimal digit stands for, if the character is one.
pub open spec fn hex_digit_value(c: char) -> Option<u8> {
    if '0' <= c <= '9' {
        Some((c as u32 - '0' as u32) as u8)
    } else if 'a' <= c <= 'f' {
        Some((c as u32 - 'a' as u32 + 10) as u8)
    } else if 'A' <= c <= 'F' {
        Some((c as u32 - 'A' as u32 + 10) as u8)
    } else {
        None
    }
}

/// The hexadecimal digit that stands for a number below 16.
pub open spec fn hex_digit(value: u8, letter_case: LetterCase) -> char {
    if value < 10 {
        ('0' as u32 + value) as char
    } else if letter_case == LetterCase::Uppercase {
        ('A' as u32 + value - 10) as char
    } else {
        ('a' as u32 + value - 10) as char
    }
}

/// Whether the two hexadecimal digits of a channel are the same digit.
pub open spec fn can_shorthand(channel: u8) -> bool {
    channel / 16 == channel % 16
}

/// The digits of a channel: one digit in shorthand notation, else two.
pub open spec fn hex_channel_text(channel: u8, shorthand: bool, letter_case: LetterCase) -> Seq<
    char,
> {
    if shorthand {
        seq![hex_digit(channel % 16, letter_case)]
    } else {
        seq![hex_digit(channel / 16, letter_case), hex_digit(channel % 16, letter_case)]
    }
}

/// Whether shorthand notation is asked for and every channel that is printed allows it.
pub open spec fn uses_shorthand(
    red: u8,
    green: u8,
    blue: u8,
    alpha: Option<u8>,
    shorthand_notation: ShorthandNotation,
) -> bool {
    &&& shorthand_notation == ShorthandNotation::IfPossible
    &&& can_shorthand(red)
    &&& can_shorthand(green)
    &&& can_shorthand(blue)
    &&& (alpha matches Some(a) ==> can_shorthand(a))
}

/// The hex notation of three color channels and, where one is given, an alpha channel.
pub open spec fn hex_text(
    red: u8,
    green: u8,
    blue: u8,
    alpha: Option<u8>,
    shorthand_notation: ShorthandNotation,
    letter_case: LetterCase,
) -> Seq<char> {
    let shorthand = uses_shorthand(red, green, blue, alpha, shorthand_notation);
    let color_text = seq!['#'] + hex_channel_text(red, shorthand, letter_case) + hex_channel_text(
        green,
        shorthand,
        letter_case,
    ) + hex_channel_text(blue, shorthand, letter_case);
    match alpha {
        Some(a) => color_text + hex_channel_text(a, shorthand, letter_case),
        None => color_text,
    }
}

/// The alpha channel as it is printed: none where it may be omitted and the color is opaque.
pub open spec fn printed_alpha(alpha: u8, opaque: bool, omit_alpha_channel: OmitAlphaChannel) -> Option<
    u8,
> {
    if opaque && omit_alpha_channel == OmitAlphaChannel::IfOpaque {
        None
    } else {
        Some(alpha)
    }
}

/// Whether each of the characters is a hexadecimal digit.
pub open spec fn all_hex_digits(digits: Seq<char>) -> bool {
    forall|i: int| 0 <= i < digits.len() ==> (#[trigger] hex_digit_value(digits[i])) is Some
}

/// The channel that one digit of shorthand notation stands for: the digit, two times.
pub open spec fn shorthand_channel_value(digit: char) -> u8 {
    (17 * hex_digit_value(digit).unwrap()) as u8
}

/// The channel that two digits stand for.
pub open spec fn channel_value(high: char, low: char) -> u8 {
    (16 * hex_digit_value(high).unwrap() + hex_digit_value(low).unwrap()) as u8
}

/// What a string means in hex notation: the color, or what is wrong with the string.
pub open spec fn hex_str_color(hex_str: Seq<char>) -> Result<RGB, ParsingError> {
    if hex_str.len() == 0 || hex_str[0] != '#' {
        Err(ParsingError::InvalidSyntax("Missing '#'"))
    } else {
        let digits = hex_str.subrange(1, hex_str.len() as int);
        if digits.len() != 3 && digits.len() != 4 && digits.len() != 6 && digits.len() != 8 {
            Err(ParsingError::InvalidSyntax("Unexpected length"))
        } else if !all_hex_digits(digits) {
            Err(ParsingError::NumberConversionFailed(NumberError::InvalidDigit))
        } else if digits.len() == 3 || digits.len() == 4 {
            Ok(
                RGB {
                    red: shorthand_channel_value(digits[0]),
                    green: shorthand_channel_value(digits[1]),
                    blue: shorthand_channel_value(digits[2]),
                    alpha: if digits.len() == 4 {
                        shorthand_channel_value(digits[3])
                    } else {
                        255
                    },
                },
            )
        } else {
            Ok(
                RGB {
                    red: channel_value(digits[0], digits[1]),
                    green: channel_value(digits[2], digits[3]),
                    blue: channel_value(digits[4], digits[5]),
                    alpha: if digits.len() == 8 {
                        channel_value(digits[6], digits[7])
                    } else {
                        255
                    },
                },
            )
        }
    }
}

/// The number that a hexadecimal digit stands for.
pub fn parse_hexadecimal_digit(digit: char) -> (value: Option<u8>)
    ensures
        value == hex_digit_value(digit),
        value matches Some(v) ==> v < 16,
{
    if '0' <= digit && digit <= '9' {
        Some((digit as u32 - '0' as u32) as u8)
    } else if 'a' <= digit && digit <= 'f' {
        Some((digit as u32 - 'a' as u32 + 10) as u8)
    } else if 'A' <= digit && digit <= 'F' {
        Some((digit as u32 - 'A' as u32 + 10) as u8)
    } else {
        None
    }
}

/// Parses the one digit that a channel has in shorthand notation.
pub fn parse_shorthand_hexadecimal_channel(digit: char) -> (channel: Result<u8, ParsingError>)
    ensures
        channel is Ok <==> hex_digit_value(digit) is Some,
        channel matches Ok(c) ==> c == shorthand_channel_value(digit),
        channel matches Err(e) ==> e == ParsingError::NumberConversionFailed(
            NumberError::InvalidDigit,
        ),
{
    match parse_hexadecimal_digit(digit) {
        // In the shorthand notation, the hex digit is simply repeated, so e.g "F" becomes "FF".
        Some(value) => Ok(value * 17),
        None => Err(ParsingError::NumberConversionFailed(NumberError::InvalidDigit)),
    }
}

/// Parses the two digits of a channel.
pub fn parse_hexadecimal_channel(high: char, low: char) -> (channel: Result<u8, ParsingError>)
    ensures
        channel is Ok <==> hex_digit_value(high) is Some && hex_digit_value(low) is Some,
        channel matches Ok(c) ==> c == channel_value(high, low),
        channel matches Err(e) ==> e == ParsingError::NumberConversionFailed(
            NumberError::InvalidDigit,
        ),
{
    match (parse_hexadecimal_digit(high), parse_hexadecimal_digit(low)) {
        (Some(h), Some(l)) => Ok(h * 16 + l),
        _ => Err(ParsingError::NumberConversionFailed(NumberError::InvalidDigit)),
    }
}

/// The hexadecimal digit that stands for a number below 16.
fn hexadecimal_digit(value: u8, letter_case: LetterCase) -> (digit: char)
    requires
        value < 16,
    ensures
        digit == hex_digit(value, letter_case),
{
    if value < 10 {
        (48u8 + value) as char
    } else if letter_case == LetterCase::Uppercase {
        (65u8 + (value - 10)) as char
    } else {
        (97u8 + (value - 10)) as char
    }
}

/// Formats a channel as two hexadecimal digits.
pub fn format_hex(channel: u8, letter_case: LetterCase) -> (text: Vec<char>)
    ensures
        text@ == hex_channel_text(channel, false, letter_case),
{
    let mut text: Vec<char> = Vec::new();
    text.push(hexadecimal_digit(channel / 16, letter_case));
    text.push(hexadecimal_digit(channel % 16, letter_case));
    assert(text@ =~= hex_channel_text(channel, false, letter_case));
    text
}

/// Checks if the two hexadecimal digits of a channel are the same digit.
pub fn can_shorthand_hexadecimal_channel(channel: u8) -> (possible: bool)
    ensures
        possible == can_shorthand(channel),
{
    channel / 16 == channel % 16
}

/// Formats a channel whose two hexadecimal digits are the same digit as that one digit.
pub fn shorthand_hexadecimal_channel(channel: u8, letter_case: LetterCase) -> (text: Vec<char>)
    requires
        can_shorthand(channel),
    ensures
        text@ == hex_channel_text(channel, true, letter_case),
{
    let mut text: Vec<char> = Vec::new();
    text.push(hexadecimal_digit(channel % 16, letter_case));
    assert(text@ =~= hex_channel_text(channel, true, letter_case));
    text
}

/// The characters of the hex notation of three color channels and, where one is
/// given, an alpha channel.
pub fn hex_chars(
    red: u8,
    green: u8,
    blue: u8,
    alpha: Option<u8>,
    shorthand_notation: ShorthandNotation,
    letter_case: LetterCase,
) -> (text: Vec<char>)
    ensures
        text@ == hex_text(red, green, blue, alpha, shorthand_notation, letter_case),
{
    let mut red_str = format_hex(red, letter_case);
    let mut green_str = format_hex(green, letter_case);
    let mut blue_str = format_hex(blue, letter_case);
    let mut alpha_str_opt = match alpha {
        Some(a) => Some(format_hex(a, letter_case)),
        None => None,
    };

    if shorthand_notation == ShorthandNotation::IfPossible && can_shorthand_hexadecimal_channel(
        red,
    ) && can_shorthand_hexadecimal_channel(green) && can_shorthand_hexadecimal_channel(blue) {
        match alpha {
            Some(a) => {
                if can_shorthand_hexadecimal_channel(a) {
                    red_str = shorthand_hexadecimal_channel(red, letter_case);
                    green_str = shorthand_hexadecimal_channel(green, letter_case);
                    blue_str = shorthand_hexadecimal_channel(blue, letter_case);
                    alpha_str_opt = Some(shorthand_hexadecimal_channel(a, letter_case));
                }
            },
            None => {
                red_str = shorthand_hexadecimal_channel(red, letter_case);
                green_str = shorthand_hexadecimal_channel(green, letter_case);
                blue_str = shorthand_hexadecimal_channel(blue, letter_case);
            },
        }
    }
    let ghost shorthand = uses_shorthand(red, green, blue, alpha, shorthand_notation);
    assert(red_str@ == hex_channel_text(red, shorthand, letter_case));
    assert(green_str@ == hex_channel_text(green, shorthand, letter_case));
    assert(blue_str@ == hex_channel_text(blue, shorthand, letter_case));

    let mut text: Vec<char> = Vec::new();
    text.push('#');
    assert(text@ =~= seq!['#']);
    text.append(&mut red_str);
    text.append(&mut green_str);
    text.append(&mut blue_str);
    match alpha_str_opt {
        Some(mut alpha_str) => {
            assert(alpha_str@ == hex_channel_text(alpha.unwrap(), shorthand, letter_case));
            text.append(&mut alpha_str);
        },
        None => {},
    }
    text
}

/// Creates a CSS-style hex color notation string for this color.
/// For details see the [CSS color specification](https://www.w3.org/TR/css-color-4/#hex-notation).
pub fn to_rgb_hex_str(
    color: &RGB,
    omit_alpha_channel: OmitAlphaChannel,
    shorthand_notation: ShorthandNotation,
    letter_case: LetterCase,
) -> (hex_str: String)
    ensures
        hex_str@ == hex_text(
            color.red,
            color.green,
            color.blue,
            printed_alpha(color.alpha, color.alpha == 255, omit_alpha_channel),
            shorthand_notation,
            letter_case,
        ),
{
    let alpha = if color.alpha == u8::MAX && omit_alpha_channel == OmitAlphaChannel::IfOpaque {
        None
    } else {
        Some(color.alpha)
    };
    let text = hex_chars(color.red, color.green, color.blue, alpha, shorthand_notation, letter_case);
    string_from_chars(&text)
}

impl RGB {
    /// Parses a CSS-style hex color notation string.
    /// For details see the [CSS color specification](https://www.w3.org/TR/css-color-4/#hex-notation).
    ///
    /// # Errors
    /// - `InvalidSyntax` if the '#' character at the start of the string is missing.
    /// - `InvalidSyntax` if the number of characters after it is not 3, 4, 6 or 8.
    /// - `NumberConversionFailed` if one of them is not a hexadecimal digit.
    pub fn from_hex_str(hex_str: &str) -> (result: Result<RGB, ParsingError>)
        ensures
            result == hex_str_color(hex_str@),
    {
        let total = hex_str.unicode_len();
        if total == 0 || hex_str.get_char(0) != '#' {
            return Err(ParsingError::InvalidSyntax("Missing '#'"));
        }
        let len = total - 1;
        let ghost digits = hex_str@.subrange(1, total as int);
        assert(forall|i: int| 0 <= i < len ==> digits[i] == hex_str@[i + 1]);
        match len {
            3 | 4 => {
                // In the shorthand notation, the hex digit is simply repeated, so e.g "F" becomes "FF".
                let red = parse_shorthand_hexadecimal_channel(hex_str.get_char(1))?;
                let green = parse_shorthand_hexadecimal_channel(hex_str.get_char(2))?;
                let blue = parse_shorthand_hexadecimal_channel(hex_str.get_char(3))?;
                let alpha = if len == 4 {
                    parse_shorthand_hexadecimal_channel(hex_str.get_char(4))?
                } else {
                    u8::MAX
                };
                assert(all_hex_digits(digits));
                Ok(RGB::from_rgba(red, green, blue, alpha))
            },
            6 | 8 => {
                let red = parse_hexadecimal_channel(hex_str.get_char(1), hex_str.get_char(2))?;
                let green = parse_hexadecimal_channel(hex_str.get_char(3), hex_str.get_char(4))?;
                let blue = parse_hexadecimal_channel(hex_str.get_char(5), hex_str.get_char(6))?;
                let alpha = if len == 8 {
                    parse_hexadecimal_channel(hex_str.get_char(7), hex_str.get_char(8))?
                } else {
                    u8::MAX
                };
                assert(all_hex_digits(digits));
                Ok(RGB::from_rgba(red, green, blue, alpha))
            },
            _ => Err(ParsingError::InvalidSyntax("Unexpected length")),
        }
    }

    /// Creates a CSS-style hex color notation string for this color.
    pub fn to_hex_str(
        &self,
        omit_alpha_channel: OmitAlphaChannel,
        shorthand_notation: ShorthandNotation,
        letter_case: LetterCase,
    ) -> (hex_str: String)
        ensures
            hex_str@ == hex_text(
                self.red,
                self.green,
                self.blue,
                printed_alpha(self.alpha, self.alpha == 255, omit_alpha_channel),
                shorthand_notation,
                letter_case,
            ),
    {
        to_rgb_hex_str(self, omit_alpha_channel, shorthand_notation, letter_case)
    }
}

impl Rgb {
    /// Parses a CSS-style hex color notation string.
    /// For details see the [CSS color specification](https://www.w3.org/TR/css-color-4/#hex-notation).
    ///
    /// # Errors
    /// - `InvalidSyntax` if the '#' character at the start of the string is missing.
    /// - `InvalidSyntax` if the number of characters after it is not 3, 4, 6 or 8.
    /// - `NumberConversionFailed` if one of them is not a hexadecimal digit.
    pub fn from_hex_str(hex_str: &str) -> (result: Result<Rgb, ParsingError>)
        ensures
            result == match hex_str_color(hex_str@) {
                Ok(bytes) => Ok::<Rgb, ParsingError>(Rgb::of_bytes(bytes)),
                Err(e) => Err(e),
            },
    {
        match RGB::from_hex_str(hex_str) {
            Ok(bytes) => Ok(Rgb::from_bytes(&bytes)),
            Err(e) => Err(e),
        }
    }

    /// Creates a CSS-style hex color notation string for this color.
    /// For details see the [CSS color specification](https://www.w3.org/TR/css-color-4/#hex-notation).
    ///
    /// Note that values more precise than the 8 bit supported for the hexadecimal notation will lose precision in the output.
    /// A RGB function string should be used instead for these. See [`channels_fit_in_u8`](#method.channels_fit_in_u8) for details.
    pub fn to_hex_str(
        &self,
        omit_alpha_channel: OmitAlphaChannel,
        shorthand_notation: ShorthandNotation,
        letter_case: LetterCase,
    ) -> (hex_str: String)
        ensures
            hex_str@ == hex_text(
                self.rounded_bytes().red,
                self.rounded_bytes().green,
                self.rounded_bytes().blue,
                printed_alpha(self.rounded_bytes().alpha, self.is_opaque(), omit_alpha_channel),
                shorthand_notation,
                letter_case,
            ),
    {
        let bytes = self.to_bytes_round();
        let alpha = if self.is_opaque() && omit_alpha_channel == OmitAlphaChannel::IfOpaque {
            None
        } else {
            Some(bytes.alpha)
        };
        let text = hex_chars(bytes.red, bytes.green, bytes.blue, alpha, shorthand_notation, letter_case);
        string_from_chars(&text)
    }
}

/// A hexadecimal digit stands for the number that it was made from, in either case.
pub proof fn lemma_hex_digit_value(value: u8, letter_case: LetterCase)
    requires
        value < 16,
    ensures
        hex_digit_value(hex_digit(value, letter_case)) == Some(value),
{
}

/// The hex notation of channels means these channels, and where no alpha channel
/// was printed, an opaque color.
pub proof fn lemma_hex_text_means_channels(
    red: u8,
    green: u8,
    blue: u8,
    alpha: Option<u8>,
    shorthand_notation: ShorthandNotation,
    letter_case: LetterCase,
)
    ensures
        hex_str_color(hex_text(red, green, blue, alpha, shorthand_notation, letter_case)) == Ok::<
            RGB,
            ParsingError,
        >(
            RGB {
                red,
                green,
                blue,
                alpha: match alpha {
                    Some(a) => a,
                    None => 255,
                },
            },
        ),
{
    let text = hex_text(red, green, blue, alpha, shorthand_notation, letter_case);
    let shorthand = uses_shorthand(red, green, blue, alpha, shorthand_notation);
    let digits = text.subrange(1, text.len() as int);
    let r1 = hex_digit(red / 16, letter_case);
    let r0 = hex_digit(red % 16, letter_case);
    let g1 = hex_digit(green / 16, letter_case);
    let g0 = hex_digit(green % 16, letter_case);
    let b1 = hex_digit(blue / 16, letter_case);
    let b0 = hex_digit(blue % 16, letter_case);
    lemma_hex_digit_value(red / 16, letter_case);
    lemma_hex_digit_value(red % 16, letter_case);
    lemma_hex_digit_value(green / 16, letter_case);
    lemma_hex_digit_value(green % 16, letter_case);
    lemma_hex_digit_value(blue / 16, letter_case);
    lemma_hex_digit_value(blue % 16, letter_case);
    match alpha {
        Some(a) => {
            let a1 = hex_digit(a / 16, letter_case);
            let a0 = hex_digit(a % 16, letter_case);
            lemma_hex_digit_value(a / 16, letter_case);
            lemma_hex_digit_value(a % 16, letter_case);
            if shorthand {
                assert(text =~= seq!['#', r0, g0, b0, a0]);
                assert(digits =~= seq![r0, g0, b0, a0]);
            } else {
                assert(text =~= seq!['#', r1, r0, g1, g0, b1, b0, a1, a0]);
                assert(digits =~= seq![r1, r0, g1, g0, b1, b0, a1, a0]);
            }
        },
        None => {
            if shorthand {
                assert(text =~= seq!['#', r0, g0, b0]);
                assert(digits =~= seq![r0, g0, b0]);
            } else {
                assert(text =~= seq!['#', r1, r0, g1, g0, b1, b0]);
                assert(digits =~= seq![r1, r0, g1, g0, b1, b0]);
            }
        },
    }
    assert(all_hex_digits(digits));
}

/// Round trip: parsing the hex notation of a color with single byte channels gives
/// that color, whichever options it was printed with.
pub proof fn lemma_hex_str_round_trip(
    color: RGB,
    omit_alpha_channel: OmitAlphaChannel,
    shorthand_notation: ShorthandNotation,
    letter_case: LetterCase,
)
    ensures
        hex_str_color(
            hex_text(
                color.red,
                color.green,
                color.blue,
                printed_alpha(color.alpha, color.alpha == 255, omit_alpha_channel),
                shorthand_notation,
                letter_case,
            ),
        ) == Ok::<RGB, ParsingError>(color),
{
    lemma_hex_text_means_channels(
        color.red,
        color.green,
        color.blue,
        printed_alpha(color.alpha, color.alpha == 255, omit_alpha_channel),
        shorthand_notation,
        letter_case,
    );
}

/// Round trip: parsing the hex notation of a color whose channels fit in a single
/// byte each gives that color, whichever options it was printed with.
pub proof fn lemma_rgb_hex_str_round_trip(
    color: Rgb,
    omit_alpha_channel: OmitAlphaChannel,
    shorthand_notation: ShorthandNotation,
    letter_case: LetterCase,
)
    requires
        color.red@ <= VALUE_MAX,
        color.green@ <= VALUE_MAX,
        color.blue@ <= VALUE_MAX,
        color.alpha@ <= VALUE_MAX,
        color.channels_fit_in_u8(),
    ensures
        hex_str_color(
            hex_text(
                color.rounded_bytes().red,
                color.rounded_bytes().green,
                color.rounded_bytes().blue,
                printed_alpha(color.rounded_bytes().alpha, color.is_opaque(), omit_alpha_channel),
                shorthand_notation,
                letter_case,
            ),
        ) matches Ok(bytes) && Rgb::of_bytes(bytes) == color,
{
    let bytes = color.rounded_bytes();
    lemma_hex_text_means_channels(
        bytes.red,
        bytes.green,
        bytes.blue,
        printed_alpha(bytes.alpha, color.is_opaque(), omit_alpha_channel),
        shorthand_notation,
        letter_case,
    );
    RgbChannel::lemma_with_value((bytes.red * BYTE_STEP) as nat);
    RgbChannel::lemma_with_value((bytes.green * BYTE_STEP) as nat);
    RgbChannel::lemma_with_value((bytes.blue * BYTE_STEP) as nat);
    RgbChannel::lemma_with_value((bytes.alpha * BYTE_STEP) as nat);
    let parsed = Rgb::of_bytes(bytes);
    parsed.red.lemma_same_value(color.red);
    parsed.green.lemma_same_value(color.green);
    parsed.blue.lemma_same_value(color.blue);
    parsed.alpha.lemma_same_value(color.alpha);
}

} // verus!
