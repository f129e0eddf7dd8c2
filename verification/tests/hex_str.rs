use color_utils::color::RGB;
use color_utils::error::ParsingError;
use color_utils::rgb::hex_str::{
    can_shorthand_hexadecimal_channel, format_hex, parse_hexadecimal_channel,
    parse_shorthand_hexadecimal_channel, shorthand_hexadecimal_channel, LetterCase,
    ShorthandNotation,
};
use color_utils::component::{FloatComponent, SingleByteComponent, VALUE_MAX};
use color_utils::rgb::{OmitAlphaChannel, Rgb, RgbChannel};

#[test]
fn hex_str_from_hex_str_errors_for_no_hash() {
    let result = RGB::from_hex_str("112233");

    assert!(result.is_err());
    assert!(matches!(result.err().unwrap(), ParsingError::InvalidSyntax(..)))
}

#[test]
fn hex_str_from_hex_str_invalid_chars() {
    let result = RGB::from_hex_str("#XX2233");

    assert!(result.is_err());
    assert!(matches!(result.err().unwrap(), ParsingError::NumberConversionFailed(..)))
}

#[test]
fn hex_str_from_hex_str_invalid_length() {
    let result_too_long = RGB::from_hex_str("#1111111111111111111111");
    assert!(result_too_long.is_err());
    assert!(matches!(result_too_long.err().unwrap(), ParsingError::InvalidSyntax(..)));

    let result_between_short_and_long = RGB::from_hex_str("#11223");
    assert!(result_between_short_and_long.is_err());
    assert!(matches!(
        result_between_short_and_long.err().unwrap(),
        ParsingError::InvalidSyntax(..)
    ));

    let result_between_too_short = RGB::from_hex_str("#11");
    assert!(result_between_too_short.is_err());
    assert!(matches!(result_between_too_short.err().unwrap(), ParsingError::InvalidSyntax(..)));
}

#[test]
fn hex_str_to_hex_str_omit_alpha_channel_opaque() {
    let color = RGB::from_hex_str("#11FF0AFF").unwrap();

    let hex_string = color.to_hex_str(
        OmitAlphaChannel::IfOpaque,
        ShorthandNotation::Never,
        LetterCase::Uppercase,
    );
    assert_eq!(hex_string, "#11FF0A");
}

#[test]
fn hex_str_to_hex_str_omit_alpha_channel_non_opaque() {
    let color = RGB::from_hex_str("#11FF0A99").unwrap();

    let hex_string = color.to_hex_str(
        OmitAlphaChannel::IfOpaque,
        ShorthandNotation::Never,
        LetterCase::Uppercase,
    );
    assert_eq!(hex_string, "#11FF0A99");
}

#[test]
fn hex_str_to_hex_str_omit_alpha_never() {
    let color = RGB::from_hex_str("#11FF0AFF").unwrap();

    let hex_string = color.to_hex_str(
        OmitAlphaChannel::Never,
        ShorthandNotation::Never,
        LetterCase::Uppercase,
    );
    assert_eq!(hex_string, "#11FF0AFF");
}

#[test]
fn hex_str_to_hex_str_shorthand_notation_possible() {
    let color = RGB::from_hex_str("#11FF00").unwrap();

    let hex_string = color.to_hex_str(
        OmitAlphaChannel::IfOpaque,
        ShorthandNotation::IfPossible,
        LetterCase::Uppercase,
    );
    assert_eq!(hex_string, "#1F0");
}

#[test]
fn hex_str_to_hex_str_shorthand_notation_not_possible() {
    let color = RGB::from_hex_str("#1BF701").unwrap();

    let hex_string = color.to_hex_str(
        OmitAlphaChannel::IfOpaque,
        ShorthandNotation::IfPossible,
        LetterCase::Uppercase,
    );
    assert_eq!(hex_string, "#1BF701");
}

#[test]
fn hex_str_to_hex_str_shorthand_notation_never() {
    let color = RGB::from_hex_str("#11FF00").unwrap();

    let hex_string = color.to_hex_str(
        OmitAlphaChannel::IfOpaque,
        ShorthandNotation::Never,
        LetterCase::Uppercase,
    );
    assert_eq!(hex_string, "#11FF00");
}

#[test]
fn hex_str_to_hex_str_shorthand_notation_possible_alpha() {
    let color = RGB::from_hex_str("#11FF0066").unwrap();

    let hex_string = color.to_hex_str(
        OmitAlphaChannel::IfOpaque,
        ShorthandNotation::IfPossible,
        LetterCase::Uppercase,
    );
    assert_eq!(hex_string, "#1F06");
}

#[test]
fn hex_str_to_hex_str_shorthand_notation_not_possible_alpha() {
    let color = RGB::from_hex_str("#11FF00AB").unwrap();

    let hex_string = color.to_hex_str(
        OmitAlphaChannel::IfOpaque,
        ShorthandNotation::IfPossible,
        LetterCase::Uppercase,
    );
    assert_eq!(hex_string, "#11FF00AB");
}

#[test]
fn hex_str_to_hex_str_uppercase() {
    let color = RGB::from_hex_str("#11FF0A").unwrap();

    let hex_string = color.to_hex_str(
        OmitAlphaChannel::IfOpaque,
        ShorthandNotation::Never,
        LetterCase::Uppercase,
    );
    assert_eq!(hex_string, "#11FF0A");
}

#[test]
fn hex_str_to_hex_str_lowercase() {
    let color = RGB::from_hex_str("#11FF0A").unwrap();

    let hex_string = color.to_hex_str(
        OmitAlphaChannel::IfOpaque,
        ShorthandNotation::Never,
        LetterCase::Lowercase,
    );
    assert_eq!(hex_string, "#11ff0a");
}

#[test]
fn to_hex_str_shorthand_where_only_the_omitted_alpha_allows_none() {
    // Alpha is opaque and omitted, so only red, green and blue decide.
    let color = RGB::from_rgba(0x11, 0xFF, 0x00, 0xFF);

    let hex_string = color.to_hex_str(
        OmitAlphaChannel::IfOpaque,
        ShorthandNotation::IfPossible,
        LetterCase::Lowercase,
    );
    assert_eq!(hex_string, "#1f0");
}

#[test]
fn to_hex_str_shorthand_with_alpha_that_is_printed() {
    let color = RGB::from_rgba(0x11, 0xFF, 0x00, 0xFF);

    let hex_string =
        color.to_hex_str(OmitAlphaChannel::Never, ShorthandNotation::IfPossible, LetterCase::Uppercase);
    assert_eq!(hex_string, "#1F0F");
}

#[test]
fn hex_str_round_trip_of_every_option() {
    let colors = [
        RGB::from_rgba(0, 0, 0, 0),
        RGB::from_rgba(0x11, 0x22, 0x33, 0x44),
        RGB::from_rgba(0x1B, 0xF7, 0x01, 0xFF),
        RGB::from_rgba(0xAB, 0xCD, 0xEF, 0x0F),
        RGB::from_rgb(255, 255, 255),
    ];
    for color in colors {
        for omit in [OmitAlphaChannel::Never, OmitAlphaChannel::IfOpaque] {
            for shorthand in [ShorthandNotation::Never, ShorthandNotation::IfPossible] {
                for letter_case in [LetterCase::Uppercase, LetterCase::Lowercase] {
                    let hex_string = color.to_hex_str(omit, shorthand, letter_case);
                    assert_eq!(RGB::from_hex_str(&hex_string).unwrap(), color);
                }
            }
        }
    }
}

#[test]
fn format_hex_pads_with_zero() {
    assert_eq!(format_hex(0x0A, LetterCase::Uppercase), vec!['0', 'A']);
    assert_eq!(format_hex(0xFE, LetterCase::Lowercase), vec!['f', 'e']);
    assert_eq!(format_hex(0, LetterCase::Lowercase), vec!['0', '0']);
}

#[test]
fn can_shorthand_hexadecimal_channel_compares_the_digits() {
    assert!(can_shorthand_hexadecimal_channel(0x11));
    assert!(can_shorthand_hexadecimal_channel(0x00));
    assert!(can_shorthand_hexadecimal_channel(0xFF));
    assert!(!can_shorthand_hexadecimal_channel(0x1B));
    assert!(!can_shorthand_hexadecimal_channel(0x01));
}

#[test]
fn shorthand_hexadecimal_channel_gives_one_digit() {
    assert_eq!(shorthand_hexadecimal_channel(0xAA, LetterCase::Uppercase), vec!['A']);
    assert_eq!(shorthand_hexadecimal_channel(0x33, LetterCase::Uppercase), vec!['3']);
}

#[test]
fn parse_hexadecimal_channels() {
    assert_eq!(parse_shorthand_hexadecimal_channel('F').unwrap(), 0xFF);
    assert_eq!(parse_shorthand_hexadecimal_channel('1').unwrap(), 0x11);
    assert!(parse_shorthand_hexadecimal_channel('g').is_err());
    assert_eq!(parse_hexadecimal_channel('0', 'a').unwrap(), 0x0A);
    assert_eq!(parse_hexadecimal_channel('D', '4').unwrap(), 0xD4);
    assert!(parse_hexadecimal_channel('D', ' ').is_err());
}

#[test]
fn hex_str_from_hex_str_short_notation() {
    let color = Rgb::from_hex_str("#1FA").unwrap();

    assert_eq!(color.red().to_u8_round(), u8::from_str_radix("11", 16).unwrap());
    assert_eq!(color.green().to_u8_round(), u8::from_str_radix("FF", 16).unwrap());
    assert_eq!(color.blue().to_u8_round(), u8::from_str_radix("AA", 16).unwrap());
    assert_eq!(color.alpha().to_u8_round(), 255);
}

#[test]
fn hex_str_from_hex_str_short_notation_alpha() {
    let color = Rgb::from_hex_str("#1FAD").unwrap();

    assert_eq!(color.red().to_u8_round(), u8::from_str_radix("11", 16).unwrap());
    assert_eq!(color.green().to_u8_round(), u8::from_str_radix("FF", 16).unwrap());
    assert_eq!(color.blue().to_u8_round(), u8::from_str_radix("AA", 16).unwrap());
    assert_eq!(color.alpha().to_u8_round(), u8::from_str_radix("DD", 16).unwrap());
}

#[test]
fn hex_str_from_hex_str_long_notation() {
    let color = Rgb::from_hex_str("#11FF0A").unwrap();

    assert_eq!(color.red().to_u8_round(), u8::from_str_radix("11", 16).unwrap());
    assert_eq!(color.green().to_u8_round(), u8::from_str_radix("FF", 16).unwrap());
    assert_eq!(color.blue().to_u8_round(), u8::from_str_radix("0A", 16).unwrap());
    assert_eq!(color.alpha().to_u8_round(), 255);
}

#[test]
fn hex_str_from_hex_str_long_notation_alpha() {
    let color = Rgb::from_hex_str("#11FF0AD4").unwrap();

    assert_eq!(color.red().to_u8_round(), u8::from_str_radix("11", 16).unwrap());
    assert_eq!(color.green().to_u8_round(), u8::from_str_radix("FF", 16).unwrap());
    assert_eq!(color.blue().to_u8_round(), u8::from_str_radix("0A", 16).unwrap());
    assert_eq!(color.alpha().to_u8_round(), u8::from_str_radix("D4", 16).unwrap());
}

#[test]
fn rgb_from_hex_str_gives_the_errors_of_the_bytes() {
    assert!(matches!(Rgb::from_hex_str("112233"), Err(ParsingError::InvalidSyntax(..))));
    assert!(matches!(Rgb::from_hex_str("#11223"), Err(ParsingError::InvalidSyntax(..))));
    assert!(matches!(
        Rgb::from_hex_str("#XX2233"),
        Err(ParsingError::NumberConversionFailed(..))
    ));
}

#[test]
fn rgb_hex_str_round_trip_where_the_channels_fit() {
    for color in [
        Rgb::from_bytes(&RGB::from_rgba(0x1B, 0xF7, 0x01, 0xFF)),
        Rgb::from_bytes(&RGB::from_rgba(0x11, 0x22, 0x33, 0x44)),
        Rgb::from_bytes(&RGB::from_rgba(0, 0, 0, 0)),
    ] {
        assert!(color.channels_fit_in_u8());
        let printed = color.to_hex_str(
            OmitAlphaChannel::IfOpaque,
            ShorthandNotation::IfPossible,
            LetterCase::Lowercase,
        );
        assert_eq!(Rgb::from_hex_str(&printed).unwrap(), color);
    }
}

#[test]
fn rgb_to_hex_str_rounds_up_and_prints_alpha_that_is_not_opaque() {
    let color = Rgb::from_channels_with_alpha(
        RgbChannel::from_value(1),
        RgbChannel::from_value(VALUE_MAX / 2),
        RgbChannel::from_value(0),
        RgbChannel::from_value(VALUE_MAX - 1),
    );

    let printed =
        color.to_hex_str(OmitAlphaChannel::IfOpaque, ShorthandNotation::Never, LetterCase::Uppercase);
    assert_eq!(printed, "#018000FF");
}
