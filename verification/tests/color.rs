use color_utils::color::RGB;
use color_utils::error::{NumberError, ParsingErrorKind};

#[test]
fn color_from_hex_str_errors_for_no_hash() {
    let result = RGB::from_hex_str("112233");

    assert!(result.is_err());
    assert_eq!(
        result.err().unwrap().kind(),
        ParsingErrorKind::InvalidSyntax { details: "Missing '#'" }
    );
}

#[test]
fn color_from_hex_str_invalid_chars() {
    let result = RGB::from_hex_str("#XX2233");

    assert!(result.is_err());
    assert!(matches!(
        result.err().unwrap().kind(),
        ParsingErrorKind::ConversionFailed { .. }
    ));
}

#[test]
fn color_from_hex_str_invalid_length() {
    let result_too_long = RGB::from_hex_str("#1111111111111111111111");
    assert!(result_too_long.is_err());
    assert_eq!(
        result_too_long.err().unwrap().kind(),
        ParsingErrorKind::InvalidSyntax { details: "Unexpected length" }
    );

    let result_between_short_and_long = RGB::from_hex_str("#11223");
    assert!(result_between_short_and_long.is_err());
    assert_eq!(
        result_between_short_and_long.err().unwrap().kind(),
        ParsingErrorKind::InvalidSyntax { details: "Unexpected length" }
    );

    let result_between_too_short = RGB::from_hex_str("#11");
    assert!(result_between_too_short.is_err());
    assert_eq!(
        result_between_too_short.err().unwrap().kind(),
        ParsingErrorKind::InvalidSyntax { details: "Unexpected length" }
    );
}

#[test]
fn color_from_hex_str_short_notation() {
    let color = RGB::from_hex_str("#1FA").unwrap();

    assert_eq!(color.red(), u8::from_str_radix("11", 16).unwrap());
    assert_eq!(color.green(), u8::from_str_radix("FF", 16).unwrap());
    assert_eq!(color.blue(), u8::from_str_radix("AA", 16).unwrap());
    assert_eq!(color.alpha(), u8::MAX);
}

#[test]
fn color_from_hex_str_short_notation_alpha() {
    let color = RGB::from_hex_str("#1FAD").unwrap();

    assert_eq!(color.red(), u8::from_str_radix("11", 16).unwrap());
    assert_eq!(color.green(), u8::from_str_radix("FF", 16).unwrap());
    assert_eq!(color.blue(), u8::from_str_radix("AA", 16).unwrap());
    assert_eq!(color.alpha(), u8::from_str_radix("DD", 16).unwrap());
}

#[test]
fn color_from_hex_str_long_notation() {
    let color = RGB::from_hex_str("#11FF0A").unwrap();

    assert_eq!(color.red(), u8::from_str_radix("11", 16).unwrap());
    assert_eq!(color.green(), u8::from_str_radix("FF", 16).unwrap());
    assert_eq!(color.blue(), u8::from_str_radix("0A", 16).unwrap());
    assert_eq!(color.alpha(), u8::MAX);
}

#[test]
fn color_from_hex_str_long_notation_alpha() {
    let color = RGB::from_hex_str("#11FF0AD4").unwrap();

    assert_eq!(color.red(), u8::from_str_radix("11", 16).unwrap());
    assert_eq!(color.green(), u8::from_str_radix("FF", 16).unwrap());
    assert_eq!(color.blue(), u8::from_str_radix("0A", 16).unwrap());
    assert_eq!(color.alpha(), u8::from_str_radix("D4", 16).unwrap());
}

#[test]
fn from_rgba_keeps_each_channel() {
    let color = RGB::from_rgba(1, 2, 3, 4);

    assert_eq!(color.red(), 1);
    assert_eq!(color.green(), 2);
    assert_eq!(color.blue(), 3);
    assert_eq!(color.alpha(), 4);
    assert_eq!(color, RGB { red: 1, green: 2, blue: 3, alpha: 4 });
}

#[test]
fn from_rgb_is_opaque() {
    let color = RGB::from_rgb(1, 2, 3);

    assert_eq!(color, RGB::from_rgba(1, 2, 3, 255));
}

#[test]
fn from_hex_str_lowercase_digits() {
    let color = RGB::from_hex_str("#abcdef").unwrap();

    assert_eq!(color, RGB::from_rgb(0xAB, 0xCD, 0xEF));
}

#[test]
fn from_hex_str_empty() {
    let result = RGB::from_hex_str("");

    assert_eq!(
        result.err().unwrap().kind(),
        ParsingErrorKind::InvalidSyntax { details: "Missing '#'" }
    );
}

#[test]
fn from_hex_str_sign_is_no_digit() {
    let result = RGB::from_hex_str("#+F+F+F");

    assert_eq!(
        result.err().unwrap().kind(),
        ParsingErrorKind::ConversionFailed { cause: NumberError::InvalidDigit }
    );
}

#[test]
fn from_hex_str_counts_characters() {
    let result = RGB::from_hex_str("#\u{e9}12");

    assert_eq!(
        result.err().unwrap().kind(),
        ParsingErrorKind::ConversionFailed { cause: NumberError::InvalidDigit }
    );
}

#[test]
fn from_hex_str_length_is_told_before_digits() {
    let result = RGB::from_hex_str("#XX223");

    assert_eq!(
        result.err().unwrap().kind(),
        ParsingErrorKind::InvalidSyntax { details: "Unexpected length" }
    );
}
