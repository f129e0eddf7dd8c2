use color_utils::component::{FloatComponent, SingleByteComponent, VALUE_MAX};
use color_utils::error::ParsingError;
use color_utils::rgb::rgb_function_str::ChannelUnit;
use color_utils::rgb::{OmitAlphaChannel, Rgb, RgbChannel};

#[test]
fn rgb_function_str_from_rgb_str_invalid_syntax() {
    let result = Rgb::from_rgb_function_str("rgb(");

    assert!(result.is_err());
    assert!(matches!(
        result.err().unwrap(),
        ParsingError::InvalidSyntax(..)
    ));
}

#[test]
fn from_rgb_str_ignores_case() {
    let color = Rgb::from_rgb_function_str("rGB(0 255 128)").unwrap();

    assert_eq!(color.red().to_u8_round(), 0);
    assert_eq!(color.green().to_u8_round(), 255);
    assert_eq!(color.blue().to_u8_round(), 128);
    assert_eq!(color.alpha().to_u8_round(), 255);
}

#[test]
fn rgb_function_str_from_rgb_str_integer_above_range() {
    let color = Rgb::from_rgb_function_str("rgb(0 255 999)").unwrap();

    assert_eq!(color.red().to_u8_round(), 0);
    assert_eq!(color.green().to_u8_round(), 255);
    assert_eq!(color.blue().to_u8_round(), 255);
    assert_eq!(color.alpha().to_u8_round(), 255);
}

#[test]
fn rgb_function_str_from_rgb_str_integer_below_range() {
    let color = Rgb::from_rgb_function_str("rgb(0 255 -128)").unwrap();

    assert_eq!(color.red().to_u8_round(), 0);
    assert_eq!(color.green().to_u8_round(), 255);
    assert_eq!(color.blue().to_u8_round(), 0);
    assert_eq!(color.alpha().to_u8_round(), 255);
}

#[test]
fn rgb_function_str_from_rgb_str_integer() {
    let color = Rgb::from_rgb_function_str("rgb(0 255 128)").unwrap();

    assert_eq!(color.red().to_u8_round(), 0);
    assert_eq!(color.green().to_u8_round(), 255);
    assert_eq!(color.blue().to_u8_round(), 128);
    assert_eq!(color.alpha().to_u8_round(), 255);
}

#[test]
fn rgb_function_str_from_rgb_str_integer_decimal() {
    let color = Rgb::from_rgb_function_str("rgb(0 255 127.99)").unwrap();

    assert_eq!(color.red().to_u8_round(), 0);
    assert_eq!(color.green().to_u8_round(), 255);
    assert_eq!(color.blue().to_u8_round(), 128);
    assert_eq!(color.alpha().to_u8_round(), 255);
}

#[test]
fn rgb_function_str_from_rgb_str_integers_with_alpha_decimal_above_range() {
    let color = Rgb::from_rgb_function_str("rgb(0 255 128 / 1.5)").unwrap();

    assert_eq!(color.red().to_u8_round(), 0);
    assert_eq!(color.green().to_u8_round(), 255);
    assert_eq!(color.blue().to_u8_round(), 128);
    assert_eq!(color.alpha().to_u8_round(), 255);
}

#[test]
fn rgb_function_str_from_rgb_str_integers_with_alpha_decimal_below_range() {
    let color = Rgb::from_rgb_function_str("rgb(0 255 128 / -0.5)").unwrap();

    assert_eq!(color.red().to_u8_round(), 0);
    assert_eq!(color.green().to_u8_round(), 255);
    assert_eq!(color.blue().to_u8_round(), 128);
    assert_eq!(color.alpha().to_u8_round(), 0);
}

#[test]
fn rgb_function_str_from_rgb_str_integers_with_alpha_decimal() {
    let color = Rgb::from_rgb_function_str("rgb(0 255 128 / 0.5)").unwrap();

    assert_eq!(color.red().to_u8_round(), 0);
    assert_eq!(color.green().to_u8_round(), 255);
    assert_eq!(color.blue().to_u8_round(), 128);
    assert_eq!(color.alpha().to_u8_round(), 128);
}

#[test]
fn rgb_function_str_from_rgb_str_integers_with_alpha_percentage_above_range() {
    let color = Rgb::from_rgb_function_str("rgb(0 255 128 / 150%)").unwrap();

    assert_eq!(color.red().to_u8_round(), 0);
    assert_eq!(color.green().to_u8_round(), 255);
    assert_eq!(color.blue().to_u8_round(), 128);
    assert_eq!(color.alpha().to_u8_round(), 255);
}

#[test]
fn rgb_function_str_from_rgb_str_integers_with_alpha_percentage_below_range() {
    let color = Rgb::from_rgb_function_str("rgb(0 255 128 / -50%)").unwrap();

    assert_eq!(color.red().to_u8_round(), 0);
    assert_eq!(color.green().to_u8_round(), 255);
    assert_eq!(color.blue().to_u8_round(), 128);
    assert_eq!(color.alpha().to_u8_round(), 0);
}

#[test]
fn rgb_function_str_from_rgb_str_integers_with_alpha_percentage() {
    let color = Rgb::from_rgb_function_str("rgb(0 255 128 / 50%)").unwrap();

    assert_eq!(color.red().to_u8_round(), 0);
    assert_eq!(color.green().to_u8_round(), 255);
    assert_eq!(color.blue().to_u8_round(), 128);
    assert_eq!(color.alpha().to_u8_round(), 128);
}

#[test]
fn rgb_function_str_from_rgb_str_percentage_above_range() {
    let color = Rgb::from_rgb_function_str("rgb(0% 100% 150%)").unwrap();

    assert_eq!(color.red().to_u8_round(), 0);
    assert_eq!(color.green().to_u8_round(), 255);
    assert_eq!(color.blue().to_u8_round(), 255);
    assert_eq!(color.alpha().to_u8_round(), 255);
}

#[test]
fn rgb_function_str_from_rgb_str_percentage_below_range() {
    let color = Rgb::from_rgb_function_str("rgb(0% 100% -50%)").unwrap();

    assert_eq!(color.red().to_u8_round(), 0);
    assert_eq!(color.green().to_u8_round(), 255);
    assert_eq!(color.blue().to_u8_round(), 0);
    assert_eq!(color.alpha().to_u8_round(), 255);
}

#[test]
fn rgb_function_str_from_rgb_str_percentage() {
    let color = Rgb::from_rgb_function_str("rgb(0% 100% 50%)").unwrap();

    assert_eq!(color.red().to_u8_round(), 0);
    assert_eq!(color.green().to_u8_round(), 255);
    assert_eq!(color.blue().to_u8_round(), 128);
    assert_eq!(color.alpha().to_u8_round(), 255);
}

#[test]
fn rgb_function_str_from_rgb_str_percentage_decimal() {
    let color = Rgb::from_rgb_function_str("rgb(0% 100% 49.99%)").unwrap();

    assert_eq!(color.red().to_u8_round(), 0);
    assert_eq!(color.green().to_u8_round(), 255);
    assert_eq!(color.blue().to_u8_round(), 128);
    assert_eq!(color.alpha().to_u8_round(), 255);
}

#[test]
fn rgb_function_str_from_rgb_str_percentage_with_alpha_decimal() {
    let color = Rgb::from_rgb_function_str("rgb(0% 100% 50% / 0.5)").unwrap();

    assert_eq!(color.red().to_u8_round(), 0);
    assert_eq!(color.green().to_u8_round(), 255);
    assert_eq!(color.blue().to_u8_round(), 128);
    assert_eq!(color.alpha().to_u8_round(), 128);
}

#[test]
fn rgb_function_str_from_rgb_str_percentage_with_alpha_percentage() {
    let color = Rgb::from_rgb_function_str("rgb(0% 100% 50% / 50%)").unwrap();

    assert_eq!(color.red().to_u8_round(), 0);
    assert_eq!(color.green().to_u8_round(), 255);
    assert_eq!(color.blue().to_u8_round(), 128);
    assert_eq!(color.alpha().to_u8_round(), 128);
}

#[test]
fn rgb_function_str_from_rgb_str_disallow_number_mix() {
    let result = Rgb::from_rgb_function_str("rgb(255 100% 128)");

    assert!(result.is_err());
    assert!(matches!(
        result.err().unwrap(),
        ParsingError::InvalidSyntax(..)
    ));
}

#[test]
fn rgb_function_str_to_rgb_str_omit_alpha_channel_opaque() {
    let color = Rgb::from_channels(
        RgbChannel::from_u8(128),
        RgbChannel::from_u8(255),
        RgbChannel::from_u8(0),
    );

    let rgb_string = color.to_rgb_function_str(
        OmitAlphaChannel::IfOpaque,
        ChannelUnit::Number,
        ChannelUnit::Percentage,
    );
    assert_eq!(rgb_string, "rgb(128 255 0)");
}

#[test]
fn rgb_function_str_to_rgb_str_omit_alpha_channel_non_opaque() {
    let color = Rgb::from_channels_with_alpha(
        RgbChannel::from_u8(128),
        RgbChannel::from_u8(255),
        RgbChannel::from_u8(0),
        RgbChannel::from_u8(0),
    );

    let rgb_string = color.to_rgb_function_str(
        OmitAlphaChannel::IfOpaque,
        ChannelUnit::Number,
        ChannelUnit::Percentage,
    );
    assert_eq!(rgb_string, "rgb(128 255 0 / 0%)");
}

#[test]
fn rgb_function_str_to_rgb_str_omit_alpha_never() {
    let color = Rgb::from_channels(
        RgbChannel::from_u8(128),
        RgbChannel::from_u8(255),
        RgbChannel::from_u8(0),
    );

    let rgb_string = color.to_rgb_function_str(
        OmitAlphaChannel::Never,
        ChannelUnit::Number,
        ChannelUnit::Percentage,
    );
    assert_eq!(rgb_string, "rgb(128 255 0 / 100%)");
}

#[test]
fn rgb_function_str_to_rgb_str_number_color_channel() {
    let color = Rgb::from_channels(
        RgbChannel::from_u8(128),
        RgbChannel::from_u8(255),
        RgbChannel::from_u8(0),
    );

    let rgb_string = color.to_rgb_function_str(
        OmitAlphaChannel::IfOpaque,
        ChannelUnit::Number,
        ChannelUnit::Number,
    );
    assert_eq!(rgb_string, "rgb(128 255 0)");
}

#[test]
fn rgb_function_str_to_rgb_str_number_color_channel_decimals() {
    let red = RgbChannel::from_value(VALUE_MAX / 1000);
    let green = RgbChannel::from_value(VALUE_MAX / 10_000);
    let blue = RgbChannel::from_value(VALUE_MAX / 100_000);
    let color = Rgb::from_channels(red, green, blue);

    let rgb_string = color.to_rgb_function_str(
        OmitAlphaChannel::IfOpaque,
        ChannelUnit::Number,
        ChannelUnit::Number,
    );
    assert_eq!(rgb_string, "rgb(0.255 0.0255 0.00255)");
}

#[test]
fn rgb_function_str_to_rgb_str_percentage_color_channel() {
    let color = Rgb::from_channels(
        RgbChannel::from_u8(0),
        RgbChannel::from_u8(255),
        RgbChannel::from_u8(0),
    );

    let rgb_string = color.to_rgb_function_str(
        OmitAlphaChannel::IfOpaque,
        ChannelUnit::Percentage,
        ChannelUnit::Number,
    );
    assert_eq!(rgb_string, "rgb(0% 100% 0%)");
}

#[test]
fn rgb_function_str_to_rgb_str_percentage_color_channel_decimals() {
    let red = RgbChannel::from_value(VALUE_MAX / 1000);
    let green = RgbChannel::from_value(VALUE_MAX / 10_000);
    let blue = RgbChannel::from_value(VALUE_MAX / 100_000);
    let color = Rgb::from_channels(red, green, blue);

    let rgb_string = color.to_rgb_function_str(
        OmitAlphaChannel::IfOpaque,
        ChannelUnit::Percentage,
        ChannelUnit::Number,
    );
    assert_eq!(rgb_string, "rgb(0.1% 0.01% 0.001%)");
}

#[test]
fn rgb_function_str_to_rgb_str_number_alpha_channel() {
    let color = Rgb::from_channels_with_alpha(
        RgbChannel::from_u8(0),
        RgbChannel::from_u8(255),
        RgbChannel::from_u8(0),
        RgbChannel::from_u8(255),
    );

    let rgb_string = color.to_rgb_function_str(
        OmitAlphaChannel::Never,
        ChannelUnit::Percentage,
        ChannelUnit::Number,
    );
    assert_eq!(rgb_string, "rgb(0% 100% 0% / 1)");
}

#[test]
fn rgb_function_str_to_rgb_str_percentage_alpha_channel() {
    let color = Rgb::from_channels_with_alpha(
        RgbChannel::from_u8(0),
        RgbChannel::from_u8(255),
        RgbChannel::from_u8(0),
        RgbChannel::from_u8(255),
    );

    let rgb_string = color.to_rgb_function_str(
        OmitAlphaChannel::Never,
        ChannelUnit::Percentage,
        ChannelUnit::Percentage,
    );
    assert_eq!(rgb_string, "rgb(0% 100% 0% / 100%)");
}
