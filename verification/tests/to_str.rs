use color_utils::color::RGB;
use color_utils::component::{FloatComponent, VALUE_MAX};
use color_utils::rgb::hex_str::{to_rgb_hex_str, LetterCase, ShorthandNotation};
use color_utils::rgb::rgb_function_str::ChannelUnit;
use color_utils::rgb::{OmitAlphaChannel, Rgb, RgbChannel};

#[test]
fn to_rgb_hex_str_omit_alpha_channel_opaque() {
    let color = RGB::from_rgba(0x11, 0xff, 0x0a, 0xff);

    let result = to_rgb_hex_str(
        &color,
        OmitAlphaChannel::IfOpaque,
        ShorthandNotation::Never,
        LetterCase::Uppercase,
    );
    assert_eq!(result, "#11FF0A");
}

#[test]
fn to_rgb_hex_str_omit_alpha_channel_non_opaque() {
    let color = RGB::from_rgba(0x11, 0xff, 0x0a, 0x99);

    let result = to_rgb_hex_str(
        &color,
        OmitAlphaChannel::IfOpaque,
        ShorthandNotation::Never,
        LetterCase::Uppercase,
    );
    assert_eq!(result, "#11FF0A99");
}

#[test]
fn to_rgb_hex_str_omit_alpha_never() {
    let color = RGB::from_rgba(0x11, 0xff, 0x0a, 0xff);

    let result = to_rgb_hex_str(
        &color,
        OmitAlphaChannel::Never,
        ShorthandNotation::Never,
        LetterCase::Uppercase,
    );
    assert_eq!(result, "#11FF0AFF");
}

#[test]
fn to_rgb_hex_str_shorthand_notation_possible() {
    let color = RGB::from_rgba(0x11, 0xff, 0x00, 0xff);

    let result = to_rgb_hex_str(
        &color,
        OmitAlphaChannel::IfOpaque,
        ShorthandNotation::IfPossible,
        LetterCase::Uppercase,
    );
    assert_eq!(result, "#1F0");
}

#[test]
fn to_rgb_hex_str_shorthand_notation_not_possible() {
    let color = RGB::from_rgba(0x1b, 0xf7, 0x01, 0xff);

    let result = to_rgb_hex_str(
        &color,
        OmitAlphaChannel::IfOpaque,
        ShorthandNotation::IfPossible,
        LetterCase::Uppercase,
    );
    assert_eq!(result, "#1BF701");
}

#[test]
fn to_rgb_hex_str_shorthand_notation_never() {
    let color = RGB::from_rgba(0x11, 0xff, 0x00, 0xff);

    let result = to_rgb_hex_str(
        &color,
        OmitAlphaChannel::IfOpaque,
        ShorthandNotation::Never,
        LetterCase::Uppercase,
    );
    assert_eq!(result, "#11FF00");
}

#[test]
fn to_rgb_hex_str_shorthand_notation_possible_alpha() {
    let color = RGB::from_rgba(0x11, 0xff, 0x00, 0x66);

    let result = to_rgb_hex_str(
        &color,
        OmitAlphaChannel::IfOpaque,
        ShorthandNotation::IfPossible,
        LetterCase::Uppercase,
    );
    assert_eq!(result, "#1F06");
}

#[test]
fn to_rgb_hex_str_shorthand_notation_not_possible_alpha() {
    let color = RGB::from_rgba(0x11, 0xff, 0x00, 0xab);

    let result = to_rgb_hex_str(
        &color,
        OmitAlphaChannel::IfOpaque,
        ShorthandNotation::IfPossible,
        LetterCase::Uppercase,
    );
    assert_eq!(result, "#11FF00AB");
}

#[test]
fn to_rgb_hex_str_uppercase() {
    let color = RGB::from_rgba(0x11, 0xff, 0x0a, 0xff);

    let result = to_rgb_hex_str(
        &color,
        OmitAlphaChannel::IfOpaque,
        ShorthandNotation::Never,
        LetterCase::Uppercase,
    );
    assert_eq!(result, "#11FF0A");
}

#[test]
fn to_rgb_hex_str_lowercase() {
    let color = RGB::from_rgba(0x11, 0xff, 0x0a, 0xff);

    let result = to_rgb_hex_str(
        &color,
        OmitAlphaChannel::IfOpaque,
        ShorthandNotation::Never,
        LetterCase::Lowercase,
    );
    assert_eq!(result, "#11ff0a");
}

#[test]
fn hex_to_hex_str_omit_alpha_channel_opaque() {
    let color = Rgb::from_bytes(&RGB::from_rgba(0x11, 0xff, 0x0a, 0xff));

    let hex_string = color.to_hex_str(
        OmitAlphaChannel::IfOpaque,
        ShorthandNotation::Never,
        LetterCase::Uppercase,
    );
    assert_eq!(hex_string, "#11FF0A");
}

#[test]
fn hex_to_hex_str_omit_alpha_channel_non_opaque() {
    let color = Rgb::from_bytes(&RGB::from_rgba(0x11, 0xff, 0x0a, 0x99));

    let hex_string = color.to_hex_str(
        OmitAlphaChannel::IfOpaque,
        ShorthandNotation::Never,
        LetterCase::Uppercase,
    );
    assert_eq!(hex_string, "#11FF0A99");
}

#[test]
fn hex_to_hex_str_omit_alpha_never() {
    let color = Rgb::from_bytes(&RGB::from_rgba(0x11, 0xff, 0x0a, 0xff));

    let hex_string = color.to_hex_str(
        OmitAlphaChannel::Never,
        ShorthandNotation::Never,
        LetterCase::Uppercase,
    );
    assert_eq!(hex_string, "#11FF0AFF");
}

#[test]
fn hex_to_hex_str_shorthand_notation_possible() {
    let color = Rgb::from_bytes(&RGB::from_rgba(0x11, 0xff, 0x00, 0xff));

    let hex_string = color.to_hex_str(
        OmitAlphaChannel::IfOpaque,
        ShorthandNotation::IfPossible,
        LetterCase::Uppercase,
    );
    assert_eq!(hex_string, "#1F0");
}

#[test]
fn hex_to_hex_str_shorthand_notation_not_possible() {
    let color = Rgb::from_bytes(&RGB::from_rgba(0x1b, 0xf7, 0x01, 0xff));

    let hex_string = color.to_hex_str(
        OmitAlphaChannel::IfOpaque,
        ShorthandNotation::IfPossible,
        LetterCase::Uppercase,
    );
    assert_eq!(hex_string, "#1BF701");
}

#[test]
fn hex_to_hex_str_shorthand_notation_never() {
    let color = Rgb::from_bytes(&RGB::from_rgba(0x11, 0xff, 0x00, 0xff));

    let hex_string = color.to_hex_str(
        OmitAlphaChannel::IfOpaque,
        ShorthandNotation::Never,
        LetterCase::Uppercase,
    );
    assert_eq!(hex_string, "#11FF00");
}

#[test]
fn hex_to_hex_str_shorthand_notation_possible_alpha() {
    let color = Rgb::from_bytes(&RGB::from_rgba(0x11, 0xff, 0x00, 0x66));

    let hex_string = color.to_hex_str(
        OmitAlphaChannel::IfOpaque,
        ShorthandNotation::IfPossible,
        LetterCase::Uppercase,
    );
    assert_eq!(hex_string, "#1F06");
}

#[test]
fn hex_to_hex_str_shorthand_notation_not_possible_alpha() {
    let color = Rgb::from_bytes(&RGB::from_rgba(0x11, 0xff, 0x00, 0xab));

    let hex_string = color.to_hex_str(
        OmitAlphaChannel::IfOpaque,
        ShorthandNotation::IfPossible,
        LetterCase::Uppercase,
    );
    assert_eq!(hex_string, "#11FF00AB");
}

#[test]
fn hex_to_hex_str_uppercase() {
    let color = Rgb::from_bytes(&RGB::from_rgba(0x11, 0xff, 0x0a, 0xff));

    let hex_string = color.to_hex_str(
        OmitAlphaChannel::IfOpaque,
        ShorthandNotation::Never,
        LetterCase::Uppercase,
    );
    assert_eq!(hex_string, "#11FF0A");
}

#[test]
fn hex_to_hex_str_lowercase() {
    let color = Rgb::from_bytes(&RGB::from_rgba(0x11, 0xff, 0x0a, 0xff));

    let hex_string = color.to_hex_str(
        OmitAlphaChannel::IfOpaque,
        ShorthandNotation::Never,
        LetterCase::Lowercase,
    );
    assert_eq!(hex_string, "#11ff0a");
}

#[test]
fn to_str_to_hex_str_omit_alpha_channel_opaque() {
    let color = Rgb::from_bytes(&RGB::from_rgba(0x11, 0xff, 0x0a, 0xff));

    let hex_string = color.to_hex_str(
        OmitAlphaChannel::IfOpaque,
        ShorthandNotation::Never,
        LetterCase::Uppercase,
    );
    assert_eq!(hex_string, "#11FF0A");
}

#[test]
fn to_str_to_hex_str_omit_alpha_channel_non_opaque() {
    let color = Rgb::from_bytes(&RGB::from_rgba(0x11, 0xff, 0x0a, 0x99));

    let hex_string = color.to_hex_str(
        OmitAlphaChannel::IfOpaque,
        ShorthandNotation::Never,
        LetterCase::Uppercase,
    );
    assert_eq!(hex_string, "#11FF0A99");
}

#[test]
fn to_str_to_hex_str_omit_alpha_never() {
    let color = Rgb::from_bytes(&RGB::from_rgba(0x11, 0xff, 0x0a, 0xff));

    let hex_string = color.to_hex_str(
        OmitAlphaChannel::Never,
        ShorthandNotation::Never,
        LetterCase::Uppercase,
    );
    assert_eq!(hex_string, "#11FF0AFF");
}

#[test]
fn to_str_to_hex_str_shorthand_notation_possible() {
    let color = Rgb::from_bytes(&RGB::from_rgba(0x11, 0xff, 0x00, 0xff));

    let hex_string = color.to_hex_str(
        OmitAlphaChannel::IfOpaque,
        ShorthandNotation::IfPossible,
        LetterCase::Uppercase,
    );
    assert_eq!(hex_string, "#1F0");
}

#[test]
fn to_str_to_hex_str_shorthand_notation_not_possible() {
    let color = Rgb::from_bytes(&RGB::from_rgba(0x1b, 0xf7, 0x01, 0xff));

    let hex_string = color.to_hex_str(
        OmitAlphaChannel::IfOpaque,
        ShorthandNotation::IfPossible,
        LetterCase::Uppercase,
    );
    assert_eq!(hex_string, "#1BF701");
}

#[test]
fn to_str_to_hex_str_shorthand_notation_never() {
    let color = Rgb::from_bytes(&RGB::from_rgba(0x11, 0xff, 0x00, 0xff));

    let hex_string = color.to_hex_str(
        OmitAlphaChannel::IfOpaque,
        ShorthandNotation::Never,
        LetterCase::Uppercase,
    );
    assert_eq!(hex_string, "#11FF00");
}

#[test]
fn to_str_to_hex_str_shorthand_notation_possible_alpha() {
    let color = Rgb::from_bytes(&RGB::from_rgba(0x11, 0xff, 0x00, 0x66));

    let hex_string = color.to_hex_str(
        OmitAlphaChannel::IfOpaque,
        ShorthandNotation::IfPossible,
        LetterCase::Uppercase,
    );
    assert_eq!(hex_string, "#1F06");
}

#[test]
fn to_str_to_hex_str_shorthand_notation_not_possible_alpha() {
    let color = Rgb::from_bytes(&RGB::from_rgba(0x11, 0xff, 0x00, 0xab));

    let hex_string = color.to_hex_str(
        OmitAlphaChannel::IfOpaque,
        ShorthandNotation::IfPossible,
        LetterCase::Uppercase,
    );
    assert_eq!(hex_string, "#11FF00AB");
}

#[test]
fn to_str_to_hex_str_uppercase() {
    let color = Rgb::from_bytes(&RGB::from_rgba(0x11, 0xff, 0x0a, 0xff));

    let hex_string = color.to_hex_str(
        OmitAlphaChannel::IfOpaque,
        ShorthandNotation::Never,
        LetterCase::Uppercase,
    );
    assert_eq!(hex_string, "#11FF0A");
}

#[test]
fn to_str_to_hex_str_lowercase() {
    let color = Rgb::from_bytes(&RGB::from_rgba(0x11, 0xff, 0x0a, 0xff));

    let hex_string = color.to_hex_str(
        OmitAlphaChannel::IfOpaque,
        ShorthandNotation::Never,
        LetterCase::Lowercase,
    );
    assert_eq!(hex_string, "#11ff0a");
}

#[test]
fn to_str_to_rgb_str_omit_alpha_channel_opaque() {
    let color = Rgb::from_bytes(&RGB::from_rgba(128, 255, 0, 255));

    let rgb_string = color.to_rgb_function_str(
        OmitAlphaChannel::IfOpaque,
        ChannelUnit::Number,
        ChannelUnit::Percentage,
    );
    assert_eq!(rgb_string, "rgb(128 255 0)");
}

#[test]
fn to_str_to_rgb_str_omit_alpha_channel_non_opaque() {
    let color = Rgb::from_bytes(&RGB::from_rgba(128, 255, 0, 0));

    let rgb_string = color.to_rgb_function_str(
        OmitAlphaChannel::IfOpaque,
        ChannelUnit::Number,
        ChannelUnit::Percentage,
    );
    assert_eq!(rgb_string, "rgb(128 255 0 / 0%)");
}

#[test]
fn to_str_to_rgb_str_omit_alpha_never() {
    let color = Rgb::from_bytes(&RGB::from_rgba(128, 255, 0, 255));

    let rgb_string = color.to_rgb_function_str(
        OmitAlphaChannel::Never,
        ChannelUnit::Number,
        ChannelUnit::Percentage,
    );
    assert_eq!(rgb_string, "rgb(128 255 0 / 100%)");
}

#[test]
fn to_str_to_rgb_str_number_color_channel() {
    let color = Rgb::from_bytes(&RGB::from_rgba(128, 255, 0, 255));

    let rgb_string = color.to_rgb_function_str(
        OmitAlphaChannel::IfOpaque,
        ChannelUnit::Number,
        ChannelUnit::Number,
    );
    assert_eq!(rgb_string, "rgb(128 255 0)");
}

#[test]
fn to_str_to_rgb_str_percentage_color_channel() {
    let color = Rgb::from_bytes(&RGB::from_rgba(0, 255, 0, 255));

    let rgb_string = color.to_rgb_function_str(
        OmitAlphaChannel::IfOpaque,
        ChannelUnit::Percentage,
        ChannelUnit::Number,
    );
    assert_eq!(rgb_string, "rgb(0% 100% 0%)");
}

#[test]
fn to_str_to_rgb_str_percentage_color_channel_decimals() {
    let color = Rgb::from_channels(
        RgbChannel::from_value(VALUE_MAX / 200),
        RgbChannel::from_value(VALUE_MAX),
        RgbChannel::from_value(0),
    );

    let rgb_string = color.to_rgb_function_str(
        OmitAlphaChannel::IfOpaque,
        ChannelUnit::Percentage,
        ChannelUnit::Number,
    );
    assert_eq!(rgb_string, "rgb(0.5% 100% 0%)");
}

#[test]
fn to_str_to_rgb_str_number_alpha_channel() {
    let color = Rgb::from_bytes(&RGB::from_rgba(0, 255, 0, 255));

    let rgb_string = color.to_rgb_function_str(
        OmitAlphaChannel::Never,
        ChannelUnit::Percentage,
        ChannelUnit::Number,
    );
    assert_eq!(rgb_string, "rgb(0% 100% 0% / 1)");
}

#[test]
fn to_str_to_rgb_str_percentage_alpha_channel() {
    let color = Rgb::from_bytes(&RGB::from_rgba(0, 255, 0, 255));

    let rgb_string = color.to_rgb_function_str(
        OmitAlphaChannel::Never,
        ChannelUnit::Percentage,
        ChannelUnit::Percentage,
    );
    assert_eq!(rgb_string, "rgb(0% 100% 0% / 100%)");
}

#[test]
fn to_rgb_function_str_omit_alpha_channel_opaque() {
    let color = Rgb::from_bytes(&RGB::from_rgba(128, 255, 0, 255));

    let result = color.to_rgb_function_str(
        OmitAlphaChannel::IfOpaque,
        ChannelUnit::Number,
        ChannelUnit::Percentage,
    );
    assert_eq!(result, "rgb(128 255 0)");
}

#[test]
fn to_rgb_function_str_omit_alpha_channel_non_opaque() {
    let color = Rgb::from_bytes(&RGB::from_rgba(128, 255, 0, 0));

    let result = color.to_rgb_function_str(
        OmitAlphaChannel::IfOpaque,
        ChannelUnit::Number,
        ChannelUnit::Percentage,
    );
    assert_eq!(result, "rgb(128 255 0 / 0%)");
}

#[test]
fn to_rgb_function_str_omit_alpha_never() {
    let color = Rgb::from_bytes(&RGB::from_rgba(128, 255, 0, 255));

    let result = color.to_rgb_function_str(
        OmitAlphaChannel::Never,
        ChannelUnit::Number,
        ChannelUnit::Percentage,
    );
    assert_eq!(result, "rgb(128 255 0 / 100%)");
}

#[test]
fn to_rgb_function_str_number_color_channel() {
    let color = Rgb::from_bytes(&RGB::from_rgba(128, 255, 0, 255));

    let result = color.to_rgb_function_str(
        OmitAlphaChannel::IfOpaque,
        ChannelUnit::Number,
        ChannelUnit::Number,
    );
    assert_eq!(result, "rgb(128 255 0)");
}

#[test]
fn to_rgb_function_str_percentage_color_channel() {
    let color = Rgb::from_bytes(&RGB::from_rgba(0, 255, 0, 255));

    let result = color.to_rgb_function_str(
        OmitAlphaChannel::IfOpaque,
        ChannelUnit::Percentage,
        ChannelUnit::Number,
    );
    assert_eq!(result, "rgb(0% 100% 0%)");
}

#[test]
fn to_rgb_function_str_percentage_color_channel_decimals() {
    let color = Rgb::from_channels(
        RgbChannel::from_value(VALUE_MAX / 200),
        RgbChannel::from_value(VALUE_MAX),
        RgbChannel::from_value(0),
    );

    let result = color.to_rgb_function_str(
        OmitAlphaChannel::IfOpaque,
        ChannelUnit::Percentage,
        ChannelUnit::Number,
    );
    assert_eq!(result, "rgb(0.5% 100% 0%)");
}

#[test]
fn to_rgb_function_str_number_alpha_channel() {
    let color = Rgb::from_bytes(&RGB::from_rgba(0, 255, 0, 255));

    let result = color.to_rgb_function_str(
        OmitAlphaChannel::Never,
        ChannelUnit::Percentage,
        ChannelUnit::Number,
    );
    assert_eq!(result, "rgb(0% 100% 0% / 1)");
}

#[test]
fn to_rgb_function_str_percentage_alpha_channel() {
    let color = Rgb::from_bytes(&RGB::from_rgba(0, 255, 0, 255));

    let result = color.to_rgb_function_str(
        OmitAlphaChannel::Never,
        ChannelUnit::Percentage,
        ChannelUnit::Percentage,
    );
    assert_eq!(result, "rgb(0% 100% 0% / 100%)");
}
