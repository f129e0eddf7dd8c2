use color_utils::color::RGB;
use color_utils::component::{FloatComponent, SingleByteComponent, VALUE_MAX};
use color_utils::rgb::{Rgb, RgbChannel};

#[test]
fn rgb_is_opaque_false_for_transparent() {
    assert!(!Rgb::from_channels_with_alpha(
        RgbChannel::from_u8(128),
        RgbChannel::from_u8(64),
        RgbChannel::from_u8(0),
        RgbChannel::from_u8(254),
    )
    .is_opaque());

    assert!(!Rgb::from_channels_with_alpha(
        RgbChannel::from_u8(128),
        RgbChannel::from_u8(64),
        RgbChannel::from_u8(0),
        RgbChannel::from_u8(128),
    )
    .is_opaque());

    assert!(!Rgb::from_channels_with_alpha(
        RgbChannel::from_u8(128),
        RgbChannel::from_u8(64),
        RgbChannel::from_u8(0),
        RgbChannel::from_u8(0),
    )
    .is_opaque());
}

#[test]
fn rgb_is_opaque_true_for_opaque() {
    assert!(Rgb::from_channels(
        RgbChannel::from_u8(128),
        RgbChannel::from_u8(64),
        RgbChannel::from_u8(0),
    )
    .is_opaque());

    assert!(Rgb::from_channels_with_alpha(
        RgbChannel::from_u8(128),
        RgbChannel::from_u8(64),
        RgbChannel::from_u8(0),
        RgbChannel::from_u8(255),
    )
    .is_opaque());
}

#[test]
fn rgb_channels_fit_in_u8_true_if_all_fit() {
    assert!(Rgb::from_channels_with_alpha(
        RgbChannel::from_u8(128),
        RgbChannel::from_u8(64),
        RgbChannel::from_u8(0),
        RgbChannel::from_u8(0),
    )
    .channels_fit_in_u8());
}

#[test]
fn rgb_channels_fit_in_u8_false_if_not_all_fit() {
    assert!(!Rgb::from_channels_with_alpha(
        RgbChannel::from_value(VALUE_MAX),
        RgbChannel::from_value(VALUE_MAX),
        RgbChannel::from_value(VALUE_MAX),
        RgbChannel::from_value(VALUE_MAX / 100_000_000),
    )
    .channels_fit_in_u8());
}

#[test]
fn mod_is_opaque_false_for_transparent() {
    assert!(!Rgb::from_channels_with_alpha(
        RgbChannel::from_u8(128),
        RgbChannel::from_u8(64),
        RgbChannel::from_u8(0),
        RgbChannel::from_u8(254),
    )
    .is_opaque());

    assert!(!Rgb::from_channels_with_alpha(
        RgbChannel::from_u8(128),
        RgbChannel::from_u8(64),
        RgbChannel::from_u8(0),
        RgbChannel::from_u8(128),
    )
    .is_opaque());

    assert!(!Rgb::from_channels_with_alpha(
        RgbChannel::from_u8(128),
        RgbChannel::from_u8(64),
        RgbChannel::from_u8(0),
        RgbChannel::from_u8(0),
    )
    .is_opaque());
}

#[test]
fn mod_is_opaque_true_for_opaque() {
    assert!(Rgb::from_channels(
        RgbChannel::from_u8(128),
        RgbChannel::from_u8(64),
        RgbChannel::from_u8(0),
    )
    .is_opaque());

    assert!(Rgb::from_channels_with_alpha(
        RgbChannel::from_u8(128),
        RgbChannel::from_u8(64),
        RgbChannel::from_u8(0),
        RgbChannel::from_u8(255),
    )
    .is_opaque());
}

#[test]
fn mod_channels_fit_in_u8_true_if_all_fit() {
    assert!(Rgb::from_channels_with_alpha(
        RgbChannel::from_u8(128),
        RgbChannel::from_u8(64),
        RgbChannel::from_u8(0),
        RgbChannel::from_u8(0),
    )
    .channels_fit_in_u8());
}

#[test]
fn mod_channels_fit_in_u8_false_if_not_all_fit() {
    assert!(!Rgb::from_channels_with_alpha(
        RgbChannel::from_value(VALUE_MAX),
        RgbChannel::from_value(VALUE_MAX),
        RgbChannel::from_value(VALUE_MAX),
        RgbChannel::from_value(VALUE_MAX / 100_000_000),
    )
    .channels_fit_in_u8());
}

#[test]
fn util_is_opaque_false_for_transparent() {
    let color = Rgb::from_channels_with_alpha(
        RgbChannel::from_value(VALUE_MAX),
        RgbChannel::from_value(VALUE_MAX),
        RgbChannel::from_value(VALUE_MAX),
        RgbChannel::from_value(VALUE_MAX / 2),
    );

    assert!(!color.is_opaque());
}

#[test]
fn util_is_opaque_true_for_opaque() {
    let color = Rgb::from_channels_with_alpha(
        RgbChannel::from_value(VALUE_MAX),
        RgbChannel::from_value(VALUE_MAX),
        RgbChannel::from_value(VALUE_MAX),
        RgbChannel::from_value(VALUE_MAX),
    );

    assert!(color.is_opaque());
}

#[test]
fn is_opaque_is_exact() {
    let color = Rgb::from_channels_with_alpha(
        RgbChannel::from_u8(0),
        RgbChannel::from_u8(0),
        RgbChannel::from_u8(0),
        RgbChannel::from_value(VALUE_MAX - 1),
    );

    assert!(!color.is_opaque());
    assert_eq!(color.alpha().to_u8_round(), 255);
}

#[test]
fn getters_give_the_channels() {
    let color = Rgb::from_channels_with_alpha(
        RgbChannel::from_u8(1),
        RgbChannel::from_u8(2),
        RgbChannel::from_u8(3),
        RgbChannel::from_u8(4),
    );

    assert_eq!(*color.red(), RgbChannel::from_u8(1));
    assert_eq!(*color.green(), RgbChannel::from_u8(2));
    assert_eq!(*color.blue(), RgbChannel::from_u8(3));
    assert_eq!(*color.alpha(), RgbChannel::from_u8(4));
}

#[test]
fn from_bytes_and_back() {
    let bytes = RGB::from_rgba(18, 52, 86, 120);
    let color = Rgb::from_bytes(&bytes);

    assert!(color.channels_fit_in_u8());
    assert_eq!(color.to_bytes_round(), bytes);
    assert_eq!(color.red().value(), 180_000_000_000_000_000);
}

#[test]
fn to_bytes_round_rounds_up() {
    let color = Rgb::from_channels_with_alpha(
        RgbChannel::from_value(1),
        RgbChannel::from_value(10_000_000_000_000_000),
        RgbChannel::from_value(10_000_000_000_000_001),
        RgbChannel::from_value(0),
    );

    assert_eq!(color.to_bytes_round(), RGB::from_rgba(1, 1, 2, 0));
}
