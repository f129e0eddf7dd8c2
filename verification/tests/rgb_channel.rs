use color_utils::component::{FloatComponent, SingleByteComponent, BYTE_STEP, VALUE_MAX};
use color_utils::rgb::RgbChannel;

#[test]
fn rgb_channel_with_val_creates_with_val() {
    let value = VALUE_MAX;
    let channel = RgbChannel::from_value(value);

    assert_eq!(channel.value(), value);
}

#[test]
fn rgb_channel_from_u8_converts_to_float() {
    let val: u8 = 255;
    let channel = RgbChannel::from_u8(val);

    assert_eq!(channel.value(), VALUE_MAX);
}

#[test]
fn rgb_channel_to_u8_converts_from_float() {
    let channel = RgbChannel::from_value(VALUE_MAX);

    assert_eq!(channel.to_u8().unwrap(), 255);
}

#[test]
fn rgb_channel_fits_in_u8_false_if_too_precise() {
    let channel = RgbChannel::from_value(VALUE_MAX / 10_000_000_000);

    assert!(!channel.fits_in_u8());
}

#[test]
fn rgb_channel_fits_in_u8_false_if_fitting() {
    let channel = RgbChannel::from_value(VALUE_MAX);

    assert!(channel.fits_in_u8());
}

#[test]
fn to_u8_round_converts_from_float() {
    let channel = RgbChannel::from_value(VALUE_MAX);

    assert_eq!(channel.to_u8_round(), 255);
}

#[test]
fn to_u8_round_rounds() {
    let channel = RgbChannel::from_value(VALUE_MAX / 10_000);

    assert_eq!(channel.to_u8_round(), 1);
}

#[test]
fn to_u8_round_errors_out_of_range() {
    let channel = RgbChannel::from_value(VALUE_MAX / 10_000);

    assert!(channel.to_u8().is_err());
}

#[test]
fn from_u8_maps_onto_the_range() {
    assert_eq!(RgbChannel::from_u8(0).value(), 0);
    assert_eq!(RgbChannel::from_u8(1).value(), BYTE_STEP);
    assert_eq!(RgbChannel::from_u8(51).value(), VALUE_MAX / 5);
    assert_eq!(RgbChannel::from_u8(255).value(), VALUE_MAX);
}

#[test]
fn from_u8_and_back_for_every_byte() {
    for byte in 0..=255u8 {
        let channel = RgbChannel::from_u8(byte);
        assert!(channel.fits_in_u8());
        assert_eq!(channel.to_u8().unwrap(), byte);
        assert_eq!(channel.to_u8_round(), byte);
    }
}

#[test]
fn a_third_cut_to_sixteen_places_is_not_byte_exact() {
    // 0.3333333333333333
    let channel = RgbChannel::from_value(255 * 3_333_333_333_333_333);

    assert!(!channel.fits_in_u8());
    assert!(channel.to_u8().is_err());
    assert_eq!(channel.to_u8_round(), 85);
}

#[test]
fn a_third_is_byte_exact() {
    let channel = RgbChannel::from_value(VALUE_MAX / 3);

    assert_eq!(channel.to_u8().unwrap(), 85);
}

#[test]
fn to_u8_round_rounds_towards_positive_infinity() {
    assert_eq!(RgbChannel::from_value(0).to_u8_round(), 0);
    assert_eq!(RgbChannel::from_value(1).to_u8_round(), 1);
    assert_eq!(RgbChannel::from_value(127 * BYTE_STEP + 1).to_u8_round(), 128);
    assert_eq!(RgbChannel::from_value(128 * BYTE_STEP - 1).to_u8_round(), 128);
    assert_eq!(RgbChannel::from_value(VALUE_MAX - 1).to_u8_round(), 255);
}

#[test]
fn srgb_with_val_creates_with_val() {
    let value = VALUE_MAX;
    let channel = RgbChannel::from_value(value);

    assert_eq!(channel.value(), value);
}

#[test]
fn srgb_from_u8_converts_to_float() {
    let val: u8 = 255;
    let channel = RgbChannel::from_u8(val);

    assert_eq!(channel.value(), VALUE_MAX);
}

#[test]
fn srgb_to_u8_converts_from_float() {
    let channel = RgbChannel::from_value(VALUE_MAX);

    assert_eq!(channel.to_u8_round(), 255);
}

#[test]
fn srgb_fits_in_u8_false_if_too_precise() {
    let channel = RgbChannel::from_value(VALUE_MAX / 10_000_000_000);

    assert!(!channel.fits_in_u8());
}

#[test]
fn srgb_fits_in_u8_false_if_fitting() {
    let channel = RgbChannel::from_value(VALUE_MAX);

    assert!(channel.fits_in_u8());
}
