//! Between the RGB model and the HSL and HWB models.
//!
//! From RGB, whiteness and blackness are exact; a hue, a saturation and a lightness
//! are rounded down to a whole number of units. To RGB, each quotient is rounded
//! down to a whole number of units.

use vstd::prelude::*;
use crate::component::{FloatComponent, VALUE_MAX};
use crate::rgb::{Rgb, RgbChannel};
use crate::hue_models::css_types::{HUE_DEGREE, HUE_TURN};
use crate::hue_models::hsl_function::{Hsla, HslaView};
use crate::hue_models::hwb_function::{Hwba, HwbaView};

verus! {

/// The greatest of three channels.
pub open spec fn max_of(red: nat, green: nat, blue: nat) -> nat {
    if red >= green && red >= blue {
        red
    } else if green >= blue {
        green
    } else {
        blue
    }
}

/// The least of three channels.
pub open spec fn min_of(red: nat, green: nat, blue: nat) -> nat {
    if red <= green && red <= blue {
        red
    } else if green <= blue {
        green
    } else {
        blue
    }
}

/// `difference / chroma` of a sixth of a full turn, rounded down.
pub open spec fn sixth_down(difference: nat, chroma: nat) -> nat {
    (60 * HUE_DEGREE * difference / chroma as int) as nat
}

/// `difference / chroma` of a sixth of a full turn, rounded up.
pub open spec fn sixth_up(difference: nat, chroma: nat) -> nat {
    if (60 * HUE_DEGREE * difference) % (chroma as int) == 0 {
        sixth_down(difference, chroma)
    } else {
        sixth_down(difference, chroma) + 1
    }
}

/// The hue of a color, rounded down. A grey has the hue 0. Else the hue lies
/// within a sixth of a full turn of the hue of the greatest channel (red at 0,
/// green at a third of a full turn, blue at two thirds), on the side of the greater
/// of the two others, as far as their difference is of the chroma.
pub open spec fn hue_of(red: nat, green: nat, blue: nat) -> nat {
    let max = max_of(red, green, blue);
    let chroma = (max - min_of(red, green, blue)) as nat;
    if chroma == 0 {
        0
    } else if max == red {
        if green >= blue {
            sixth_down((green - blue) as nat, chroma)
        } else {
            (HUE_TURN - sixth_up((blue - green) as nat, chroma)) as nat
        }
    } else if max == green {
        if blue >= red {
            (120 * HUE_DEGREE + sixth_down((blue - red) as nat, chroma)) as nat
        } else {
            (120 * HUE_DEGREE - sixth_up((red - blue) as nat, chroma)) as nat
        }
    } else {
        if red >= green {
            (240 * HUE_DEGREE + sixth_down((red - green) as nat, chroma)) as nat
        } else {
            (240 * HUE_DEGREE - sixth_up((green - red) as nat, chroma)) as nat
        }
    }
}

/// The lightness of a color: the mean of its greatest and its least channel,
/// rounded down.
pub open spec fn lightness_of(max: nat, min: nat) -> nat {
    (max + min) / 2
}

/// The saturation of a color, rounded down: its chroma as a part of the greatest
/// chroma that its lightness allows.
pub open spec fn saturation_of(max: nat, min: nat) -> nat {
    let chroma = (max - min) as nat;
    if chroma == 0 {
        0
    } else if max + min <= VALUE_MAX {
        (chroma * VALUE_MAX / (max + min) as int) as nat
    } else {
        (chroma * VALUE_MAX / (2 * VALUE_MAX - max - min)) as nat
    }
}

/// A color in the HSL model.
pub open spec fn hsl_of(color: Rgb) -> HslaView {
    let max = max_of(color.red@, color.green@, color.blue@);
    let min = min_of(color.red@, color.green@, color.blue@);
    HslaView {
        hue: hue_of(color.red@, color.green@, color.blue@),
        saturation: saturation_of(max, min),
        lightness: lightness_of(max, min),
        alpha: color.alpha@,
    }
}

/// A color in the HWB model: its whiteness is its least channel, its blackness what
/// its greatest channel lacks.
pub open spec fn hwb_of(color: Rgb) -> HwbaView {
    HwbaView {
        hue: hue_of(color.red@, color.green@, color.blue@),
        whiteness: min_of(color.red@, color.green@, color.blue@),
        blackness: (VALUE_MAX - max_of(color.red@, color.green@, color.blue@)) as nat,
        alpha: color.alpha@,
    }
}

fn max_channel(red: u64, green: u64, blue: u64) -> (max: u64)
    ensures
        max == max_of(red as nat, green as nat, blue as nat),
        max >= red && max >= green && max >= blue,
{
    if red >= green && red >= blue {
        red
    } else if green >= blue {
        green
    } else {
        blue
    }
}

fn min_channel(red: u64, green: u64, blue: u64) -> (min: u64)
    ensures
        min == min_of(red as nat, green as nat, blue as nat),
        min <= red && min <= green && min <= blue,
{
    if red <= green && red <= blue {
        red
    } else if green <= blue {
        green
    } else {
        blue
    }
}

/// `difference / chroma` of a sixth of a full turn, rounded down and rounded up.
fn sixth(difference: u64, chroma: u64) -> (part: (u64, u64))
    requires
        0 < chroma <= VALUE_MAX,
        difference <= chroma,
    ensures
        part.0 == sixth_down(difference as nat, chroma as nat),
        part.1 == sixth_up(difference as nat, chroma as nat),
        part.0 <= part.1 <= 60 * HUE_DEGREE,
        difference > 0 ==> part.1 > 0,
{
    let whole_sixth = 60 * HUE_DEGREE as u128;
    assert(whole_sixth * (difference as u128) <= whole_sixth * (chroma as u128) <= 60
        * HUE_DEGREE * VALUE_MAX) by (nonlinear_arith)
        requires
            difference <= chroma <= VALUE_MAX,
            whole_sixth == 60 * HUE_DEGREE,
    ;
    let scaled = whole_sixth * difference as u128;
    let down = scaled / chroma as u128;
    assert(down <= whole_sixth && (scaled % (chroma as u128) != 0 ==> down < whole_sixth) && (
    difference > 0 && scaled % (chroma as u128) == 0 ==> down > 0)) by (nonlinear_arith)
        requires
            scaled <= whole_sixth * (chroma as u128),
            scaled == whole_sixth * (difference as u128),
            whole_sixth > 0,
            chroma > 0,
            down == scaled / (chroma as u128),
    ;
    let up = if scaled % chroma as u128 == 0 {
        down
    } else {
        down + 1
    };
    (down as u64, up as u64)
}

/// The hue of a color, rounded down.
pub fn rgb_hue(color: &Rgb) -> (hue: u64)
    ensures
        hue == hue_of(color.red@, color.green@, color.blue@),
        hue < HUE_TURN,
{
    let red = color.red().value();
    let green = color.green().value();
    let blue = color.blue().value();
    let max = max_channel(red, green, blue);
    let chroma = max - min_channel(red, green, blue);
    if chroma == 0 {
        0
    } else if max == red {
        if green >= blue {
            sixth(green - blue, chroma).0
        } else {
            HUE_TURN - sixth(blue - green, chroma).1
        }
    } else if max == green {
        if blue >= red {
            120 * HUE_DEGREE + sixth(blue - red, chroma).0
        } else {
            120 * HUE_DEGREE - sixth(red - blue, chroma).1
        }
    } else {
        if red >= green {
            240 * HUE_DEGREE + sixth(red - green, chroma).0
        } else {
            240 * HUE_DEGREE - sixth(green - red, chroma).1
        }
    }
}

/// The saturation of a color in the HSL model, rounded down.
fn hsl_saturation(max: u64, min: u64) -> (saturation: u64)
    requires
        min <= max <= VALUE_MAX,
    ensures
        saturation == saturation_of(max as nat, min as nat),
        saturation <= VALUE_MAX,
{
    let chroma = max - min;
    if chroma == 0 {
        return 0;
    }
    let sum = max as u128 + min as u128;
    let most: u128 = if sum <= VALUE_MAX as u128 {
        sum
    } else {
        2 * VALUE_MAX as u128 - sum
    };
    assert((chroma as u128) * (VALUE_MAX as u128) <= most * (VALUE_MAX as u128) <= VALUE_MAX
        * VALUE_MAX) by (nonlinear_arith)
        requires
            chroma <= most <= VALUE_MAX,
    ;
    let scaled = chroma as u128 * VALUE_MAX as u128;
    assert(scaled / most <= VALUE_MAX) by (nonlinear_arith)
        requires
            scaled <= most * (VALUE_MAX as u128),
            most > 0,
    ;
    (scaled / most) as u64
}

/// Converts a color to the HSL model.
pub fn rgb_to_hsl(color: &Rgb) -> (converted: Hsla)
    ensures
        converted@ == hsl_of(*color),
{
    let red = color.red().value();
    let green = color.green().value();
    let blue = color.blue().value();
    let max = max_channel(red, green, blue);
    let min = min_channel(red, green, blue);
    let lightness = ((max as u128 + min as u128) / 2) as u64;
    Hsla::new(rgb_hue(color), hsl_saturation(max, min), lightness, color.alpha().value())
}

/// Converts a color to the HWB model.
pub fn rgb_to_hwb(color: &Rgb) -> (converted: Hwba)
    ensures
        converted@ == hwb_of(*color),
{
    let red = color.red().value();
    let green = color.green().value();
    let blue = color.blue().value();
    let max = max_channel(red, green, blue);
    let min = min_channel(red, green, blue);
    let hue = rgb_hue(color);
    let converted = Hwba::new(hue, min, VALUE_MAX - max, color.alpha().value());
    assert(converted@.hue == hwb_of(*color).hue);
    assert(converted@.whiteness == hwb_of(*color).whiteness);
    assert(converted@.blackness == hwb_of(*color).blackness);
    converted
}

/// `part / whole` of a value, rounded down.
pub open spec fn part_of_value(value: nat, part: nat, whole: nat) -> nat {
    value * part / whole
}

/// The greatest chroma that a lightness allows, times the saturation.
pub open spec fn chroma_of(saturation: nat, lightness: nat) -> nat {
    let span = if 2 * lightness <= VALUE_MAX {
        2 * lightness
    } else {
        (2 * VALUE_MAX - 2 * lightness) as nat
    };
    part_of_value(span, saturation, VALUE_MAX as nat)
}

/// How far a hue is from the nearest of red, green and blue, as a part of a sixth
/// of a full turn that is not above the whole of it.
pub open spec fn hue_part(hue: nat) -> nat {
    let within = hue % (120 * HUE_DEGREE) as nat;
    if within <= 60 * HUE_DEGREE {
        within
    } else {
        (120 * HUE_DEGREE - within) as nat
    }
}

/// What the channel in the middle has above the least channel: the chroma, as far
/// as the hue is from the nearest of red, green and blue.
pub open spec fn middle_of(chroma: nat, hue: nat) -> nat {
    part_of_value(chroma, hue_part(hue), (60 * HUE_DEGREE) as nat)
}

/// Red, green and blue of a hue, where the greatest channel has `chroma` and the
/// channel in the middle has `middle` above the least channel, and the least
/// channel is `least`.
pub open spec fn channels_of(hue: nat, chroma: nat, middle: nat, least: nat) -> (nat, nat, nat) {
    let sixth = hue / (60 * HUE_DEGREE) as nat;
    if sixth == 0 {
        (least + chroma, least + middle, least)
    } else if sixth == 1 {
        (least + middle, least + chroma, least)
    } else if sixth == 2 {
        (least, least + chroma, least + middle)
    } else if sixth == 3 {
        (least, least + middle, least + chroma)
    } else if sixth == 4 {
        (least + middle, least, least + chroma)
    } else {
        (least + chroma, least, least + middle)
    }
}

/// Red, green and blue of a color of the HSL model: the lightness is the mean of
/// the greatest and the least channel.
pub open spec fn rgb_of_hsl(hue: nat, saturation: nat, lightness: nat) -> (nat, nat, nat) {
    let chroma = chroma_of(saturation, lightness);
    channels_of(hue, chroma, middle_of(chroma, hue), ((2 * lightness - chroma) / 2) as nat)
}

/// Red, green and blue of a color of the HWB model: a grey if whiteness and
/// blackness leave nothing of the hue, else the hue at its full chroma, as far as
/// they leave of it, and the whiteness.
pub open spec fn rgb_of_hwb(hue: nat, whiteness: nat, blackness: nat) -> (nat, nat, nat) {
    if whiteness + blackness >= VALUE_MAX {
        let grey = part_of_value(VALUE_MAX as nat, whiteness, whiteness + blackness);
        (grey, grey, grey)
    } else {
        let left = (VALUE_MAX - whiteness - blackness) as nat;
        let pure = channels_of(hue, VALUE_MAX as nat, middle_of(VALUE_MAX as nat, hue), 0);
        (
            part_of_value(pure.0, left, VALUE_MAX as nat) + whiteness,
            part_of_value(pure.1, left, VALUE_MAX as nat) + whiteness,
            part_of_value(pure.2, left, VALUE_MAX as nat) + whiteness,
        )
    }
}

/// A color of the HSL model in the RGB model.
pub open spec fn hsl_color(color: HslaView) -> Rgb {
    let channels = rgb_of_hsl(color.hue, color.saturation, color.lightness);
    Rgb {
        red: RgbChannel::with_value(channels.0),
        green: RgbChannel::with_value(channels.1),
        blue: RgbChannel::with_value(channels.2),
        alpha: RgbChannel::with_value(color.alpha),
    }
}

/// A color of the HWB model in the RGB model.
pub open spec fn hwb_color(color: HwbaView) -> Rgb {
    let channels = rgb_of_hwb(color.hue, color.whiteness, color.blackness);
    Rgb {
        red: RgbChannel::with_value(channels.0),
        green: RgbChannel::with_value(channels.1),
        blue: RgbChannel::with_value(channels.2),
        alpha: RgbChannel::with_value(color.alpha),
    }
}

/// `part / whole` of a value, rounded down.
fn part_of(value: u64, part: u64, whole: u64) -> (scaled: u64)
    requires
        part <= whole,
        whole > 0,
    ensures
        scaled == part_of_value(value as nat, part as nat, whole as nat),
        scaled <= value,
        value <= whole ==> scaled <= part,
{
    assert(value * part <= value * whole <= u64::MAX * u64::MAX) by (nonlinear_arith)
        requires
            part <= whole <= u64::MAX,
            value <= u64::MAX,
    ;
    let product = value as u128 * part as u128;
    assert(product / (whole as u128) <= value) by (nonlinear_arith)
        requires
            product <= value * whole,
            whole > 0,
    ;
    if value <= whole {
        assert(product / (whole as u128) <= part) by (nonlinear_arith)
            requires
                product == value * part,
                value <= whole,
                whole > 0,
        ;
    }
    (product / whole as u128) as u64
}

/// What the channel in the middle has above the least channel.
fn middle_channel(chroma: u64, hue: u64) -> (middle: u64)
    requires
        hue < HUE_TURN,
    ensures
        middle == middle_of(chroma as nat, hue as nat),
        middle <= chroma,
{
    let within = hue % (120 * HUE_DEGREE);
    let part = if within <= 60 * HUE_DEGREE {
        within
    } else {
        120 * HUE_DEGREE - within
    };
    part_of(chroma, part, 60 * HUE_DEGREE)
}

/// Red, green and blue of a hue.
fn hue_channels(hue: u64, chroma: u64, middle: u64, least: u64) -> (channels: (u64, u64, u64))
    requires
        hue < HUE_TURN,
        middle <= chroma,
        least + chroma <= VALUE_MAX,
    ensures
        (channels.0 as nat, channels.1 as nat, channels.2 as nat) == channels_of(
            hue as nat,
            chroma as nat,
            middle as nat,
            least as nat,
        ),
        channels.0 <= least + chroma,
        channels.1 <= least + chroma,
        channels.2 <= least + chroma,
{
    let sixth = hue / (60 * HUE_DEGREE);
    if sixth == 0 {
        (least + chroma, least + middle, least)
    } else if sixth == 1 {
        (least + middle, least + chroma, least)
    } else if sixth == 2 {
        (least, least + chroma, least + middle)
    } else if sixth == 3 {
        (least, least + middle, least + chroma)
    } else if sixth == 4 {
        (least + middle, least, least + chroma)
    } else {
        (least + chroma, least, least + middle)
    }
}

/// Converts a color of the HSL model to the RGB model.
pub fn hsl_to_rgb(color: &Hsla) -> (converted: Rgb)
    ensures
        converted == hsl_color(color@),
{
    let hue = color.hue();
    let lightness = color.lightness();
    let span = if lightness <= VALUE_MAX / 2 {
        2 * lightness
    } else {
        2 * VALUE_MAX - 2 * lightness
    };
    let chroma = part_of(span, color.saturation(), VALUE_MAX);
    let middle = middle_channel(chroma, hue);
    let least = (2 * lightness - chroma) / 2;
    let (red, green, blue) = hue_channels(hue, chroma, middle, least);
    Rgb::from_channels_with_alpha(
        RgbChannel::from_value(red),
        RgbChannel::from_value(green),
        RgbChannel::from_value(blue),
        RgbChannel::from_value(color.alpha()),
    )
}

/// Converts a color of the HWB model to the RGB model.
pub fn hwb_to_rgb(color: &Hwba) -> (converted: Rgb)
    ensures
        converted == hwb_color(color@),
{
    let hue = color.hue();
    let whiteness = color.whiteness();
    let blackness = color.blackness();
    let (red, green, blue) = if whiteness as u128 + blackness as u128 >= VALUE_MAX as u128 {
        let grey = part_of(VALUE_MAX, whiteness, whiteness + blackness);
        (grey, grey, grey)
    } else {
        let left = VALUE_MAX - whiteness - blackness;
        let middle = middle_channel(VALUE_MAX, hue);
        let pure = hue_channels(hue, VALUE_MAX, middle, 0);
        (
            part_of(pure.0, left, VALUE_MAX) + whiteness,
            part_of(pure.1, left, VALUE_MAX) + whiteness,
            part_of(pure.2, left, VALUE_MAX) + whiteness,
        )
    };
    Rgb::from_channels_with_alpha(
        RgbChannel::from_value(red),
        RgbChannel::from_value(green),
        RgbChannel::from_value(blue),
        RgbChannel::from_value(color.alpha()),
    )
}

/// The difference of the two channels that are not the greatest channel.
pub open spec fn hue_difference(red: nat, green: nat, blue: nat) -> nat {
    let max = max_of(red, green, blue);
    if max == red {
        if green >= blue {
            (green - blue) as nat
        } else {
            (blue - green) as nat
        }
    } else if max == green {
        if blue >= red {
            (blue - red) as nat
        } else {
            (red - blue) as nat
        }
    } else {
        if red >= green {
            (red - green) as nat
        } else {
            (green - red) as nat
        }
    }
}

/// Whether the hue of a color is a whole number of units, so that nothing of it
/// was rounded off.
pub open spec fn hue_is_exact(red: nat, green: nat, blue: nat) -> bool {
    let chroma = (max_of(red, green, blue) - min_of(red, green, blue)) as nat;
    chroma > 0 ==> (60 * HUE_DEGREE * hue_difference(red, green, blue)) % (chroma as int) == 0
}

/// Where a difference is a part of the chroma that is a whole number of units of
/// hue, the hue gives the difference back.
proof fn lemma_exact_sixth(difference: nat, chroma: nat)
    requires
        0 < chroma,
        difference <= chroma,
        (60 * HUE_DEGREE * difference) % (chroma as int) == 0,
    ensures
        sixth_down(difference, chroma) == sixth_up(difference, chroma),
        sixth_down(difference, chroma) * chroma == 60 * HUE_DEGREE * difference,
        sixth_down(difference, chroma) <= 60 * HUE_DEGREE,
        difference < chroma ==> sixth_down(difference, chroma) < 60 * HUE_DEGREE,
        difference == chroma ==> sixth_down(difference, chroma) == 60 * HUE_DEGREE,
        difference > 0 ==> sixth_down(difference, chroma) > 0,
        part_of_value(chroma, sixth_down(difference, chroma), (60 * HUE_DEGREE) as nat)
            == difference,
{
    let whole = (60 * HUE_DEGREE) as int;
    let scaled = whole * difference;
    let sixth = sixth_down(difference, chroma) as int;
    assert(sixth == scaled / (chroma as int));
    vstd::arithmetic::div_mod::lemma_fundamental_div_mod(scaled, chroma as int);
    assert(sixth * chroma == scaled) by (nonlinear_arith)
        requires
            scaled == chroma * (scaled / (chroma as int)) + scaled % (chroma as int),
            scaled % (chroma as int) == 0,
            sixth == scaled / (chroma as int),
    ;
    assert(sixth <= whole && (difference < chroma ==> sixth < whole) && (difference == chroma
        ==> sixth == whole) && (difference > 0 ==> sixth > 0)) by (nonlinear_arith)
        requires
            sixth * chroma == whole * difference,
            0 <= difference <= chroma,
            chroma > 0,
            whole > 0,
            sixth >= 0,
    ;
    assert(chroma * sixth == difference * whole + 0) by (nonlinear_arith)
        requires
            sixth * chroma == whole * difference,
    ;
    vstd::arithmetic::div_mod::lemma_fundamental_div_mod_converse(
        (chroma * sixth) as int,
        whole,
        difference as int,
        0,
    );
}

/// Whether the lightness of a color is a whole number of units.
pub open spec fn lightness_is_exact(max: nat, min: nat) -> bool {
    (max + min) % 2 == 0
}

/// Whether the saturation of a color is a whole number of units.
pub open spec fn saturation_is_exact(max: nat, min: nat) -> bool {
    max > min ==> if max + min <= VALUE_MAX {
        ((max - min) * VALUE_MAX) % ((max + min) as int) == 0
    } else {
        ((max - min) * VALUE_MAX) % (2 * VALUE_MAX - max - min) == 0
    }
}

/// Whether the greatest chroma of the hue of a color is a whole number of units
/// in the channel in the middle.
pub open spec fn pure_hue_is_exact(red: nat, green: nat, blue: nat) -> bool {
    let chroma = (max_of(red, green, blue) - min_of(red, green, blue)) as nat;
    chroma > 0 ==> (VALUE_MAX * hue_difference(red, green, blue)) % (chroma as int) == 0
}

/// The channel that a hue gives in the place of a channel of the color that it is
/// the hue of.
pub open spec fn placed(channel: nat, max: nat, min: nat, chroma: nat, middle: nat, least: nat) -> nat {
    if channel == max {
        least + chroma
    } else if channel == min {
        least
    } else {
        least + middle
    }
}

/// The hue of a color that is no grey puts the greatest channel where the color has
/// its greatest channel, the least where it has its least, and the channel in the
/// middle where it has the third; and it is as far from the nearest of red, green
/// and blue as the third channel is above the least, as a part of the chroma.
proof fn lemma_hue_places(red: nat, green: nat, blue: nat, chroma: nat, middle: nat, least: nat)
    requires
        red <= VALUE_MAX && green <= VALUE_MAX && blue <= VALUE_MAX,
        max_of(red, green, blue) > min_of(red, green, blue),
        hue_is_exact(red, green, blue),
        hue_difference(red, green, blue) == 0 ==> middle == 0,
        hue_difference(red, green, blue) == max_of(red, green, blue) - min_of(red, green, blue)
            ==> middle == chroma,
    ensures
        ({
            let max = max_of(red, green, blue);
            let min = min_of(red, green, blue);
            let hue = hue_of(red, green, blue);
            &&& hue < HUE_TURN
            &&& hue_part(hue) == sixth_down(hue_difference(red, green, blue), (max - min) as nat)
            &&& channels_of(hue, chroma, middle, least) == (
                placed(red, max, min, chroma, middle, least),
                placed(green, max, min, chroma, middle, least),
                placed(blue, max, min, chroma, middle, least),
            )
        }),
{
    let max = max_of(red, green, blue);
    let min = min_of(red, green, blue);
    let spread = (max - min) as nat;
    let difference = hue_difference(red, green, blue);
    let hue = hue_of(red, green, blue);
    let sixth = sixth_down(difference, spread);
    let degrees_60: nat = 600_000_000_000_000_000;
    assert(degrees_60 == 60 * HUE_DEGREE);
    assert(HUE_TURN == 6 * degrees_60);
    assert(120 * HUE_DEGREE == 2 * degrees_60);
    assert(240 * HUE_DEGREE == 4 * degrees_60);
    lemma_exact_sixth(difference, spread);
    assert(sixth <= degrees_60);
    if max == red {
        if green >= blue {
            assert(hue == sixth);
            assert(hue / 600_000_000_000_000_000 == if sixth < degrees_60 { 0nat } else { 1nat });
        } else {
            assert(hue == HUE_TURN - sixth);
            assert(hue / 600_000_000_000_000_000 == 5);
        }
    } else if max == green {
        if blue >= red {
            assert(hue == 2 * degrees_60 + sixth);
            assert(hue / 600_000_000_000_000_000 == if sixth < degrees_60 { 2nat } else { 3nat });
        } else {
            assert(hue == 2 * degrees_60 - sixth);
            assert(hue / 600_000_000_000_000_000 == 1);
        }
    } else {
        if red >= green {
            assert(hue == 4 * degrees_60 + sixth);
            assert(hue / 600_000_000_000_000_000 == 4);
        } else {
            assert(hue == 4 * degrees_60 - sixth);
            assert(hue / 600_000_000_000_000_000 == 3);
        }
    }
    assert(hue % 1_200_000_000_000_000_000 == if max == red {
        if green >= blue {
            sixth
        } else {
            (2 * degrees_60 - sixth) as nat
        }
    } else if max == green {
        if blue >= red {
            if sixth < degrees_60 {
                sixth
            } else {
                degrees_60
            }
        } else {
            (2 * degrees_60 - sixth) as nat
        }
    } else {
        if red >= green {
            sixth
        } else {
            (2 * degrees_60 - sixth) as nat
        }
    });
    assert(hue_part(hue) == sixth);
}

/// Red, green and blue that are taken to the HSL model and back are the same, where
/// hue, saturation and lightness are whole numbers of units.
pub proof fn lemma_rgb_of_hsl_of_rgb(red: nat, green: nat, blue: nat)
    requires
        red <= VALUE_MAX && green <= VALUE_MAX && blue <= VALUE_MAX,
        hue_is_exact(red, green, blue),
        saturation_is_exact(max_of(red, green, blue), min_of(red, green, blue)),
        lightness_is_exact(max_of(red, green, blue), min_of(red, green, blue)),
    ensures
        rgb_of_hsl(
            hue_of(red, green, blue),
            saturation_of(max_of(red, green, blue), min_of(red, green, blue)),
            lightness_of(max_of(red, green, blue), min_of(red, green, blue)),
        ) == (red, green, blue),
{
    let max = max_of(red, green, blue);
    let min = min_of(red, green, blue);
    let spread = (max - min) as nat;
    let hue = hue_of(red, green, blue);
    let saturation = saturation_of(max, min);
    let lightness = lightness_of(max, min);
    let whole = VALUE_MAX as nat;
    assert(2 * lightness == max + min);
    if spread == 0 {
        assert(saturation == 0);
        assert(part_of_value((2 * lightness) as nat, 0, whole) == 0);
        assert(part_of_value((2 * whole - 2 * lightness) as nat, 0, whole) == 0);
        assert(chroma_of(saturation, lightness) == 0);
        assert(middle_of(0, hue) == 0) by {
            assert(0 * hue_part(hue) == 0);
        }
    } else {
        let span = if max + min <= VALUE_MAX {
            max + min
        } else {
            (2 * VALUE_MAX - max - min) as nat
        };
        let scaled = spread * whole;
        assert(saturation == scaled / span);
        vstd::arithmetic::div_mod::lemma_fundamental_div_mod(scaled as int, span as int);
        assert(span * saturation == spread * whole + 0) by (nonlinear_arith)
            requires
                scaled == span * (scaled / span) + scaled % span,
                scaled % span == 0,
                saturation == scaled / span,
                scaled == spread * whole,
        ;
        vstd::arithmetic::div_mod::lemma_fundamental_div_mod_converse(
            (span * saturation) as int,
            whole as int,
            spread as int,
            0,
        );
        assert(chroma_of(saturation, lightness) == spread);
        let difference = hue_difference(red, green, blue);
        lemma_exact_sixth(difference, spread);
        lemma_hue_places(red, green, blue, spread, difference, min);
        assert(middle_of(spread, hue) == difference);
    }
}

/// Red, green and blue that are taken to the HWB model and back are the same, where
/// the hue, and the greatest chroma of the hue in the channel in the middle, are
/// whole numbers of units.
pub proof fn lemma_rgb_of_hwb_of_rgb(red: nat, green: nat, blue: nat)
    requires
        red <= VALUE_MAX && green <= VALUE_MAX && blue <= VALUE_MAX,
        hue_is_exact(red, green, blue),
        pure_hue_is_exact(red, green, blue),
    ensures
        rgb_of_hwb(
            hue_of(red, green, blue),
            min_of(red, green, blue),
            (VALUE_MAX - max_of(red, green, blue)) as nat,
        ) == (red, green, blue),
{
    let max = max_of(red, green, blue);
    let min = min_of(red, green, blue);
    let spread = (max - min) as nat;
    let hue = hue_of(red, green, blue);
    let whole = VALUE_MAX as nat;
    let blackness = (whole - max) as nat;
    if spread == 0 {
        assert(min + blackness == whole);
        assert(part_of_value(whole, min, whole) == min) by (nonlinear_arith)
            requires
                whole > 0,
        ;
    } else {
        let difference = hue_difference(red, green, blue);
        let sixth = sixth_down(difference, spread);
        lemma_exact_sixth(difference, spread);
        // The channel in the middle of the hue at its greatest chroma.
        let scaled = whole * difference;
        let pure = scaled / spread;
        vstd::arithmetic::div_mod::lemma_fundamental_div_mod(scaled as int, spread as int);
        assert(pure * spread == whole * difference) by (nonlinear_arith)
            requires
                scaled == spread * (scaled / spread) + scaled % spread,
                scaled % spread == 0,
                pure == scaled / spread,
                scaled == whole * difference,
        ;
        assert(whole * sixth == pure * (60 * HUE_DEGREE) + 0 && (difference == 0 ==> pure == 0)
            && (difference == spread ==> pure == whole)) by (nonlinear_arith)
            requires
                pure * spread == whole * difference,
                sixth * spread == 60 * HUE_DEGREE * difference,
                spread > 0,
                whole > 0,
        ;
        vstd::arithmetic::div_mod::lemma_fundamental_div_mod_converse(
            (whole * sixth) as int,
            (60 * HUE_DEGREE) as int,
            pure as int,
            0,
        );
        lemma_hue_places(red, green, blue, whole, pure, 0);
        assert(middle_of(whole, hue) == pure);
        assert(pure * spread == difference * whole + 0) by (nonlinear_arith)
            requires
                pure * spread == whole * difference,
        ;
        vstd::arithmetic::div_mod::lemma_fundamental_div_mod_converse(
            (pure * spread) as int,
            whole as int,
            difference as int,
            0,
        );
        assert(whole * spread == spread * whole + 0) by (nonlinear_arith);
        vstd::arithmetic::div_mod::lemma_fundamental_div_mod_converse(
            (whole * spread) as int,
            whole as int,
            spread as int,
            0,
        );
        assert(part_of_value(0, spread, whole) == 0) by {
            assert(0 * spread == 0);
        }
    }
}

/// Whether a color can be held in the HSL model without rounding: its hue, its
/// saturation and its lightness are whole numbers of units.
pub open spec fn is_exact_in_hsl(color: Rgb) -> bool {
    &&& hue_is_exact(color.red@, color.green@, color.blue@)
    &&& saturation_is_exact(
        max_of(color.red@, color.green@, color.blue@),
        min_of(color.red@, color.green@, color.blue@),
    )
    &&& lightness_is_exact(
        max_of(color.red@, color.green@, color.blue@),
        min_of(color.red@, color.green@, color.blue@),
    )
}

/// Whether a color can be held in the HWB model and taken back without rounding:
/// its hue, and the greatest chroma of its hue in the channel in the middle, are
/// whole numbers of units.
pub open spec fn is_exact_in_hwb(color: Rgb) -> bool {
    &&& hue_is_exact(color.red@, color.green@, color.blue@)
    &&& pure_hue_is_exact(color.red@, color.green@, color.blue@)
}

/// Round trip: a color that can be held in the HSL model without rounding, and is
/// taken to the HSL model and back, is the same color.
pub proof fn lemma_hsl_round_trip(color: Rgb)
    requires
        color.red@ <= VALUE_MAX,
        color.green@ <= VALUE_MAX,
        color.blue@ <= VALUE_MAX,
        color.alpha@ <= VALUE_MAX,
        is_exact_in_hsl(color),
    ensures
        hsl_color(hsl_of(color)) == color,
{
    lemma_rgb_of_hsl_of_rgb(color.red@, color.green@, color.blue@);
    let back = hsl_color(hsl_of(color));
    RgbChannel::lemma_with_value(color.red@);
    RgbChannel::lemma_with_value(color.green@);
    RgbChannel::lemma_with_value(color.blue@);
    RgbChannel::lemma_with_value(color.alpha@);
    back.red.lemma_same_value(color.red);
    back.green.lemma_same_value(color.green);
    back.blue.lemma_same_value(color.blue);
    back.alpha.lemma_same_value(color.alpha);
}

/// Round trip: a color that can be held in the HWB model and taken back without
/// rounding, and is taken to the HWB model and back, is the same color.
pub proof fn lemma_hwb_round_trip(color: Rgb)
    requires
        color.red@ <= VALUE_MAX,
        color.green@ <= VALUE_MAX,
        color.blue@ <= VALUE_MAX,
        color.alpha@ <= VALUE_MAX,
        is_exact_in_hwb(color),
    ensures
        hwb_color(hwb_of(color)) == color,
{
    lemma_rgb_of_hwb_of_rgb(color.red@, color.green@, color.blue@);
    let back = hwb_color(hwb_of(color));
    RgbChannel::lemma_with_value(color.red@);
    RgbChannel::lemma_with_value(color.green@);
    RgbChannel::lemma_with_value(color.blue@);
    RgbChannel::lemma_with_value(color.alpha@);
    back.red.lemma_same_value(color.red);
    back.green.lemma_same_value(color.green);
    back.blue.lemma_same_value(color.blue);
    back.alpha.lemma_same_value(color.alpha);
}

} // verus!
