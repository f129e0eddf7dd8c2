//! CSS HSL function notation, see <https://www.w3.org/TR/css-color-4/#the-hsl-notation>.

use vstd::prelude::*;
use crate::component::VALUE_MAX;
use crate::css_types::{format_percentage, percentage_text};
use crate::css_function::{format_function, function_text};
use crate::error::ParsingError;
use crate::text::chars_of;
use crate::hue_models::common::{
    hue_function_values, lemma_hue_function_text, parse_hue_function, HueFunctionValues,
};
use crate::rgb::rgb_function_str::reread_fraction;
use crate::rgb::rgb_function_str::ChannelUnit;
use crate::rgb::OmitAlphaChannel;
use crate::text::string_from_chars;
use crate::hue_models::common::{alpha_value_text_conditionally, format_alpha_value_conditionally};
use crate::hue_models::css_types::{format_hue, hue_text, HUE_TURN};

verus! {

/// A color in the HSL model, with an alpha channel.
///
/// The hue is held in units of which [`HUE_TURN`] make up a full turn, and is below
/// a full turn. Saturation, lightness and alpha are fractions of [`VALUE_MAX`].
#[derive(Debug, Clone, Copy, PartialEq, Eq, Structural)]
pub struct Hsla {
    hue: u64,
    saturation: u64,
    lightness: u64,
    alpha: u64,
}

/// What is known of a [`Hsla`]: its four values.
pub struct HslaView {
    pub hue: nat,
    pub saturation: nat,
    pub lightness: nat,
    pub alpha: nat,
}

impl View for Hsla {
    type V = HslaView;

    closed spec fn view(&self) -> HslaView {
        HslaView {
            hue: self.hue as nat,
            saturation: self.saturation as nat,
            lightness: self.lightness as nat,
            alpha: self.alpha as nat,
        }
    }
}

impl Hsla {
    #[verifier::type_invariant]
    closed spec fn in_range(self) -> bool {
        &&& self.hue < HUE_TURN
        &&& self.saturation <= VALUE_MAX
        &&& self.lightness <= VALUE_MAX
        &&& self.alpha <= VALUE_MAX
    }

    /// Creates a color of the given values. Full turns are taken off the hue.
    pub fn new(hue: u64, saturation: u64, lightness: u64, alpha: u64) -> (color: Hsla)
        requires
            saturation <= VALUE_MAX,
            lightness <= VALUE_MAX,
            alpha <= VALUE_MAX,
        ensures
            color@ == (HslaView {
                hue: (hue % HUE_TURN) as nat,
                saturation: saturation as nat,
                lightness: lightness as nat,
                alpha: alpha as nat,
            }),
    {
        Hsla { hue: hue % HUE_TURN, saturation, lightness, alpha }
    }

    /// Parses a CSS-style HSL function string: `hsl(`, a hue in degrees, the
    /// saturation and the lightness as percentages and, after a slash, an alpha value
    /// or none, and `)`, with one space between any two.
    /// For details see the [CSS color specification](https://www.w3.org/TR/css-color-4/#the-hsl-notation).
    ///
    /// Full turns are taken off the hue. The other values are clamped if they are
    /// out of range. The legacy syntax with comma and the `hsla` function are *not*
    /// supported.
    ///
    /// # Errors
    /// - `InvalidSyntax` if the input does not have the shape of a HSL function string.
    /// - `NumberConversionFailed` if a value is too large or has too many decimal
    ///   places to be held.
    pub fn from_hsl_function_str(hsl_str: &str) -> (result: Result<Hsla, ParsingError>)
        ensures
            match hsl_function_color(hsl_str@) {
                Ok(view) => result matches Ok(color) && color@ == view,
                Err(e) => result == Err::<Hsla, ParsingError>(e),
            },
    {
        let chars = chars_of(hsl_str);
        proof {
            reveal_strlit("hsl");
            assert("hsl"@ =~= seq!['h', 's', 'l']);
        }
        let (hue, saturation, lightness, alpha) = parse_hue_function(
            chars.as_slice(),
            "hsl",
            "String did not match HSL function string pattern",
        )?;
        Ok(Hsla::new(hue, saturation, lightness, alpha))
    }

    pub fn hue(&self) -> (hue: u64)
        ensures
            hue == self@.hue,
            hue < HUE_TURN,
    {
        proof {
            use_type_invariant(self);
        }
        self.hue
    }

    pub fn saturation(&self) -> (saturation: u64)
        ensures
            saturation == self@.saturation,
            saturation <= VALUE_MAX,
    {
        proof {
            use_type_invariant(self);
        }
        self.saturation
    }

    pub fn lightness(&self) -> (lightness: u64)
        ensures
            lightness == self@.lightness,
            lightness <= VALUE_MAX,
    {
        proof {
            use_type_invariant(self);
        }
        self.lightness
    }

    pub fn alpha(&self) -> (alpha: u64)
        ensures
            alpha == self@.alpha,
            alpha <= VALUE_MAX,
    {
        proof {
            use_type_invariant(self);
        }
        self.alpha
    }
}

/// What a string means in HSL function notation: the color, or what is wrong with
/// the string.
pub open spec fn hsl_function_color(s: Seq<char>) -> Result<HslaView, ParsingError> {
    match hue_function_values(
        s,
        seq!['h', 's', 'l'],
        "String did not match HSL function string pattern",
    ) {
        Ok(values) => Ok(
            HslaView {
                hue: values.hue,
                saturation: values.second,
                lightness: values.third,
                alpha: values.alpha,
            },
        ),
        Err(e) => Err(e),
    }
}

/// The HSL function notation of a color.
pub open spec fn hsl_function_text(
    color: HslaView,
    omit_alpha_channel: OmitAlphaChannel,
    alpha_channel_unit: ChannelUnit,
) -> Seq<char> {
    function_text(
        seq!['h', 's', 'l'],
        hue_text(color.hue),
        percentage_text(color.saturation, VALUE_MAX as nat),
        percentage_text(color.lightness, VALUE_MAX as nat),
        alpha_value_text_conditionally(color.alpha, alpha_channel_unit, omit_alpha_channel),
    )
}

/// Creates a CSS-style HSL function string for this color.
/// For details see the [CSS color specification](https://www.w3.org/TR/css-color-4/#the-hsl-notation).
pub fn to_hsl_function_str(
    color: &Hsla,
    omit_alpha_channel: OmitAlphaChannel,
    alpha_channel_unit: ChannelUnit,
) -> (hsl_str: String)
    ensures
        hsl_str@ == hsl_function_text(color@, omit_alpha_channel, alpha_channel_unit),
{
    let hue_str = format_hue(color.hue());
    let saturation_str = format_percentage(color.saturation(), VALUE_MAX);
    let lightness_str = format_percentage(color.lightness(), VALUE_MAX);

    let alpha_str_opt = format_alpha_value_conditionally(
        color.alpha(),
        alpha_channel_unit,
        omit_alpha_channel,
    );
    proof {
        reveal_strlit("hsl");
        assert("hsl"@ =~= seq!['h', 's', 'l']);
    }
    let text = format_function("hsl", hue_str, saturation_str, lightness_str, alpha_str_opt);
    string_from_chars(&text)
}

/// Round trip: the HSL function notation of a color is read as a color again,
/// whichever options it was printed with. The hue is read as it was. Saturation,
/// lightness and alpha are read as the multiple of 255 units at or next above them,
/// which is less than 255 units away.
pub proof fn lemma_hsl_function_str_round_trip(
    color: HslaView,
    omit_alpha_channel: OmitAlphaChannel,
    alpha_channel_unit: ChannelUnit,
)
    requires
        color.hue < HUE_TURN,
        color.saturation <= VALUE_MAX,
        color.lightness <= VALUE_MAX,
        color.alpha <= VALUE_MAX,
    ensures
        hsl_function_color(hsl_function_text(color, omit_alpha_channel, alpha_channel_unit))
            == Ok::<HslaView, ParsingError>(
            HslaView {
                hue: color.hue,
                saturation: reread_fraction(color.saturation),
                lightness: reread_fraction(color.lightness),
                alpha: reread_fraction(color.alpha),
            },
        ),
{
    lemma_hue_function_text(
        seq!['h', 's', 'l'],
        "String did not match HSL function string pattern",
        HueFunctionValues {
            hue: color.hue,
            second: color.saturation,
            third: color.lightness,
            alpha: color.alpha,
        },
        alpha_channel_unit,
        omit_alpha_channel,
    );
}

} // verus!
