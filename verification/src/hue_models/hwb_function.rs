//! CSS HWB function notation, see <https://www.w3.org/TR/css-color-4/#the-hwb-notation>.

use vstd::prelude::*;
use crate::component::VALUE_MAX;
use crate::css_types::{format_percentage, percentage_text};
use crate::css_function::{format_function, function_text};
use crate::error::ParsingError;
use crate::text::chars_of;
use crate::hue_models::common::{
    hue_function_values, lemma_hue_function_text, parse_hue_function, HueFunctionValues,
};
use crate::rgb::rgb_function_str::reread_fraction;
use crate::rgb::rgb_function_str::ChannelUnit;
use crate::rgb::OmitAlphaChannel;
use crate::text::string_from_chars;
use crate::hue_models::common::{alpha_value_text_conditionally, format_alpha_value_conditionally};
use crate::hue_models::css_types::{format_hue, hue_text, HUE_TURN};

verus! {

/// A color in the HWB model, with an alpha channel.
///
/// The hue is held in units of which [`HUE_TURN`] make up a full turn, and is below
/// a full turn. Whiteness, blackness and alpha are fractions of [`VALUE_MAX`].
#[derive(Debug, Clone, Copy, PartialEq, Eq, Structural)]
pub struct Hwba {
    hue: u64,
    whiteness: u64,
    blackness: u64,
    alpha: u64,
}

/// What is known of a [`Hwba`]: its four values.
pub struct HwbaView {
    pub hue: nat,
    pub whiteness: nat,
    pub blackness: nat,
    pub alpha: nat,
}

impl View for Hwba {
    type V = HwbaView;

    closed spec fn view(&self) -> HwbaView {
        HwbaView {
            hue: self.hue as nat,
            whiteness: self.whiteness as nat,
            blackness: self.blackness as nat,
            alpha: self.alpha as nat,
        }
    }
}

impl Hwba {
    #[verifier::type_invariant]
    closed spec fn in_range(self) -> bool {
        &&& self.hue < HUE_TURN
        &&& self.whiteness <= VALUE_MAX
        &&& self.blackness <= VALUE_MAX
        &&& self.alpha <= VALUE_MAX
    }

    /// Creates a color of the given values. Full turns are taken off the hue.
    pub fn new(hue: u64, whiteness: u64, blackness: u64, alpha: u64) -> (color: Hwba)
        requires
            whiteness <= VALUE_MAX,
            blackness <= VALUE_MAX,
            alpha <= VALUE_MAX,
        ensures
            color@ == (HwbaView {
                hue: (hue % HUE_TURN) as nat,
                whiteness: whiteness as nat,
                blackness: blackness as nat,
                alpha: alpha as nat,
            }),
    {
        Hwba { hue: hue % HUE_TURN, whiteness, blackness, alpha }
    }

    /// Parses a CSS-style HWB function string: `hwb(`, a hue in degrees, the
    /// whiteness and the blackness as percentages and, after a slash, an alpha value
    /// or none, and `)`, with one space between any two.
    /// For details see the [CSS color specification](https://www.w3.org/TR/css-color-4/#the-hwb-notation).
    ///
    /// Full turns are taken off the hue. The other values are clamped if they are
    /// out of range.
    ///
    /// # Errors
    /// - `InvalidSyntax` if the input does not have the shape of a HWB function string.
    /// - `NumberConversionFailed` if a value is too large or has too many decimal
    ///   places to be held.
    pub fn from_hwb_function_str(hwb_str: &str) -> (result: Result<Hwba, ParsingError>)
        ensures
            match hwb_function_color(hwb_str@) {
                Ok(view) => result matches Ok(color) && color@ == view,
                Err(e) => result == Err::<Hwba, ParsingError>(e),
            },
    {
        let chars = chars_of(hwb_str);
        proof {
            reveal_strlit("hwb");
            assert("hwb"@ =~= seq!['h', 'w', 'b']);
        }
        let (hue, whiteness, blackness, alpha) = parse_hue_function(
            chars.as_slice(),
            "hwb",
            "String did not match HWB function string pattern",
        )?;
        Ok(Hwba::new(hue, whiteness, blackness, alpha))
    }

    pub fn hue(&self) -> (hue: u64)
        ensures
            hue == self@.hue,
            hue < HUE_TURN,
    {
        proof {
            use_type_invariant(self);
        }
        self.hue
    }

    pub fn whiteness(&self) -> (whiteness: u64)
        ensures
            whiteness == self@.whiteness,
            whiteness <= VALUE_MAX,
    {
        proof {
            use_type_invariant(self);
        }
        self.whiteness
    }

    pub fn blackness(&self) -> (blackness: u64)
        ensures
            blackness == self@.blackness,
            blackness <= VALUE_MAX,
    {
        proof {
            use_type_invariant(self);
        }
        self.blackness
    }

    pub fn alpha(&self) -> (alpha: u64)
        ensures
            alpha == self@.alpha,
            alpha <= VALUE_MAX,
    {
        proof {
            use_type_invariant(self);
        }
        self.alpha
    }
}

/// What a string means in HWB function notation: the color, or what is wrong with
/// the string.
pub open spec fn hwb_function_color(s: Seq<char>) -> Result<HwbaView, ParsingError> {
    match hue_function_values(
        s,
        seq!['h', 'w', 'b'],
        "String did not match HWB function string pattern",
    ) {
        Ok(values) => Ok(
            HwbaView {
                hue: values.hue,
                whiteness: values.second,
                blackness: values.third,
                alpha: values.alpha,
            },
        ),
        Err(e) => Err(e),
    }
}

/// The HWB function notation of a color.
pub open spec fn hwb_function_text(
    color: HwbaView,
    omit_alpha_channel: OmitAlphaChannel,
    alpha_channel_unit: ChannelUnit,
) -> Seq<char> {
    function_text(
        seq!['h', 'w', 'b'],
        hue_text(color.hue),
        percentage_text(color.whiteness, VALUE_MAX as nat),
        percentage_text(color.blackness, VALUE_MAX as nat),
        alpha_value_text_conditionally(color.alpha, alpha_channel_unit, omit_alpha_channel),
    )
}

/// Creates a CSS-style HWB function string for this color.
/// For details see the [CSS color specification](https://www.w3.org/TR/css-color-4/#the-hwb-notation).
pub fn to_hwb_function_str(
    color: &Hwba,
    omit_alpha_channel: OmitAlphaChannel,
    alpha_channel_unit: ChannelUnit,
) -> (hwb_str: String)
    ensures
        hwb_str@ == hwb_function_text(color@, omit_alpha_channel, alpha_channel_unit),
{
    let hue_str = format_hue(color.hue());
    let whiteness_str = format_percentage(color.whiteness(), VALUE_MAX);
    let blackness_str = format_percentage(color.blackness(), VALUE_MAX);

    let alpha_str_opt = format_alpha_value_conditionally(
        color.alpha(),
        alpha_channel_unit,
        omit_alpha_channel,
    );
    proof {
        reveal_strlit("hwb");
        assert("hwb"@ =~= seq!['h', 'w', 'b']);
    }
    let text = format_function("hwb", hue_str, whiteness_str, blackness_str, alpha_str_opt);
    string_from_chars(&text)
}

/// Round trip: the HWB function notation of a color is read as a color again,
/// whichever options it was printed with. The hue is read as it was. Whiteness,
/// blackness and alpha are read as the multiple of 255 units at or next above them,
/// which is less than 255 units away.
pub proof fn lemma_hwb_function_str_round_trip(
    color: HwbaView,
    omit_alpha_channel: OmitAlphaChannel,
    alpha_channel_unit: ChannelUnit,
)
    requires
        color.hue < HUE_TURN,
        color.whiteness <= VALUE_MAX,
        color.blackness <= VALUE_MAX,
        color.alpha <= VALUE_MAX,
    ensures
        hwb_function_color(hwb_function_text(color, omit_alpha_channel, alpha_channel_unit))
            == Ok::<HwbaView, ParsingError>(
            HwbaView {
                hue: color.hue,
                whiteness: reread_fraction(color.whiteness),
                blackness: reread_fraction(color.blackness),
                alpha: reread_fraction(color.alpha),
            },
        ),
{
    lemma_hue_function_text(
        seq!['h', 'w', 'b'],
        "String did not match HWB function string pattern",
        HueFunctionValues {
            hue: color.hue,
            second: color.whiteness,
            third: color.blackness,
            alpha: color.alpha,
        },
        alpha_channel_unit,
        omit_alpha_channel,
    );
}

} // verus!
