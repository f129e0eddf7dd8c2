//! A single channel of an RGB color.

use vstd::prelude::*;
use crate::component::{FloatComponent, SingleByteComponent};
use crate::component::{BYTE_STEP, VALUE_MAX};
use crate::error::RangeError;

verus! {

/// A single [RGB](https://en.wikipedia.org/wiki/RGB_color_model) channel.
#[derive(Debug, Clone, Copy, PartialEq, Eq, Structural)]
pub struct RgbChannel {
    value: u64,
}

impl View for RgbChannel {
    type V = nat;

    /// The channel value in units.
    closed spec fn view(&self) -> nat {
        self.value as nat
    }
}

impl RgbChannel {
    #[verifier::type_invariant]
    closed spec fn in_range(self) -> bool {
        self.value <= VALUE_MAX
    }

    /// The channel with the given value.
    pub closed spec fn with_value(units: nat) -> RgbChannel {
        RgbChannel { value: units as u64 }
    }

    /// `with_value` gives a channel of the value asked for.
    pub proof fn lemma_with_value(units: nat)
        requires
            units <= VALUE_MAX,
        ensures
            RgbChannel::with_value(units)@ == units,
    {
    }

    /// A channel is its value: two channels of one value are the same channel.
    pub proof fn lemma_same_value(self, other: RgbChannel)
        requires
            self@ == other@,
        ensures
            self == other,
    {
    }
}

impl FloatComponent for RgbChannel {
    open spec fn units(&self) -> nat {
        self@
    }

    fn from_value(value: u64) -> (component: RgbChannel)
        ensures
            component == RgbChannel::with_value(value as nat),
    {
        RgbChannel { value }
    }

    fn value(&self) -> (value: u64) {
        proof {
            use_type_invariant(self);
        }
        self.value
    }
}

impl SingleByteComponent for RgbChannel {
    fn from_u8(single_byte_value: u8) -> (component: RgbChannel)
        ensures
            component == RgbChannel::with_value((single_byte_value * BYTE_STEP) as nat),
    {
        let wide: u64 = single_byte_value as u64;
        RgbChannel { value: wide * BYTE_STEP }
    }

    fn fits_in_u8(&self) -> (fits: bool) {
        self.value % BYTE_STEP == 0
    }

    fn to_u8(&self) -> (converted: Result<u8, RangeError>)
        ensures
            converted matches Err(e) ==> e.0@ == "Value does not fit into 1 byte."@,
    {
        if self.fits_in_u8() {
            Ok(self.to_u8_round())
        } else {
            Err(RangeError("Value does not fit into 1 byte."))
        }
    }

    fn to_u8_round(&self) -> (byte: u8) {
        proof {
            use_type_invariant(self);
        }
        let whole: u64 = self.value / BYTE_STEP;
        let rounded: u64 = if self.value % BYTE_STEP == 0 {
            whole
        } else {
            whole + 1
        };
        assert(rounded <= 255) by {
            if self.value % BYTE_STEP != 0 {
                assert(self.value < 255 * BYTE_STEP);
            }
        }
        rounded as u8
    }
}

} // verus!
