//! Traits for color channel components.
//!
//! A component value is a fraction between 0 and 1. It is held exactly, as a
//! whole number of units of which [`VALUE_MAX`] make up 1. One unit is small
//! enough that every single byte value and every decimal number with up to 16
//! decimal places on the single byte scale can be told apart.

use vstd::prelude::*;
use crate::error::RangeError;

verus! {

/// The component value that stands for 1, the upper end of the range.
pub const VALUE_MAX: u64 = 2_550_000_000_000_000_000;

/// The distance between two neighbouring single byte values: 1/255 of the range.
pub const BYTE_STEP: u64 = 10_000_000_000_000_000;

/// Whether a component value lies exactly on one of the 256 single byte values.
pub open spec fn is_byte_exact(units: nat) -> bool {
    units % (BYTE_STEP as nat) == 0
}

/// The component value times 255, rounded towards positive infinity.
pub open spec fn byte_ceil(units: nat) -> nat {
    if units % (BYTE_STEP as nat) == 0 {
        units / (BYTE_STEP as nat)
    } else {
        units / (BYTE_STEP as nat) + 1
    }
}

/// `byte_ceil` gives the least whole number that is not below the value times 255:
/// it is not below it, and no whole number that is not below it is smaller.
pub proof fn lemma_byte_ceil_is_least(units: nat, other: nat)
    ensures
        byte_ceil(units) * BYTE_STEP >= units,
        other * BYTE_STEP >= units ==> other >= byte_ceil(units),
{
    let step = BYTE_STEP as nat;
    let q = units / step;
    let r = units % step;
    assert(units == step * q + r) by {
        vstd::arithmetic::div_mod::lemma_fundamental_div_mod(units as int, step as int);
    }
    assert(byte_ceil(units) * step >= units) by (nonlinear_arith)
        requires
            units == step * q + r,
            0 <= r < step,
            byte_ceil(units) == if r == 0 { q } else { q + 1 },
    ;
    if other < byte_ceil(units) {
        assert(other * step < units) by (nonlinear_arith)
            requires
                units == step * q + r,
                0 <= r < step,
                other < (if r == 0 { q } else { q + 1 }),
        ;
    }
}

/// Component that uses a fraction between 0 and 1 for its value.
pub trait FloatComponent: Sized {
    /// The component value in units.
    spec fn units(&self) -> nat;

    /// Creates a new component with the given value. Value must not be above [`VALUE_MAX`].
    fn from_value(value: u64) -> (component: Self)
        requires
            value <= VALUE_MAX,
        ensures
            component.units() == value,
    ;

    /// Returns the component value as it is.
    fn value(&self) -> (value: u64)
        ensures
            value == self.units(),
            value <= VALUE_MAX,
    ;
}

/// Component with a value that can be presented in a single byte.
///
/// 0 stands for the least value of the component and 255 for the greatest.
pub trait SingleByteComponent: FloatComponent {
    /// Creates a new component based on the given value in the range 0 to 255.
    fn from_u8(single_byte_value: u8) -> (component: Self)
        ensures
            component.units() == single_byte_value * BYTE_STEP,
    ;

    /// Checks if the value of this component lies exactly on a value of the range 0 to 255.
    fn fits_in_u8(&self) -> (fits: bool)
        ensures
            fits == is_byte_exact(self.units()),
    ;

    /// Returns the value in the range 0 to 255 that this component lies on,
    /// and an error if it lies between two of them.
    fn to_u8(&self) -> (converted: Result<u8, RangeError>)
        ensures
            converted is Ok <==> is_byte_exact(self.units()),
            converted matches Ok(byte) ==> byte * BYTE_STEP == self.units(),
    ;

    /// Returns the value in the range 0 to 255 at or next above the value of this component.
    fn to_u8_round(&self) -> (byte: u8)
        ensures
            byte == byte_ceil(self.units()),
    ;
}

} // verus!
