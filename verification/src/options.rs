//! What a run of the program was asked for besides its colors.

use vstd::prelude::*;
use crate::color_format::ColorFormat;

verus! {

/// What holds for every color that a run of the program prints.
#[derive(Debug, PartialEq, Eq, Copy, Clone, Structural)]
pub struct Options {
    /// The notation in which colors are printed.
    pub format: ColorFormat,
    /// How often more detail was asked for.
    pub verbosity: u8,
}

} // verus!
