//! The HSL and HWB color models: colors of a hue, in CSS function notation, and
//! between these models and the RGB model.

pub use crate::hue_models::convert::{hsl_to_rgb, hwb_to_rgb, rgb_to_hsl, rgb_to_hwb};
pub use crate::hue_models::hsl_function::{to_hsl_function_str, Hsla};
pub use crate::hue_models::hwb_function::{to_hwb_function_str, Hwba};

pub mod common;
pub mod convert;
pub mod css_types;
pub mod hsl_function;
pub mod hwb_function;
