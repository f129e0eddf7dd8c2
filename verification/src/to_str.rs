//! Colors as strings: the notations that a color can be printed in, and their
//! options.

pub use crate::hue_models::hsl_function::to_hsl_function_str;
pub use crate::hue_models::hwb_function::to_hwb_function_str;
pub use crate::rgb::hex_str::{to_rgb_hex_str, LetterCase, ShorthandNotation};
pub use crate::rgb::rgb_function_str::ChannelUnit;
pub use crate::rgb::OmitAlphaChannel;
