//! The notations that a color can be asked for in.

use vstd::prelude::*;
use vstd::string::StringExecFns;

verus! {

/// A notation of colors, or the choice of one left open.
#[derive(Debug, PartialEq, Eq, Copy, Clone, Structural)]
pub enum ColorFormat {
    Auto,
    RgbHex,
    RgbFunction,
    HslFunction,
    HwbFunction,
}

impl ColorFormat {
    /// The name of the format.
    pub open spec fn spec_as_str(&self) -> &'static str {
        match self {
            ColorFormat::Auto => "auto",
            ColorFormat::RgbHex => "rgb-hex",
            ColorFormat::RgbFunction => "rgb-function",
            ColorFormat::HslFunction => "hsl-function",
            ColorFormat::HwbFunction => "hwb-function",
        }
    }

    /// The name of the format.
    #[verifier::when_used_as_spec(spec_as_str)]
    pub fn as_str(&self) -> (name: &'static str)
        ensures
            name == self.spec_as_str(),
    {
        match self {
            ColorFormat::Auto => "auto",
            ColorFormat::RgbHex => "rgb-hex",
            ColorFormat::RgbFunction => "rgb-function",
            ColorFormat::HslFunction => "hsl-function",
            ColorFormat::HwbFunction => "hwb-function",
        }
    }

    /// The name of the format, as a string of its own.
    pub fn to_string(&self) -> (name: String)
        ensures
            name@ == self.spec_as_str()@,
    {
        self.as_str().to_owned()
    }

    /// The format of the given name.
    ///
    /// # Errors
    /// If no format has the name, the error names it.
    pub fn from_str(s: &str) -> (parsed: Result<ColorFormat, String>)
        ensures
            match parsed {
                Ok(format) => s@ == format.spec_as_str()@,
                Err(message) => (forall|format: ColorFormat| s@ != (#[trigger] format.spec_as_str())@)
                    && message@ == "invalid value: "@ + s@,
            },
    {
        let name = s.to_owned();
        if name == "auto".to_owned() {
            Ok(ColorFormat::Auto)
        } else if name == "rgb-hex".to_owned() {
            Ok(ColorFormat::RgbHex)
        } else if name == "rgb-function".to_owned() {
            Ok(ColorFormat::RgbFunction)
        } else if name == "hsl-function".to_owned() {
            Ok(ColorFormat::HslFunction)
        } else if name == "hwb-function".to_owned() {
            Ok(ColorFormat::HwbFunction)
        } else {
            Err("invalid value: ".to_owned().concat(s))
        }
    }
}

} // verus!
