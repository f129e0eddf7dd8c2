//! Color values: parsing and printing of CSS color notations, and WCAG contrast.

pub mod color;
pub mod color_format;
pub mod color_printing;
pub mod command;
pub mod component;
pub mod contrast;
pub mod contrast_accuracy;
pub mod css_function;
pub mod css_types;
pub mod error;
pub mod hue_models;
pub mod options;
pub mod parser;
pub mod rgb;
pub mod text;
pub mod to_str;
