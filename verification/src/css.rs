//! CSS values, their merging and their resolution against a parent element.

pub mod auto;
pub mod calc;
pub mod color;
pub mod combine;
pub mod css_val;
pub mod font_style;
pub mod number;
pub mod property;
pub mod rect;
pub mod rule;
pub mod size;
pub mod style_sheet;
