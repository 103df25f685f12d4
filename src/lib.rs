//! A slider bar's logic: mapping a pixel offset onto a numeric range,
//! memoising mapped values, deciding what each frame and input event does,
//! and building the text of commands and titles.

mod cache;
mod colour;
mod controller;
mod interp;
mod text;

pub use cache::ValueCache;
pub use colour::{colour_from_checked, parse_colour, ColourError, Rgb};
pub use controller::{clamp_fill, Controller, Frame, Input, Reaction};
pub use interp::{Mapping, MappingError, Value};
pub use text::{decimal_text, substitute, whole_text, window_title};
