//! Status panel for a single-board computer: sensor readings, frame layout,
//! the sampling loop's control decisions and one error type for all of it.

pub mod control;
pub mod error;
pub mod render;
pub mod sensor;
pub mod simple_error;
pub mod text;
