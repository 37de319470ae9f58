//! Screenshot capture support library: crop geometry, pixel statistics,
//! command-line validation, target selection and text helpers.

pub mod text;
pub mod types;
pub mod crop;
pub mod image_stats;
pub mod capture_wgc;
pub mod number;
pub mod util;
pub mod cli;
pub mod logging;
pub mod run;
pub mod monitor_enum;
pub mod window_enum;
pub mod encode_png;
pub mod gui;
pub mod d3d11_copy;
