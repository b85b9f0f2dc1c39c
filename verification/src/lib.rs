//! A terminal image viewer's decision logic: how settings are resolved from a
//! configuration text and command-line arguments, how large a picture is drawn
//! on a canvas, which canvas operations draw it, and how an animation is played
//! and brought to an end.

pub mod picture;
pub mod plan;
pub mod playback;
pub mod playback_laws;
pub mod ratio;
pub mod render;
pub mod settings;
pub mod settings_laws;
pub mod sizing;
pub mod sizing_laws;
pub mod text;

pub use crate::render::{clean_exit, display_image};
pub use crate::settings::{parse_args, parse_file, Settings, VERSION};
