//! Keyboard backlight animation: profile model, frame generation and the
//! decision logic of the animation daemon.

pub mod animation;
pub mod command;
pub mod daemon;
pub mod error;
pub mod led;
pub mod profiles;
pub mod text;
pub mod types;

pub use animation::build_frames;
pub use error::{KbdError, Result};
pub use types::{Color, ColorPoint, ColorProfile, Frame, LedProfile, ProfileSelector};
