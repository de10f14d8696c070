//! What holds of the player as a whole.

pub mod history;
pub mod lines;
pub mod numbers;
pub mod paths;
pub mod playback;
pub mod saving;
pub mod seeking;
pub mod views;
