//! The decisions of a small desktop video player: what it remembers between
//! runs, where a seek lands, what it shows, and how it reacts to each event.

pub mod action;
pub mod decimal;
pub mod laws;
pub mod menu;
pub mod path;
pub mod player;
pub mod seek;
pub mod select;
pub mod split;
pub mod startup;
pub mod state;
pub mod text;

pub use action::{Action, ButtonFace, PipelineState};
pub use menu::{history_actions, history_label, history_menu, MenuEntry};
pub use path::MediaPath;
pub use player::{is_playing, key_pressed, Command, Key, PlayerUi};
pub use seek::{format_time, seek_target_nanos, seek_target_seconds, time_text, SEEK_STEP_SECONDS};
pub use startup::{init_error_text, preferred_renderer, video_extensions};
pub use state::{PersistedState, MAX_HISTORY_ITEMS};
