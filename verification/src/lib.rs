use vstd::prelude::*;

pub mod android_frontend;
pub mod app_state;
pub mod chord;
pub mod chord_wheel;
pub mod desktop_audio;
pub mod engine;
pub mod input_map;
pub mod layout;
pub mod rows;
pub mod strum;
pub mod text;
pub mod touch;
pub mod ui_events;
pub mod ui_settings;
pub mod voices;
pub mod key_set;
pub mod laws;
pub mod note_set;
pub mod notes;
pub mod output_midi;
pub mod output_midir;
pub mod pixel_font;
pub mod render_android;
pub mod render_best;
pub mod render_desktop;
pub mod render_shared;

verus! {
}
