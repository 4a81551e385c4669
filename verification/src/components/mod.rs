//! The state and key handling of the UI panels. Rendering is done outside the library; what
//! stands here is what each panel remembers and how it reacts to actions.

pub mod clock;
pub mod command_line;
pub mod now_playing;
pub mod timer;
pub mod history;
pub mod session_list;
pub mod status_bar;
