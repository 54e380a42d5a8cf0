//! Core logic of a terminal ambient-sound mixer: the sound library,
//! its ordering and filtering, the catalog format, the download queue,
//! session bookkeeping and the keyboard state machine.

pub mod app;
pub mod assets;
pub mod audio;
pub mod catalog;
pub mod downloads;
pub mod input;
pub mod layout;
pub mod order;
pub mod paths;
pub mod session;
pub mod sound;
pub mod text;
pub mod user_sounds;
