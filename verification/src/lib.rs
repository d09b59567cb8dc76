//! The decision logic of an Icecast streaming client.
pub mod audio;
pub mod bytes;
pub mod config;
pub mod duck;
pub mod json;
pub mod log;
pub mod metadata;
pub mod mixer;
pub mod opus;
pub mod pages;
pub mod pipewire;
pub mod preferences;
pub mod ptt;
pub mod samples;
pub mod state;
pub mod stream;
pub mod streaming;
pub mod text;
pub mod timers;
