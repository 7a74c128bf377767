//! Verified core of the local companion agent that sends finished OBS
//! recordings to the user's own Telegram chat.

pub mod api;
pub mod config;
pub mod digest;
pub mod install_bearer;
pub mod jobs;
pub mod keychain;
pub mod paths;
pub mod random;
pub mod secret;
pub mod telegram;
pub mod text;
