//! Verified core of a Discord Rich Presence bridge for Apple Music.
pub mod text;
pub mod config;
pub mod discord_ipc;
pub mod itunes;
pub mod media;
pub mod updater;
pub mod presence;
pub mod autostart;
pub mod tray;
