//! Deduper: finds duplicate photos, videos and documents across Google Drive,
//! Google Photos, Gmail attachments, Android phones and this PC, saves files that
//! exist in one place only, and moves verified duplicates to Google Drive Trash
//! only with the user's confirmation.

pub mod text;
pub mod scanner;
pub mod hash;
pub mod config;
pub mod oauth;
pub mod reports;
pub mod commands;
pub mod state;
pub mod watcher;
