//! Saved game-login profiles and their synchronisation with a WebDAV collection.
pub mod account;
pub mod config;
pub mod error;
pub mod game;
pub mod listing;
pub mod pull;
pub mod push;
pub mod text;
