//! Verified core of a donation-tracker overlay: it turns donation, bid and
//! event data into the small text files that a streaming overlay displays,
//! and holds the decisions of the login and websocket-listening loops.

pub mod text;
pub mod decimal;
pub mod dollars;
pub mod config;
pub mod write_file;
pub mod bid;
pub mod donation;
pub mod event;
pub mod websocket;
pub mod listener;
pub mod auth;
pub mod cli;
