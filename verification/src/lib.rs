//! Verified core of a DNS filtering server: rule handling, DNS message
//! transformations, rewrite processing and blocking decisions.

pub mod text;
pub mod rules;
pub mod dns;
pub mod response;
pub mod rewrite;
pub mod blocking;
pub mod cache;
pub mod auth;
pub mod devices;
pub mod events;
pub mod process;
pub mod config;
pub mod lists;
pub mod network;
pub mod stats;
pub mod cli;
pub mod watch;
pub mod frontend;
