//! Materializes secrets held in an external password vault onto local disk.
//!
//! The verified core models every filesystem effect as a plan of explicit
//! actions over a ghost filesystem state, drives vault authentication as a
//! state machine, and resolves secrets out of structured vault items with a
//! small navigation query language.

pub mod auth;
pub mod bitwarden;
pub mod config;
pub mod credentials;
pub mod crypto;
pub mod domain;
pub mod email;
pub mod fs;
pub mod json;
pub mod placer;
pub mod password;
pub mod resolver;
pub mod store;
pub mod text;
pub mod url;
