//! Recovers plaintext journal data from an exported, encrypted journal archive.
//!
//! The library resolves a user's journal key from a password or backup code,
//! decrypts month documents day by day, and renders them as text. Reading and
//! writing files is left to the caller.

pub mod crypto;
pub mod registry;
pub mod journal;
pub mod render;
pub mod config;
pub mod archive;
pub mod document;
