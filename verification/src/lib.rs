//! Decision and text logic of Demido Studio, with contracts.

// Shared vocabulary.
pub mod order;
pub mod pattern;
pub mod text;
pub mod textmap;

// Models and what they can do.
pub mod caps;
pub mod engine;
pub mod hf;
pub mod library;
pub mod python;
pub mod reported;

// A chat turn.
pub mod artifacts;
pub mod caveman;
pub mod chunking;
pub mod compat;
pub mod providers;
pub mod reasoning;
pub mod replies;
pub mod stream;
pub mod turn;

// Tools and their permissions.
pub mod agent;
pub mod graphify;
pub mod mcp;
pub mod permissions;
pub mod tooldefs;
pub mod tools;
pub mod workspace;

// Accounts, storage and the app around them.
pub mod boot;
pub mod cli;
pub mod db;
pub mod export;
pub mod google;
pub mod oauth;
pub mod references;
pub mod secrets;
