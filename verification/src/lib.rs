//! Verified core of a terminal downloader and updater for Minecraft server
//! plugins: version ordering, loader and version selection, download plans,
//! the install manifest, progress text and the decisions of the terminal
//! selection screens.

pub mod text;
pub mod tui;
pub mod catalog;
pub mod cli;
pub mod config;
pub mod downloader;
pub mod http;
pub mod models;
pub mod order;
pub mod progress;
pub mod providers;
pub mod report;
pub mod version;
