//! Verified core of a keyboard-driven terminal client for browsing and playing anime.

pub mod app;
pub mod cache;
pub mod cli;
pub mod codec;
pub mod config;
pub mod database;
pub mod errors;
pub mod images;
pub mod input;
pub mod json;
pub mod models;
pub mod number;
pub mod order;
pub mod player;
pub mod provider;
pub mod resolver;
pub mod seconds;
pub mod terminal;
pub mod text;
pub mod ui;
