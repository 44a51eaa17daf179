//! A verified core for a local GitHub notifications app.
pub mod api;
pub mod assets;
pub mod auth;
pub mod config;
pub mod db;
pub mod github;
pub mod html;
pub mod http;
pub mod json;
pub mod models;
pub mod server;
pub mod sync;
pub mod text;
pub mod time;
pub mod views;
