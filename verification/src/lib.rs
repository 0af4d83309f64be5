//! A bridge between HTTP clients and a browser extension.
pub mod api;
pub mod channels;
pub mod config;
pub mod json;
pub mod protocol;
pub mod state;
pub mod text;
