//! A matchmaking and signaling server for peer-to-peer sessions.

pub mod announcements;
pub mod config;
pub mod handlers;
pub mod hub;
pub mod models;
pub mod pb;
pub mod text;
