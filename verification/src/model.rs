pub mod auth;
pub mod config;
pub mod data;
pub mod store;
