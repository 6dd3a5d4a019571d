pub mod auth;
pub mod data;
pub mod error;
pub mod keep_alive;
pub mod login;
pub mod logout;
pub mod validate;
