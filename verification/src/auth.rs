pub mod admin3ws;
pub mod combined;
pub mod sample;
