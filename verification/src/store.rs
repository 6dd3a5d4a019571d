pub mod encryptor;
pub mod kv;
pub mod memory;
