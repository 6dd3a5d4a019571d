pub mod ip_extractor;
pub mod num;
pub mod secret_str;
pub mod text;
pub mod urlenc;
