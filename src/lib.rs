pub mod text;
pub mod error;
pub mod processor;
pub mod config;
