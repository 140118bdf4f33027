pub mod config;
pub mod configs;
