pub mod settings;
pub mod settings_bound;
