pub mod scheduler;
pub mod screen_builder;
pub mod script_data_types;
pub mod environment;
