pub mod dynamic_filter;
pub mod level_filter_map;
pub mod logger;
