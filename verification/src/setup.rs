pub mod installer;
pub mod logging;
