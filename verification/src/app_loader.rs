pub mod app_loader;
