pub mod plugin_loader;
