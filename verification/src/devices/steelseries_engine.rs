pub mod steelseries_engine_device;
