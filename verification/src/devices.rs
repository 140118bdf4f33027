pub mod devices;
pub mod usb_device;
pub mod emulator;
pub mod steelseries_engine;
