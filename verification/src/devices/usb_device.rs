pub mod parse;
pub mod transform;
pub mod usb_device;
