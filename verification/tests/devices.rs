use omni_led::devices::devices::{last_path_segment, loader_name, DeviceError, DeviceStatus, Devices};
use omni_led::devices::emulator::emulator::EmulatorSettings;
use omni_led::devices::steelseries_engine::steelseries_engine_device::{
    SteelSeriesEngineDevice, SteelSeriesEngineDeviceSettings,
};
use omni_led::devices::usb_device::parse::{from_hex, from_hex_u16, from_hex_u8, HexError};
use omni_led::devices::usb_device::transform::{
    apply_steelseries_transform, hid_report, select_steelseries_transform, steelseries2_transform,
    steelseries_transform, transform_data, ExtraBytes, SteelSeriesTransform,
};
use omni_led::devices::usb_device::usb_device::{
    find_hid_device, find_usb_device, usb_not_found_message, HidIds, HidSettings, UsbIds,
};
use omni_led::script_handler::script_data_types::{MemoryLayout, Size};
use omni_led::text::alt_hex;

#[test]
fn device_registry_loads_each_device_once() {
    let mut devices: Devices<u32, u8> = Devices::new(vec![("emulator".to_string(), 1), ("usb_device".to_string(), 2)]);
    assert_eq!(devices.device_status("screen"), None);
    assert!(devices.add_configuration("screen".to_string(), "usb_device", 7).is_ok());
    assert_eq!(
        devices.add_configuration("screen".to_string(), "emulator", 8),
        Err(DeviceError::AlreadyRegistered("screen".to_string()))
    );
    assert!(devices.add_configuration("window".to_string(), "emulator", 9).is_ok());
    assert_eq!(devices.device_status("screen"), Some(DeviceStatus::Available));
    assert_eq!(devices.get_available_settings(), vec![&7, &9]);

    assert_eq!(devices.load_device("screen"), Ok((2, 7)));
    assert_eq!(devices.device_status("screen"), Some(DeviceStatus::Loaded));
    assert_eq!(devices.load_device("screen"), Err(DeviceError::AlreadyLoaded("screen".to_string())));
    // The refused second load drops the configuration.
    assert_eq!(devices.device_status("screen"), None);
    assert_eq!(devices.load_device("screen"), Err(DeviceError::NotFound("screen".to_string())));
    assert_eq!(devices.load_device("missing"), Err(DeviceError::NotFound("missing".to_string())));
    assert_eq!(devices.get_available_settings(), vec![&9]);
    assert!(devices.add_configuration("screen".to_string(), "emulator", 10).is_ok());
    assert_eq!(devices.get_available_settings(), vec![&9, &10]);
}

#[test]
fn device_error_messages() {
    assert_eq!(DeviceError::NotFound("x".to_string()).message(), "Device x not found");
    assert_eq!(DeviceError::AlreadyLoaded("x".to_string()).message(), "Device x was already loaded");
    assert_eq!(
        DeviceError::AlreadyRegistered("x".to_string()).message(),
        "Device configuration for 'x' is already registered"
    );
}

#[test]
fn loader_names() {
    assert_eq!(last_path_segment("omni_led_lib::devices::emulator::emulator::Emulator"), "Emulator");
    assert_eq!(last_path_segment("Plain"), "Plain");
    assert_eq!(last_path_segment("a::"), "");
    assert_eq!(loader_name("crate::devices::usb_device::usb_device::USBDevice"), "usb_device");
    assert_eq!(loader_name("crate::x::SteelSeriesEngineDevice"), "steel_series_engine_device");
    assert_eq!(loader_name("crate::x::Emulator"), "emulator");
}

#[test]
fn hex_settings() {
    assert_eq!(from_hex_u16("0x1038"), Ok(0x1038));
    assert_eq!(from_hex_u16("0xFFFF"), Ok(0xFFFF));
    assert_eq!(from_hex_u16("0x+1f"), Ok(0x1f));
    assert_eq!(from_hex_u8("0xff"), Ok(255));
    assert_eq!(from_hex("0xABC", 0xfff), Ok(0xabc));
    assert_eq!(from_hex("0xABC", 0xabb), Err(HexError::Invalid("0xABC".to_string())));
    assert_eq!(from_hex_u16("1038"), Err(HexError::MissingPrefix));
    assert_eq!(from_hex_u8("0x100"), Err(HexError::Invalid("0x100".to_string())));
    assert_eq!(from_hex_u16("0x"), Err(HexError::Invalid("0x".to_string())));
    assert_eq!(from_hex_u16("0xg1"), Err(HexError::Invalid("0xg1".to_string())));
    assert_eq!(HexError::MissingPrefix.message(), "Hex number shall have a 0x prefix");
    assert_eq!(HexError::Invalid("0xz".to_string()).message(), "Could not parse 0xz as hex value");
}

#[test]
fn hex_setting_round_trip() {
    for n in [0u16, 1, 0x1038, 0x12ab, 0xffff] {
        assert_eq!(from_hex_u16(&alt_hex(n as u64, 6)), Ok(n));
        assert_eq!(from_hex_u16(&alt_hex(n as u64, 2)), Ok(n));
    }
    assert_eq!(alt_hex(0x1038, 6), "0x1038");
    assert_eq!(alt_hex(0x1b, 6), "0x001b");
}

#[test]
fn transforms() {
    let extra = ExtraBytes { prepend: vec![1, 2], append: vec![9] };
    assert_eq!(transform_data(&extra, &[5, 6]), vec![1, 2, 5, 6, 9]);
    assert_eq!(steelseries_transform(&[7, 8]), vec![0x61, 7, 8, 0x00]);
    assert_eq!(steelseries2_transform(&[7, 8]), vec![0x0a, 7, 8]);
    assert_eq!(hid_report(vec![3, 4]), vec![0x00, 3, 4]);
    assert_eq!(select_steelseries_transform(MemoryLayout::BitPerPixel), Ok(SteelSeriesTransform::BitPerPixel));
    assert_eq!(
        select_steelseries_transform(MemoryLayout::BitPerPixelVertical),
        Ok(SteelSeriesTransform::BitPerPixelVertical)
    );
    assert_eq!(
        select_steelseries_transform(MemoryLayout::BytePerPixel),
        Err("Not supported for SteelSeries devices")
    );
    assert_eq!(apply_steelseries_transform(SteelSeriesTransform::BitPerPixel, &[1]), vec![0x61, 1, 0]);
    assert_eq!(apply_steelseries_transform(SteelSeriesTransform::BitPerPixelVertical, &[1]), vec![0x0a, 1]);
}

#[test]
fn usb_lookup() {
    let devices = [
        UsbIds { vendor_id: 1, product_id: 2 },
        UsbIds { vendor_id: 0x1038, product_id: 0x1612 },
        UsbIds { vendor_id: 0x1038, product_id: 0x1612 },
    ];
    assert_eq!(find_usb_device(&devices, 0x1038, 0x1612), Some(1));
    assert_eq!(find_usb_device(&devices, 3, 4), None);
    let hids = [
        HidIds { vendor_id: 0x1038, product_id: 0x1612, interface_number: 0 },
        HidIds { vendor_id: 0x1038, product_id: 0x1612, interface_number: 1 },
    ];
    let settings = HidSettings { vendor_id: 0x1038, product_id: 0x1612, interface: 1 };
    assert_eq!(find_hid_device(&hids, settings), Some(1));
    assert_eq!(
        usb_not_found_message(0x1038, 0x12),
        "Failed to match vendor_id 0x1038 and product_id 0x0012"
    );
}

#[test]
fn device_settings() {
    let emulator = EmulatorSettings { screen_size: Size { width: 128, height: 40 }, name: "Emulator".to_string() };
    assert_eq!(emulator.name(), "Emulator");
    assert_eq!(emulator.memory_layout(), MemoryLayout::BytePerPixel);

    let settings = SteelSeriesEngineDeviceSettings { name: "GG".to_string(), screen_size: Size { width: 128, height: 52 } };
    assert_eq!(settings.name(), "GG");
    let device = SteelSeriesEngineDevice::new(settings);
    assert_eq!(device.size(), Size { width: 128, height: 52 });
    assert_eq!(device.name(), "GG");
    assert_eq!(device.memory_layout(), MemoryLayout::BitPerPixel);
}
