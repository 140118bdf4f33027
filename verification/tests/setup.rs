use omni_led::constants::configs::{ConfigError, ConfigProviderImpl, ConfigType};
use omni_led::devices::usb_device::usb_device::{USBDeviceSettings, USBSettings};
use omni_led::script_handler::script_data_types::Size;
use omni_led::setup::installer::{
    device_ids, load_supported_devices, sort_devices, supported_device_line, DeviceData, Installer, Message, Screen,
};

fn device(bus: u8, address: u8, vendor: Option<&str>, product: Option<&str>) -> DeviceData {
    DeviceData {
        bus_number: bus,
        address,
        vendor_id: 0x1038,
        product_id: 0x1612,
        vendor: vendor.map(|s| s.to_string()),
        product: product.map(|s| s.to_string()),
    }
}

#[test]
fn screens_go_forward_and_back() {
    assert_eq!(Screen::Welcome.next(), Some(Screen::DeviceSelect));
    assert_eq!(Screen::DeviceSelect.next(), Some(Screen::Settings));
    assert_eq!(Screen::Settings.next(), Some(Screen::Finish));
    assert_eq!(Screen::Finish.next(), None);
    assert_eq!(Screen::Welcome.back(), None);
    assert_eq!(Screen::Finish.back(), Some(Screen::Settings));
    for s in [Screen::Welcome, Screen::DeviceSelect, Screen::Settings, Screen::Finish] {
        if let Some(n) = s.next() {
            assert_eq!(n.back(), Some(s));
        }
    }
}

#[test]
fn installer_flow() {
    let mut installer = Installer::new(vec![device(1, 2, Some("SteelSeries"), None)]);
    assert_eq!(installer.title(), "OmniLED Installer");
    assert!(installer.can_advance());
    assert!(!installer.update(Message::Back));
    assert_eq!(installer.screen, Screen::Welcome);
    assert!(!installer.update(Message::Next));
    assert_eq!(installer.screen, Screen::DeviceSelect);
    assert!(!installer.can_advance());
    installer.update(Message::DeviceSelected(0));
    assert!(installer.can_advance());
    assert_eq!(installer.install_options.device.as_ref().unwrap().vendor.as_deref(), Some("SteelSeries"));
    installer.update(Message::Next);
    installer.update(Message::AutostartToggle(true));
    installer.update(Message::UdevToggle(true));
    assert!(installer.install_options.enable_autostart);
    assert!(installer.install_options.update_udev_rules);
    assert!(installer.update(Message::Next));
    assert_eq!(installer.screen, Screen::Finish);
    assert!(!installer.can_advance());
    // A further Next stays on the last page, which reports the options again.
    assert!(installer.update(Message::Next));
    assert_eq!(installer.screen, Screen::Finish);
}

#[test]
fn device_entry_texts() {
    assert_eq!(device(1, 2, Some("V"), Some("P")).display_name(), "V P");
    assert_eq!(device(1, 2, Some("V"), None).display_name(), "V");
    assert_eq!(device(1, 2, None, Some("P")).display_name(), "P");
    assert_eq!(device(1, 2, None, None).display_name(), "Unknown");
    assert_eq!(device(1, 2, None, None).ids(), "1038:1612");
    assert_eq!(device(1, 23, None, None).bus_address(), "001 023");
    assert_eq!(device(255, 0, None, None).bus_address(), "255 000");
    assert_eq!(device_ids(0xab, 0x1), "00AB:0001");
    assert_eq!(supported_device_line("Apex 7", 0x1038, 0x1612), "  Apex 7 1038:1612");
}

#[test]
fn devices_sorted_by_bus_then_address() {
    let sorted = sort_devices(vec![device(2, 1, None, None), device(1, 9, None, None), device(1, 3, None, None)]);
    let places: Vec<(u8, u8)> = sorted.iter().map(|d| (d.bus_number, d.address)).collect();
    assert_eq!(places, vec![(1, 3), (1, 9), (2, 1)]);
    assert!(sort_devices(vec![]).is_empty());

    let same_place = sort_devices(vec![
        device(3, 3, Some("first"), None),
        device(1, 1, None, None),
        device(3, 3, Some("second"), None),
    ]);
    let vendors: Vec<Option<String>> = same_place.iter().map(|d| d.vendor.clone()).collect();
    assert_eq!(vendors, vec![None, Some("first".to_string()), Some("second".to_string())]);
}

#[test]
fn config_provider_hands_out_once() {
    let mut provider = ConfigProviderImpl::new(vec![
        (ConfigType::Devices, "first".to_string()),
        (ConfigType::Scripts, "scripts".to_string()),
        (ConfigType::Devices, "second".to_string()),
    ]);
    assert_eq!(provider.get_config(ConfigType::Devices), Ok("second".to_string()));
    assert_eq!(provider.get_config(ConfigType::Devices), Err(ConfigError::NotFound));
    assert_eq!(provider.get_config(ConfigType::Settings), Err(ConfigError::NotFound));
    provider.store_config(ConfigType::Devices, "stored");
    assert_eq!(provider.get_config(ConfigType::Devices), Ok("stored".to_string()));
    assert_eq!(provider.get_config(ConfigType::Scripts), Ok("scripts".to_string()));
    assert_eq!(ConfigError::NotFound.message(), "Config not found");
    assert_eq!(ConfigType::Applications.name(), "Applications");
}

#[test]
fn supported_devices_report() {
    let usb = USBSettings {
        vendor_id: 0x1038,
        product_id: 0x1612,
        interface: 0,
        alternate_setting: 0,
        request_type: 0x21,
        request: 0x09,
        value: 0x0300,
        index: 0,
    };
    let apex = USBDeviceSettings {
        name: "SteelSeries Apex 7".to_string(),
        screen_size: Size { width: 128, height: 40 },
        usb_settings: usb,
        memory_layout: None,
    };
    let lines = load_supported_devices(&vec![None, Some(apex)]);
    assert_eq!(lines, vec!["Available USB devices:", "  SteelSeries Apex 7 1038:1612"]);
    assert_eq!(load_supported_devices(&vec![]), vec!["Available USB devices:"]);
}
