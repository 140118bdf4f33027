use vstd::prelude::*;

use crate::script_handler::script_data_types::{MemoryLayout, Size};
use crate::text::{alt_hex, concat, hex, zero_padded};

verus! {

/// How to reach a USB device and which control transfer carries a frame.
#[derive(Debug, Clone, Copy, PartialEq, Eq, Structural)]
pub struct USBSettings {
    pub vendor_id: u16,
    pub product_id: u16,
    pub interface: u8,
    pub alternate_setting: u8,
    pub request_type: u8,
    pub request: u8,
    pub value: u16,
    pub index: u16,
}

/// How to reach a HID device.
#[derive(Debug, Clone, Copy, PartialEq, Eq, Structural)]
pub struct HidSettings {
    pub vendor_id: u16,
    pub product_id: u16,
    pub interface: u8,
}

/// The identifiers a USB device reports.
#[derive(Debug, Clone, Copy, PartialEq, Eq, Structural)]
pub struct UsbIds {
    pub vendor_id: u16,
    pub product_id: u16,
}

/// The identifiers a HID device reports.
#[derive(Debug, Clone, Copy, PartialEq, Eq, Structural)]
pub struct HidIds {
    pub vendor_id: u16,
    pub product_id: u16,
    pub interface_number: i32,
}

/// The first device with the given vendor and product id.
pub fn find_usb_device(devices: &[UsbIds], vendor_id: u16, product_id: u16) -> (r: Option<usize>)
    ensures
        match r {
            Some(i) => i < devices@.len() && devices@[i as int].vendor_id == vendor_id
                && devices@[i as int].product_id == product_id && forall|j: int|
                0 <= j < i ==> !(#[trigger] devices@[j].vendor_id == vendor_id
                    && devices@[j].product_id == product_id),
            None => forall|j: int|
                0 <= j < devices@.len() ==> !(#[trigger] devices@[j].vendor_id == vendor_id
                    && devices@[j].product_id == product_id),
        },
{
    let mut i: usize = 0;
    while i < devices.len()
        invariant
            i <= devices@.len(),
            forall|j: int|
                0 <= j < i ==> !(#[trigger] devices@[j].vendor_id == vendor_id
                    && devices@[j].product_id == product_id),
        decreases devices@.len() - i,
    {
        if devices[i].vendor_id == vendor_id && devices[i].product_id == product_id {
            return Some(i);
        }
        i = i + 1;
    }
    None
}

/// The first HID device with the given vendor id, product id and interface number.
pub fn find_hid_device(devices: &[HidIds], settings: HidSettings) -> (r: Option<usize>)
    ensures
        match r {
            Some(i) => i < devices@.len() && devices@[i as int].vendor_id == settings.vendor_id
                && devices@[i as int].product_id == settings.product_id
                && devices@[i as int].interface_number == settings.interface as i32 && forall|
                j: int,
            |
                0 <= j < i ==> !(#[trigger] devices@[j].vendor_id == settings.vendor_id
                    && devices@[j].product_id == settings.product_id
                    && devices@[j].interface_number == settings.interface as i32),
            None => forall|j: int|
                0 <= j < devices@.len() ==> !(#[trigger] devices@[j].vendor_id == settings.vendor_id
                    && devices@[j].product_id == settings.product_id
                    && devices@[j].interface_number == settings.interface as i32),
        },
{
    let mut i: usize = 0;
    let interface = settings.interface as i32;
    while i < devices.len()
        invariant
            i <= devices@.len(),
            interface == settings.interface as i32,
            forall|j: int|
                0 <= j < i ==> !(#[trigger] devices@[j].vendor_id == settings.vendor_id
                    && devices@[j].product_id == settings.product_id
                    && devices@[j].interface_number == settings.interface as i32),
        decreases devices@.len() - i,
    {
        if devices[i].vendor_id == settings.vendor_id && devices[i].product_id == settings.product_id
            && devices[i].interface_number == interface {
            return Some(i);
        }
        i = i + 1;
    }
    None
}

/// The message when no USB device matches: `Failed to match vendor_id 0x1038 and
/// product_id 0x1612`.
pub fn usb_not_found_message(vendor_id: u16, product_id: u16) -> (r: String)
    ensures
        r@ == "Failed to match vendor_id "@ + "0x"@ + zero_padded(hex(vendor_id as nat, false), 4)
            + " and product_id "@ + "0x"@ + zero_padded(hex(product_id as nat, false), 4),
{
    let v = alt_hex(vendor_id as u64, 6);
    let p = alt_hex(product_id as u64, 6);
    let mut r = concat("Failed to match vendor_id ", v.as_str());
    r.append(" and product_id ");
    r.append(p.as_str());
    r
}

/// A device whose frames go out as USB control transfers.
#[derive(Debug, Clone)]
pub struct USBDeviceSettings {
    pub name: String,
    pub screen_size: Size,
    pub usb_settings: USBSettings,
    pub memory_layout: Option<MemoryLayout>,
}

/// A device whose frames go out as HID feature reports.
#[derive(Debug, Clone)]
pub struct HidDeviceSettings {
    pub name: String,
    pub screen_size: Size,
    pub hid_settings: HidSettings,
    pub memory_layout: Option<MemoryLayout>,
}

} // verus!
