use vstd::prelude::*;

use crate::devices::usb_device::usb_device::USBDeviceSettings;
use crate::events::dispatch::views;
use crate::text::{concat, concat3, decimal, decimal_string, hex, hex_string, option_view, pad_zeros, zero_padded};

verus! {

/// The pages of the installer, in the order they are shown.
#[derive(Debug, Clone, Copy, PartialEq, Eq, Structural)]
pub enum Screen {
    Welcome,
    DeviceSelect,
    Settings,
    Finish,
}

/// The position of a page in the order the installer shows them.
pub open spec fn screen_index(s: Screen) -> int {
    match s {
        Screen::Welcome => 0,
        Screen::DeviceSelect => 1,
        Screen::Settings => 2,
        Screen::Finish => 3,
    }
}

impl Screen {
    /// The page after this one; none after the last.
    pub fn next(self) -> (r: Option<Screen>)
        ensures
            r == self.next_spec(),
            match r {
                Some(n) => screen_index(n) == screen_index(self) + 1,
                None => screen_index(self) == 3,
            },
    {
        match self {
            Screen::Welcome => Some(Screen::DeviceSelect),
            Screen::DeviceSelect => Some(Screen::Settings),
            Screen::Settings => Some(Screen::Finish),
            Screen::Finish => None,
        }
    }

    /// The page before this one; none before the first.
    pub fn back(self) -> (r: Option<Screen>)
        ensures
            r == self.back_spec(),
            match r {
                Some(b) => screen_index(b) == screen_index(self) - 1,
                None => screen_index(self) == 0,
            },
    {
        match self {
            Screen::Welcome => None,
            Screen::DeviceSelect => Some(Screen::Welcome),
            Screen::Settings => Some(Screen::DeviceSelect),
            Screen::Finish => Some(Screen::Settings),
        }
    }
}

/// A USB device found on the machine.
#[derive(Debug)]
pub struct DeviceData {
    pub bus_number: u8,
    pub address: u8,
    pub vendor_id: u16,
    pub product_id: u16,
    pub vendor: Option<String>,
    pub product: Option<String>,
}

/// Whether two device descriptions say the same.
pub open spec fn same_device(a: DeviceData, b: DeviceData) -> bool {
    &&& a.bus_number == b.bus_number
    &&& a.address == b.address
    &&& a.vendor_id == b.vendor_id
    &&& a.product_id == b.product_id
    &&& option_view(a.vendor) == option_view(b.vendor)
    &&& option_view(a.product) == option_view(b.product)
}

/// Where a device sits on the buses: devices are listed in this order.
pub open spec fn device_key(d: DeviceData) -> int {
    d.bus_number * 256 + d.address
}

/// The name a device is listed under: its vendor and product, whichever are known.
pub open spec fn spec_device_name(vendor: Option<Seq<char>>, product: Option<Seq<char>>) -> Seq<
    char,
> {
    match (vendor, product) {
        (Some(v), Some(p)) => v + " "@ + p,
        (Some(v), None) => v,
        (None, Some(p)) => p,
        (None, None) => "Unknown"@,
    }
}

/// `vendor:product` in four upper-case hexadecimal digits each.
pub open spec fn spec_device_ids(vendor_id: u16, product_id: u16) -> Seq<char> {
    zero_padded(hex(vendor_id as nat, true), 4) + ":"@ + zero_padded(hex(product_id as nat, true), 4)
}

/// `bus address` in three decimal digits each.
pub open spec fn spec_device_address(bus_number: u8, address: u8) -> Seq<char> {
    zero_padded(decimal(bus_number as nat), 3) + " "@ + zero_padded(decimal(address as nat), 3)
}

fn copy_text(s: &Option<String>) -> (r: Option<String>)
    ensures
        option_view(r) == option_view(*s),
{
    match s {
        Some(t) => Some(String::from_str(t.as_str())),
        None => None,
    }
}

impl DeviceData {
    /// A description that says the same.
    pub fn duplicate(&self) -> (r: DeviceData)
        ensures
            same_device(r, *self),
    {
        DeviceData {
            bus_number: self.bus_number,
            address: self.address,
            vendor_id: self.vendor_id,
            product_id: self.product_id,
            vendor: copy_text(&self.vendor),
            product: copy_text(&self.product),
        }
    }

    /// The name the device is listed under.
    pub fn display_name(&self) -> (r: String)
        ensures
            r@ == spec_device_name(option_view(self.vendor), option_view(self.product)),
    {
        match (&self.vendor, &self.product) {
            (Some(vendor), Some(product)) => concat3(vendor.as_str(), " ", product.as_str()),
            (Some(vendor), None) => String::from_str(vendor.as_str()),
            (None, Some(product)) => String::from_str(product.as_str()),
            (None, None) => String::from_str("Unknown"),
        }
    }

    /// The vendor and product ids, as `VVVV:PPPP`.
    pub fn ids(&self) -> (r: String)
        ensures
            r@ == spec_device_ids(self.vendor_id, self.product_id),
    {
        device_ids(self.vendor_id, self.product_id)
    }

    /// The bus and address, as `BBB AAA`.
    pub fn bus_address(&self) -> (r: String)
        ensures
            r@ == spec_device_address(self.bus_number, self.address),
    {
        let bus = pad_zeros(decimal_string(self.bus_number as u64).as_str(), 3);
        let address = pad_zeros(decimal_string(self.address as u64).as_str(), 3);
        concat3(bus.as_str(), " ", address.as_str())
    }
}

/// `vendor:product` in four upper-case hexadecimal digits each.
pub fn device_ids(vendor_id: u16, product_id: u16) -> (r: String)
    ensures
        r@ == spec_device_ids(vendor_id, product_id),
{
    let vendor = pad_zeros(hex_string(vendor_id as u64, true).as_str(), 4);
    let product = pad_zeros(hex_string(product_id as u64, true).as_str(), 4);
    concat3(vendor.as_str(), ":", product.as_str())
}

/// The line a supported device is listed with: `  name VVVV:PPPP`.
pub fn supported_device_line(name: &str, vendor_id: u16, product_id: u16) -> (r: String)
    ensures
        r@ == "  "@ + name@ + " "@ + spec_device_ids(vendor_id, product_id),
{
    let ids = device_ids(vendor_id, product_id);
    let head = concat3("  ", name, " ");
    concat(head.as_str(), ids.as_str())
}

/// The report lines for the supported devices, from the device settings that read as
/// USB device settings (`None` for those that did not): a heading, then one line per
/// device.
pub open spec fn spec_supported_report(settings: Seq<Option<USBDeviceSettings>>) -> Seq<Seq<char>>
    decreases settings.len(),
{
    if settings.len() == 0 {
        seq!["Available USB devices:"@]
    } else {
        let rest = spec_supported_report(settings.drop_last());
        match settings.last() {
            Some(s) => rest.push(
                "  "@ + s.name@ + " "@ + spec_device_ids(
                    s.usb_settings.vendor_id,
                    s.usb_settings.product_id,
                ),
            ),
            None => rest,
        }
    }
}

/// What the installer reports of the devices it supports.
pub fn load_supported_devices(settings: &Vec<Option<USBDeviceSettings>>) -> (r: Vec<String>)
    ensures
        views(r@) == spec_supported_report(settings@),
{
    let mut r: Vec<String> = Vec::new();
    r.push(String::from_str("Available USB devices:"));
    let mut i: usize = 0;
    assert(settings@.take(0) =~= Seq::<Option<USBDeviceSettings>>::empty());
    assert(views(r@) =~= seq!["Available USB devices:"@]);
    while i < settings.len()
        invariant
            i <= settings@.len(),
            views(r@) == spec_supported_report(settings@.take(i as int)),
        decreases settings@.len() - i,
    {
        assert(settings@.take(i + 1).drop_last() =~= settings@.take(i as int));
        match &settings[i] {
            Some(s) => {
                let ghost before = r@;
                let line = supported_device_line(
                    s.name.as_str(),
                    s.usb_settings.vendor_id,
                    s.usb_settings.product_id,
                );
                r.push(line);
                assert(views(r@) =~= views(before).push(line@));
            },
            None => {},
        }
        i = i + 1;
    }
    assert(settings@.take(settings@.len() as int) =~= settings@);
    r
}

/// Whether the keys of `s` never decrease.
pub open spec fn sorted_by_key(s: Seq<DeviceData>) -> bool {
    forall|i: int, j: int| 0 <= i < j < s.len() ==> device_key(s[i]) <= device_key(s[j])
}

/// Whether a device sits at place `c` (see `device_key`).
pub open spec fn at_place(c: int) -> spec_fn(DeviceData) -> bool {
    |d: DeviceData| device_key(d) == c
}

/// No device in `s` sits at place `c`.
proof fn lemma_none_at_place(s: Seq<DeviceData>, c: int)
    requires
        forall|i: int| 0 <= i < s.len() ==> device_key(#[trigger] s[i]) != c,
    ensures
        s.filter(at_place(c)) == Seq::<DeviceData>::empty(),
{
    if s.filter(at_place(c)).len() > 0 {
        let x = s.filter(at_place(c))[0];
        s.lemma_filter_pred(at_place(c), 0);
        assert(s.filter(at_place(c)).contains(x));
        s.lemma_filter_contains_rev(at_place(c), x);
    }
    assert(s.filter(at_place(c)) =~= Seq::<DeviceData>::empty());
}

/// The devices ordered by bus and then by address; devices at the same place keep the
/// order they were given in.
pub fn sort_devices(devices: Vec<DeviceData>) -> (r: Vec<DeviceData>)
    ensures
        sorted_by_key(r@),
        r@.to_multiset() == devices@.to_multiset(),
        forall|c: int| #[trigger] r@.filter(at_place(c)) == devices@.filter(at_place(c)),
{
    let ghost input = devices@;
    let mut rest = devices;
    let mut out: Vec<DeviceData> = Vec::new();
    let ghost mut k: int = 0;
    assert(out@ =~= input.take(0));
    while rest.len() > 0
        invariant
            0 <= k <= input.len(),
            rest@ == input.skip(k),
            sorted_by_key(out@),
            out@.to_multiset() == input.take(k).to_multiset(),
            forall|c: int| #[trigger] out@.filter(at_place(c)) == input.take(k).filter(at_place(c)),
        decreases rest@.len(),
    {
        let d = rest.remove(0);
        assert(d == input[k]);
        let key: u32 = d.bus_number as u32 * 256 + d.address as u32;
        let mut pos: usize = 0;
        while pos < out.len()
            invariant
                pos <= out@.len(),
                key == device_key(d),
                forall|j: int| 0 <= j < pos ==> device_key(#[trigger] out@[j]) <= key,
            ensures
                pos <= out@.len(),
                forall|j: int| 0 <= j < pos ==> device_key(#[trigger] out@[j]) <= key,
                pos < out@.len() ==> device_key(out@[pos as int]) > key,
            decreases out@.len() - pos,
        {
            let here: u32 = out[pos].bus_number as u32 * 256 + out[pos].address as u32;
            if here > key {
                break;
            }
            pos = pos + 1;
        }
        let ghost before = out@;
        out.insert(pos, d);
        proof {
            assert(out@ =~= before.take(pos as int) + seq![d] + before.skip(pos as int));
            vstd::seq_lib::lemma_multiset_commutative(before.take(pos as int), seq![d]);
            vstd::seq_lib::lemma_multiset_commutative(
                before.take(pos as int) + seq![d],
                before.skip(pos as int),
            );
            vstd::seq_lib::lemma_multiset_commutative(
                before.take(pos as int),
                before.skip(pos as int),
            );
            assert(before.take(pos as int) + before.skip(pos as int) =~= before);
            assert(input.take(k + 1) =~= input.take(k).push(d));
            vstd::seq_lib::lemma_multiset_commutative(input.take(k), seq![d]);
            assert(input.take(k) + seq![d] =~= input.take(k).push(d));
            assert(input.skip(k + 1) =~= input.skip(k).drop_first());
            let a = before.take(pos as int);
            let b = before.skip(pos as int);
            assert forall|c: int| #[trigger] out@.filter(at_place(c)) == input.take(k + 1).filter(
                at_place(c),
            ) by {
                Seq::filter_distributes_over_add(a + seq![d], b, at_place(c));
                Seq::filter_distributes_over_add(a, seq![d], at_place(c));
                Seq::filter_distributes_over_add(a, b, at_place(c));
                input.take(k).lemma_filter_push(d, at_place(c));
                a.lemma_filter_push(d, at_place(c));
                assert(a + seq![d] =~= a.push(d));
                assert(seq![d].filter(at_place(c)) =~= Seq::<DeviceData>::empty().push(d).filter(
                    at_place(c),
                ));
                Seq::<DeviceData>::empty().lemma_filter_push(d, at_place(c));
                assert(Seq::<DeviceData>::empty().filter(at_place(c)) =~= Seq::<DeviceData>::empty())
                    by {
                    reveal(Seq::filter);
                }
                if c == device_key(d) {
                    assert forall|i: int| 0 <= i < b.len() implies device_key(#[trigger] b[i]) != c by {
                        assert(b[i] == before[pos + i]);
                    }
                    lemma_none_at_place(b, c);
                }
            }
            k = k + 1;
        }
        assert(rest@ =~= input.skip(k));
    }
    assert(input.take(k) =~= input);
    out
}

/// What the user chose so far.
#[derive(Debug)]
pub struct InstallOptions {
    pub device: Option<DeviceData>,
    pub enable_autostart: bool,
    pub update_udev_rules: bool,
}

/// What the user did on a page.
#[derive(Debug, Clone, Copy, PartialEq, Eq, Structural)]
pub enum Message {
    Back,
    Next,
    DeviceSelected(usize),
    AutostartToggle(bool),
    UdevToggle(bool),
}

/// The installer's state: the devices found, the one chosen, the page shown and the
/// options chosen.
pub struct Installer {
    pub devices: Vec<DeviceData>,
    pub selected_device: Option<usize>,
    pub screen: Screen,
    pub install_options: InstallOptions,
}

impl Installer {
    /// A new installer on its first page, over the devices found, nothing chosen.
    pub fn new(devices: Vec<DeviceData>) -> (r: Self)
        ensures
            r.devices@ == devices@,
            r.selected_device is None,
            r.screen == Screen::Welcome,
            r.install_options.device is None,
            !r.install_options.enable_autostart,
            !r.install_options.update_udev_rules,
    {
        Installer {
            devices,
            selected_device: None,
            screen: Screen::Welcome,
            install_options: InstallOptions {
                device: None,
                enable_autostart: false,
                update_udev_rules: false,
            },
        }
    }

    /// The title of the installer window.
    pub fn title(&self) -> (r: String)
        ensures
            r@ == "OmniLED Installer"@,
    {
        String::from_str("OmniLED Installer")
    }

    /// Whether the page shown lets the user go on: the device page only once a device is
    /// chosen, and the last page never.
    pub fn can_advance(&self) -> (r: bool)
        ensures
            r == match self.screen {
                Screen::Welcome => true,
                Screen::DeviceSelect => self.selected_device is Some,
                Screen::Settings => true,
                Screen::Finish => false,
            },
    {
        match self.screen {
            Screen::Welcome => true,
            Screen::DeviceSelect => self.selected_device.is_some(),
            Screen::Settings => true,
            Screen::Finish => false,
        }
    }

    /// Takes the user's action into account; says whether the last page was just reached,
    /// when the options chosen are reported.
    pub fn update(&mut self, message: Message) -> (r: bool)
        requires
            message matches Message::DeviceSelected(i) ==> i < old(self).devices@.len(),
        ensures
            final(self).devices@ == old(self).devices@,
            r == (message == Message::Next && final(self).screen == Screen::Finish),
            match message {
                Message::Back => final(self).screen == (match old(self).screen.back_spec() {
                    Some(s) => s,
                    None => old(self).screen,
                }) && final(self).selected_device == old(self).selected_device
                    && final(self).install_options == old(self).install_options,
                Message::Next => final(self).screen == (match old(self).screen.next_spec() {
                    Some(s) => s,
                    None => old(self).screen,
                }) && final(self).selected_device == old(self).selected_device
                    && final(self).install_options == old(self).install_options,
                Message::DeviceSelected(i) => final(self).selected_device == Some(i)
                    && final(self).screen == old(self).screen
                    && (final(self).install_options.device matches Some(d) && same_device(
                    d,
                    old(self).devices@[i as int],
                ))
                    && final(self).install_options.enable_autostart == old(
                    self,
                ).install_options.enable_autostart
                    && final(self).install_options.update_udev_rules == old(
                    self,
                ).install_options.update_udev_rules,
                Message::AutostartToggle(v) => final(self).install_options.enable_autostart == v
                    && final(self).screen == old(self).screen && final(self).selected_device == old(
                    self,
                ).selected_device && final(self).install_options.update_udev_rules == old(
                    self,
                ).install_options.update_udev_rules && final(self).install_options.device == old(
                    self,
                ).install_options.device,
                Message::UdevToggle(v) => final(self).install_options.update_udev_rules == v
                    && final(self).screen == old(self).screen && final(self).selected_device == old(
                    self,
                ).selected_device && final(self).install_options.enable_autostart == old(
                    self,
                ).install_options.enable_autostart && final(self).install_options.device == old(
                    self,
                ).install_options.device,
            },
    {
        match message {
            Message::Back => {
                self.screen = match self.screen.back() {
                    Some(s) => s,
                    None => self.screen,
                };
                false
            },
            Message::Next => {
                self.screen = match self.screen.next() {
                    Some(s) => s,
                    None => self.screen,
                };
                self.screen == Screen::Finish
            },
            Message::DeviceSelected(index) => {
                self.selected_device = Some(index);
                self.install_options.device = Some(self.devices[index].duplicate());
                false
            },
            Message::AutostartToggle(value) => {
                self.install_options.enable_autostart = value;
                false
            },
            Message::UdevToggle(value) => {
                self.install_options.update_udev_rules = value;
                false
            },
        }
    }
}

impl Screen {
    /// The page after this one, as a specification sees it.
    pub open spec fn next_spec(self) -> Option<Screen> {
        match self {
            Screen::Welcome => Some(Screen::DeviceSelect),
            Screen::DeviceSelect => Some(Screen::Settings),
            Screen::Settings => Some(Screen::Finish),
            Screen::Finish => None,
        }
    }

    /// The page before this one, as a specification sees it.
    pub open spec fn back_spec(self) -> Option<Screen> {
        match self {
            Screen::Welcome => None,
            Screen::DeviceSelect => Some(Screen::Welcome),
            Screen::Settings => Some(Screen::DeviceSelect),
            Screen::Finish => Some(Screen::Settings),
        }
    }
}

/// Going on to the next page and back returns to the page one started from, and so does
/// going back and on again.
pub proof fn lemma_next_back_inverse(s: Screen)
    ensures
        s.next_spec() matches Some(n) ==> n.back_spec() == Some(s),
        s.back_spec() matches Some(b) ==> b.next_spec() == Some(s),
{
}

} // verus!
