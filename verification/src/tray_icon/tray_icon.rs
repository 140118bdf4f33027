use vstd::prelude::*;

use crate::text::str_eq;

verus! {

/// What an entry of the tray menu asks for.
#[derive(Debug, Clone, Copy, PartialEq, Eq, Structural)]
pub enum TrayEvent {
    /// Show the configuration directory.
    Config,
    /// Show the license.
    License,
    /// Quit the program.
    Quit,
}

/// The tooltip of the tray icon.
pub const TITLE: &'static str = "OmniLED";

/// Side of the square placeholder icon, in pixels.
pub const ICON_SIZE: usize = 64;

/// The tray icon of the program.
pub struct TrayIcon;

impl TrayIcon {
    /// The event of the menu entry with id `id` (the entries are `Config`, `License` and
    /// `Quit`, in that order); other ids are ignored.
    pub fn event_for(id: &str) -> (r: Option<TrayEvent>)
        ensures
            id@ == "Config"@ ==> r == Some(TrayEvent::Config),
            id@ == "License"@ ==> r == Some(TrayEvent::License),
            id@ == "Quit"@ ==> r == Some(TrayEvent::Quit),
            id@ != "Config"@ && id@ != "License"@ && id@ != "Quit"@ ==> r is None,
    {
        proof {
            reveal_strlit("Config");
            reveal_strlit("License");
            reveal_strlit("Quit");
            assert("Config"@.len() != "License"@.len());
            assert("Config"@.len() != "Quit"@.len());
            assert("License"@.len() != "Quit"@.len());
        }
        if str_eq(id, "Config") {
            Some(TrayEvent::Config)
        } else if str_eq(id, "License") {
            Some(TrayEvent::License)
        } else if str_eq(id, "Quit") {
            Some(TrayEvent::Quit)
        } else {
            None
        }
    }

    /// A plain white square icon: its RGBA bytes, width and height.
    pub fn load_icon() -> (r: (Vec<u8>, u32, u32))
        ensures
            r.0@ == Seq::new((4 * ICON_SIZE * ICON_SIZE) as nat, |i: int| 0xFFu8),
            r.1 == ICON_SIZE,
            r.2 == ICON_SIZE,
    {
        let n: usize = 4 * ICON_SIZE * ICON_SIZE;
        let mut bytes: Vec<u8> = Vec::new();
        let mut i: usize = 0;
        while i < n
            invariant
                n == 4 * ICON_SIZE * ICON_SIZE,
                i <= n,
                bytes@ == Seq::new(i as nat, |j: int| 0xFFu8),
            decreases n - i,
        {
            bytes.push(0xFF);
            i = i + 1;
        }
        (bytes, 64, 64)
    }
}

} // verus!
