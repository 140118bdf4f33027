use vstd::prelude::*;

use crate::script_handler::script_data_types::{MemoryLayout, Size};

verus! {

/// The configuration of a screen driven through SteelSeries Engine.
#[derive(Debug)]
pub struct SteelSeriesEngineDeviceSettings {
    pub name: String,
    pub screen_size: Size,
}

impl SteelSeriesEngineDeviceSettings {
    /// The name the device is configured under.
    pub fn name(&self) -> (r: String)
        ensures
            r@ == self.name@,
    {
        String::from_str(self.name.as_str())
    }
}

/// A screen driven through SteelSeries Engine.
#[derive(Debug)]
pub struct SteelSeriesEngineDevice {
    name: String,
    size: Size,
}

impl SteelSeriesEngineDevice {
    pub closed spec fn spec_name(&self) -> Seq<char> {
        self.name@
    }

    pub closed spec fn spec_size(&self) -> Size {
        self.size
    }

    /// The device of `settings`.
    pub fn new(settings: SteelSeriesEngineDeviceSettings) -> (r: Self)
        ensures
            r.spec_name() == settings.name@,
            r.spec_size() == settings.screen_size,
    {
        SteelSeriesEngineDevice { name: settings.name, size: settings.screen_size }
    }

    pub fn size(&self) -> (r: Size)
        ensures
            r == self.spec_size(),
    {
        self.size
    }

    pub fn name(&self) -> (r: String)
        ensures
            r@ == self.spec_name(),
    {
        String::from_str(self.name.as_str())
    }

    /// The engine takes a bit for each pixel, row by row.
    pub fn memory_layout(&self) -> (r: MemoryLayout)
        ensures
            r == MemoryLayout::BitPerPixel,
    {
        MemoryLayout::BitPerPixel
    }
}

} // verus!
