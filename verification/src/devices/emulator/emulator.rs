use vstd::prelude::*;

use crate::script_handler::script_data_types::{MemoryLayout, Size};

verus! {

/// The configuration of an emulated screen, shown in a window of its own.
#[derive(Debug)]
pub struct EmulatorSettings {
    pub screen_size: Size,
    pub name: String,
}

impl EmulatorSettings {
    /// The name the emulated device is configured under.
    pub fn name(&self) -> (r: String)
        ensures
            r@ == self.name@,
    {
        String::from_str(self.name.as_str())
    }

    /// An emulated screen takes a byte for each pixel.
    pub fn memory_layout(&self) -> (r: MemoryLayout)
        ensures
            r == MemoryLayout::BytePerPixel,
    {
        MemoryLayout::BytePerPixel
    }
}

} // verus!
