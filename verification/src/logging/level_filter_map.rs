use vstd::prelude::*;

use crate::logging::dynamic_filter::FilterMap;
use crate::logging::logger::LevelFilter;

verus! {

/// The log targets that get a filter by default: the program's crates, the configuration
/// scripts, user scripts and plugins.
pub open spec fn default_targets() -> Set<Seq<char>> {
    set![
        "omni_led"@,
        "omni_led_api"@,
        "omni_led_lib"@,
        "devices.lua"@,
        "plugins.lua"@,
        "scripts.lua"@,
        "settings.lua"@,
        "script"@,
        "plugin"@,
    ]
}

/// Builder of the default per-target filter maps.
#[derive(Clone, Debug)]
pub struct LogFilterMap {}

impl LogFilterMap {
    /// The default map at the default level of the build (`Debug` for a debug build,
    /// `Info` otherwise).
    pub fn default(debug_build: bool) -> (r: FilterMap)
        ensures
            forall|k: Seq<char>| #[trigger]
                r.lookup(k) == if default_targets().contains(k) {
                    Some(Self::spec_default_level_filter(debug_build))
                } else {
                    None
                },
    {
        Self::default_filter_map(Self::default_level_filter(debug_build))
    }

    /// The default map with every default target at `level_filter`.
    pub fn default_with(level_filter: LevelFilter) -> (r: FilterMap)
        ensures
            forall|k: Seq<char>| #[trigger]
                r.lookup(k) == if default_targets().contains(k) {
                    Some(level_filter)
                } else {
                    None
                },
    {
        Self::default_filter_map(level_filter)
    }

    fn default_filter_map(level_filter: LevelFilter) -> (r: FilterMap)
        ensures
            forall|k: Seq<char>| #[trigger]
                r.lookup(k) == if default_targets().contains(k) {
                    Some(level_filter)
                } else {
                    None
                },
    {
        let mut map = FilterMap::new();
        map.insert("omni_led", level_filter);
        map.insert("omni_led_api", level_filter);
        map.insert("omni_led_lib", level_filter);
        map.insert("devices.lua", level_filter);
        map.insert("plugins.lua", level_filter);
        map.insert("scripts.lua", level_filter);
        map.insert("settings.lua", level_filter);
        map.insert("script", level_filter);
        map.insert("plugin", level_filter);
        map
    }

    pub open spec fn spec_default_level_filter(debug_build: bool) -> LevelFilter {
        if debug_build {
            LevelFilter::Debug
        } else {
            LevelFilter::Info
        }
    }

    /// `Debug` for a debug build, `Info` otherwise.
    pub fn default_level_filter(debug_build: bool) -> (r: LevelFilter)
        ensures
            r == Self::spec_default_level_filter(debug_build),
    {
        if debug_build {
            LevelFilter::Debug
        } else {
            LevelFilter::Info
        }
    }
}

} // verus!
