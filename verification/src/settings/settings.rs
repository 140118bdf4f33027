use vstd::prelude::*;

use crate::logging::logger::LevelFilter;
use crate::renderer::font_selector::FontSelector;
use crate::steelseries_engine::api::{ApiSettings, TargetOs};
use crate::text::str_eq;

verus! {

/// The program's settings, as the settings script leaves them.
#[derive(Debug)]
pub struct Settings {
    pub animation_ticks_delay: usize,
    pub animation_ticks_rate: usize,
    pub font: FontSelector,
    pub log_level: LevelFilter,
    pub keyboard_ticks_repeat_delay: usize,
    pub keyboard_ticks_repeat_rate: usize,
    pub steelseries_api: ApiSettings,
    /// Milliseconds between update ticks.
    pub update_interval: u64,
}

impl Settings {
    /// The settings before the settings script runs.
    pub fn default(os: TargetOs, program_data: Option<&str>) -> (r: Self)
        ensures
            r.animation_ticks_delay == 8,
            r.animation_ticks_rate == 2,
            r.font is Default,
            r.log_level == LevelFilter::Info,
            r.keyboard_ticks_repeat_delay == 2,
            r.keyboard_ticks_repeat_rate == 2,
            r.update_interval == 100,
            crate::text::option_view(r.steelseries_api.config_path)
                == ApiSettings::spec_default_config_path(os, program_data),
            r.steelseries_api.enabled == (os != TargetOs::Linux),
            r.steelseries_api.register_heartbeat,
            r.steelseries_api.deinitialize_timeout == 15 * crate::steelseries_engine::api::SECOND,
    {
        Settings {
            animation_ticks_delay: 8,
            animation_ticks_rate: 2,
            font: FontSelector::Default,
            log_level: LevelFilter::Info,
            keyboard_ticks_repeat_delay: 2,
            keyboard_ticks_repeat_rate: 2,
            steelseries_api: ApiSettings::default(os, program_data),
            update_interval: 100,
        }
    }

    /// The whole-number setting called `name`, if there is one.
    pub open spec fn spec_usize_setting(&self, name: Seq<char>) -> Option<usize> {
        if name == "animation_ticks_delay"@ {
            Some(self.animation_ticks_delay)
        } else if name == "animation_ticks_rate"@ {
            Some(self.animation_ticks_rate)
        } else if name == "keyboard_ticks_repeat_delay"@ {
            Some(self.keyboard_ticks_repeat_delay)
        } else if name == "keyboard_ticks_repeat_rate"@ {
            Some(self.keyboard_ticks_repeat_rate)
        } else {
            None
        }
    }

    /// Reads the whole-number setting called `name`.
    pub fn usize_setting(&self, name: &str) -> (r: Option<usize>)
        ensures
            r == self.spec_usize_setting(name@),
    {
        if str_eq(name, "animation_ticks_delay") {
            Some(self.animation_ticks_delay)
        } else if str_eq(name, "animation_ticks_rate") {
            Some(self.animation_ticks_rate)
        } else if str_eq(name, "keyboard_ticks_repeat_delay") {
            Some(self.keyboard_ticks_repeat_delay)
        } else if str_eq(name, "keyboard_ticks_repeat_rate") {
            Some(self.keyboard_ticks_repeat_rate)
        } else {
            None
        }
    }
}

/// Each whole-number setting is read under its own field's name.
pub proof fn lemma_usize_setting_reads_its_field(settings: Settings)
    ensures
        settings.spec_usize_setting("animation_ticks_delay"@) == Some(settings.animation_ticks_delay),
        settings.spec_usize_setting("animation_ticks_rate"@) == Some(settings.animation_ticks_rate),
        settings.spec_usize_setting("keyboard_ticks_repeat_delay"@) == Some(
            settings.keyboard_ticks_repeat_delay,
        ),
        settings.spec_usize_setting("keyboard_ticks_repeat_rate"@) == Some(
            settings.keyboard_ticks_repeat_rate,
        ),
{
    reveal_strlit("animation_ticks_delay");
    reveal_strlit("animation_ticks_rate");
    reveal_strlit("keyboard_ticks_repeat_delay");
    reveal_strlit("keyboard_ticks_repeat_rate");
    let d = "animation_ticks_delay"@;
    let r = "animation_ticks_rate"@;
    let kd = "keyboard_ticks_repeat_delay"@;
    let kr = "keyboard_ticks_repeat_rate"@;
    assert(d.len() == 21 && r.len() == 20 && kd.len() == 27 && kr.len() == 26);
    assert(r != d && kd != d && kd != r && kr != d && kr != r && kr != kd);
}

} // verus!
