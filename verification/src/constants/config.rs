use vstd::prelude::*;

verus! {

/// The configuration files the program reads from its config directory.
#[derive(Debug, Clone, Copy, PartialEq, Eq, Structural)]
pub enum ConfigType {
    Devices,
    Plugins,
    Scripts,
    Settings,
}

impl ConfigType {
    pub open spec fn spec_filename(self) -> Seq<char> {
        match self {
            ConfigType::Devices => "devices.lua"@,
            ConfigType::Plugins => "plugins.lua"@,
            ConfigType::Scripts => "scripts.lua"@,
            ConfigType::Settings => "settings.lua"@,
        }
    }

    /// The file name of this configuration, also the name its chunk runs under.
    pub fn get_filename(&self) -> (r: &'static str)
        ensures
            r@ == self.spec_filename(),
    {
        match self {
            ConfigType::Devices => "devices.lua",
            ConfigType::Plugins => "plugins.lua",
            ConfigType::Scripts => "scripts.lua",
            ConfigType::Settings => "settings.lua",
        }
    }

    /// Every configuration, in the order the default files are written.
    pub fn all() -> (r: [ConfigType; 4])
        ensures
            r@ == seq![ConfigType::Devices, ConfigType::Plugins, ConfigType::Scripts, ConfigType::Settings],
    {
        [ConfigType::Devices, ConfigType::Plugins, ConfigType::Scripts, ConfigType::Settings]
    }
}

/// Different configurations have different file names.
pub proof fn lemma_filenames_distinct(a: ConfigType, b: ConfigType)
    requires
        a != b,
    ensures
        a.spec_filename() != b.spec_filename(),
{
    reveal_strlit("devices.lua");
    reveal_strlit("plugins.lua");
    reveal_strlit("scripts.lua");
    reveal_strlit("settings.lua");
    assert("devices.lua"@[0] != "plugins.lua"@[0]);
    assert("devices.lua"@[0] != "scripts.lua"@[0]);
    assert("devices.lua"@[0] != "settings.lua"@[0]);
    assert("plugins.lua"@[0] != "scripts.lua"@[0]);
    assert("plugins.lua"@[0] != "settings.lua"@[0]);
    assert("scripts.lua"@[1] != "settings.lua"@[1]);
}

} // verus!
