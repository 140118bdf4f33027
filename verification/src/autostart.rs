use vstd::prelude::*;
use vstd::string::StringExecFns;

verus! {

/// Starting the program with the desktop session: the entry that does it, and where it
/// goes.
pub struct AutoStart;

/// What toggling the autostart entry does.
#[derive(Debug, Clone, Copy, PartialEq, Eq, Structural)]
pub enum ToggleAction {
    /// Write the entry.
    Enable,
    /// Remove the entry.
    Disable,
}

/// The directory under which the autostart directory lies.
#[derive(Debug, Clone, PartialEq, Eq)]
pub enum AutostartBase {
    /// `$XDG_CONFIG_HOME`, which holds `autostart` itself.
    ConfigHome(String),
    /// `$HOME`, which holds `.config/autostart`.
    Home(String),
}

/// The lines of the desktop entry that starts `exe_path`.
pub open spec fn spec_desktop_file_content(exe_path: Seq<char>) -> Seq<char> {
    "[Desktop Entry]\n"@ + "Exec="@ + exe_path + "\n"@ + "Name=OmniLED\n"@ + "Terminal=False\n"@
        + "Type=Application\n"@
}

/// The launch agent property list that starts `exe_path` at login.
pub open spec fn spec_plist_file_content(exe_path: Seq<char>) -> Seq<char> {
    "<?xml version=\"1.0\" encoding=\"UTF-8\"?>\n"@
        + "<!DOCTYPE plist PUBLIC \"-//Apple//DTD PLIST 1.0//EN\" \"http://www.apple.com/DTDs/PropertyList-1.0.dtd\">\n"@
        + "<plist version=\"1.0\">\n"@ + "<dict>\n"@ + "    <key>Label</key>\n"@
        + "    <string>io.github.llMBQll.OmniLED</string>\n"@ + "    <key>ProgramArguments</key>\n"@
        + "    <array>\n"@ + "    <string>"@ + exe_path + "</string>\n"@ + "    </array>\n"@
        + "    <key>RunAtLoad</key><true/>\n"@ + "</dict>\n"@ + "</plist>\n"@
}

impl AutoStart {
    /// The desktop entry that starts the program at `exe_path`.
    pub fn generate_desktop_file_content(exe_path: &str) -> (r: String)
        ensures
            r@ == spec_desktop_file_content(exe_path@),
    {
        let mut content = String::from_str("[Desktop Entry]\n");
        content.append("Exec=");
        content.append(exe_path);
        content.append("\n");
        content.append("Name=OmniLED\n");
        content.append("Terminal=False\n");
        content.append("Type=Application\n");
        content
    }

    /// The launch agent that starts the program at `exe_path`.
    pub fn generate_plist_file_content(exe_path: &str) -> (r: String)
        ensures
            r@ == spec_plist_file_content(exe_path@),
    {
        let mut plist = String::from_str("<?xml version=\"1.0\" encoding=\"UTF-8\"?>\n");
        plist.append(
            "<!DOCTYPE plist PUBLIC \"-//Apple//DTD PLIST 1.0//EN\" \"http://www.apple.com/DTDs/PropertyList-1.0.dtd\">\n",
        );
        plist.append("<plist version=\"1.0\">\n");
        plist.append("<dict>\n");
        plist.append("    <key>Label</key>\n");
        plist.append("    <string>io.github.llMBQll.OmniLED</string>\n");
        plist.append("    <key>ProgramArguments</key>\n");
        plist.append("    <array>\n");
        plist.append("    <string>");
        plist.append(exe_path);
        plist.append("</string>\n");
        plist.append("    </array>\n");
        plist.append("    <key>RunAtLoad</key><true/>\n");
        plist.append("</dict>\n");
        plist.append("</plist>\n");
        plist
    }

    /// Where the autostart directory is found: under `$XDG_CONFIG_HOME` when it is set,
    /// else under `$HOME`, else nowhere.
    pub fn autostart_base(xdg_config_home: Option<String>, home: Option<String>) -> (r: Option<
        AutostartBase,
    >)
        ensures
            match xdg_config_home {
                Some(x) => r == Some(AutostartBase::ConfigHome(x)),
                None => match home {
                    Some(h) => r == Some(AutostartBase::Home(h)),
                    None => r is None,
                },
            },
    {
        match xdg_config_home {
            Some(x) => Some(AutostartBase::ConfigHome(x)),
            None => match home {
                Some(h) => Some(AutostartBase::Home(h)),
                None => None,
            },
        }
    }

    /// What toggling does when the entry is `enabled`, and whether it is enabled after.
    pub fn toggle(enabled: bool) -> (r: (ToggleAction, bool))
        ensures
            r.0 == (if enabled {
                ToggleAction::Disable
            } else {
                ToggleAction::Enable
            }),
            r.1 == !enabled,
    {
        if enabled {
            (ToggleAction::Disable, false)
        } else {
            (ToggleAction::Enable, true)
        }
    }
}

} // verus!
