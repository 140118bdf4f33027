use omni_led::autostart::{AutoStart, AutostartBase, ToggleAction};
use omni_led::constants::config::ConfigType as FileConfig;
use omni_led::plugin::Plugin;
use omni_led::plugin_loader::plugin_loader::{default_plugin_file_name, plugin_log_target, Config, PluginLoader};
use omni_led::renderer::bit::{Bit, BitMut};
use omni_led::renderer::font_selector::{
    FamilyName, FilesystemSelector, FontSelector, Stretch, Style, SystemSelector, Weight,
};
use omni_led::semaphore::{deadline, timeout_millis, wait_step, SemaphoreFlag, WaitStep};
use omni_led::settings::settings::Settings;
use omni_led::settings::settings_bound::{settings_event_key, SettingsBound};
use omni_led::steelseries_engine::api::TargetOs;
use omni_led::logging::logger::LevelFilter;
use omni_led::tray_icon::tray_icon::{TrayEvent, TrayIcon};

#[test]
fn default_selector() {
    let selector = FontSelector::Default;
    assert!(matches!(selector, FontSelector::Default));
}

#[test]
fn filesystem_selector() {
    const PATH: &str = "my/path";
    const INDEX: u32 = 7;
    let selector = FontSelector::Filesystem(FilesystemSelector::new(PATH.to_string(), Some(INDEX)));
    match selector {
        FontSelector::Filesystem(s) => {
            assert_eq!(s.path, PATH);
            assert_eq!(s.font_index, INDEX);
        }
        _ => panic!("expected a filesystem selector"),
    }
    assert_eq!(FilesystemSelector::new(PATH.to_string(), None).font_index, 0);
}

#[test]
fn system_selector() {
    const TITLE: &str = "font-title";
    let selector = SystemSelector::new(
        vec![FamilyName::Title(TITLE.to_string()), FamilyName::Monospace],
        Some(Style::Italic),
        Some(Weight::Thin),
        Some(Stretch::SemiCondensed),
    );
    assert!(matches!(&selector.names[0], FamilyName::Title(t) if t == TITLE));
    assert!(matches!(selector.names[1], FamilyName::Monospace));
    assert_eq!(selector.style, Style::Italic);
    assert_eq!(selector.weight, Weight::Thin);
    assert_eq!(selector.stretch, Stretch::SemiCondensed);

    let defaults = SystemSelector::new(vec![], None, None, None);
    assert_eq!(defaults.style, Style::Normal);
    assert_eq!(defaults.weight, Weight::Normal);
    assert_eq!(defaults.stretch, Stretch::Normal);
}

#[test]
fn initial_load() {
    let settings = Settings::default(TargetOs::Linux, None);
    let bound = SettingsBound::load(&settings, "animation_ticks_delay", 1);
    assert_eq!(bound.get(), Settings::default(TargetOs::Linux, None).animation_ticks_delay);
    assert_eq!(bound.get(), 8);
    assert_eq!(settings_event_key("animation_ticks_delay"), "Settings.animation_ticks_delay");
    assert_eq!(bound.event_key(), "Settings.animation_ticks_delay");
}

#[test]
fn handle_update() {
    let settings = Settings::default(TargetOs::Linux, None);
    let mut bound = SettingsBound::load(&settings, "animation_ticks_delay", 1);
    const NEW_VALUE: usize = 700;
    assert_ne!(NEW_VALUE, bound.get());
    assert!(!bound.on_event("Settings.animation_ticks_rate", NEW_VALUE));
    assert_eq!(bound.get(), 8);
    assert!(bound.on_event("Settings.animation_ticks_delay", NEW_VALUE));
    assert_eq!(NEW_VALUE, bound.get());
    assert_eq!(bound.registration(), 1);
}

#[test]
fn settings_bound_follows_each_whole_number_setting() {
    let settings = Settings::default(TargetOs::Windows, None);
    assert_eq!(settings.usize_setting("animation_ticks_rate"), Some(2));
    assert_eq!(settings.usize_setting("keyboard_ticks_repeat_delay"), Some(2));
    assert_eq!(settings.usize_setting("keyboard_ticks_repeat_rate"), Some(2));
    assert_eq!(settings.usize_setting("update_interval"), None);
    assert_eq!(settings.usize_setting("Settings.animation_ticks_delay"), None);
    let mut bound = SettingsBound::new("font", 3u8, 9);
    bound.assign(4);
    assert_eq!(bound.get(), 4);
    assert!(!bound.on_event("font", 5));
    assert!(bound.on_event("Settings.font", 6));
    assert_eq!(bound.get(), 6);
    assert_eq!(bound.registration(), 9);
}

#[test]
fn settings_defaults() {
    let s = Settings::default(TargetOs::MacOs, None);
    assert_eq!(s.animation_ticks_rate, 2);
    assert_eq!(s.keyboard_ticks_repeat_delay, 2);
    assert_eq!(s.keyboard_ticks_repeat_rate, 2);
    assert_eq!(s.log_level, LevelFilter::Info);
    assert_eq!(s.update_interval, 100);
    assert!(matches!(s.font, FontSelector::Default));
    assert!(s.steelseries_api.enabled);
}

#[test]
fn event_identifiers() {
    assert!(Plugin::is_valid_identifier("CLOCK"));
    assert!(Plugin::is_valid_identifier("_A1"));
    assert!(Plugin::is_valid_identifier("SPOTIFY_2"));
    assert!(!Plugin::is_valid_identifier(""));
    assert!(!Plugin::is_valid_identifier("1A"));
    assert!(!Plugin::is_valid_identifier("Clock"));
    assert!(!Plugin::is_valid_identifier("A.B"));
    assert_eq!(Plugin::name_for_crate("media-player"), "MEDIA_PLAYER");
    assert_eq!(Plugin::name_for_crate("clock2"), "CLOCK2");
    assert_eq!(Plugin::new("X".to_string()).name_str(), "X");
}

#[test]
fn plugin_configs() {
    let config = Config::new("lib/clock.so".to_string(), Some(vec!["--interval".to_string(), "5".to_string()]));
    assert_eq!(config.argv(), vec!["lib/clock.so", "--interval", "5"]);
    assert_eq!(Config::new("p".to_string(), None).argv(), vec!["p"]);
    assert_eq!(default_plugin_file_name("lib", "clock", ".so"), "libclock.so");
    assert_eq!(plugin_log_target("clock"), "plugin::clock");

    let mut loader: PluginLoader<u32> = PluginLoader::new();
    assert_eq!(loader.start_plugin::<&str>(Ok(1)), None);
    assert_eq!(loader.start_plugin(Err("failed")), Some("failed"));
    assert_eq!(loader.plugin_count(), 1);
}

#[test]
fn autostart_files() {
    assert_eq!(
        AutoStart::generate_desktop_file_content("/opt/omni/OmniLED"),
        "[Desktop Entry]\nExec=/opt/omni/OmniLED\nName=OmniLED\nTerminal=False\nType=Application\n"
    );
    let plist = AutoStart::generate_plist_file_content("/Applications/OmniLED");
    assert!(plist.starts_with("<?xml version=\"1.0\" encoding=\"UTF-8\"?>\n"));
    assert!(plist.contains("    <string>/Applications/OmniLED</string>\n"));
    assert!(plist.ends_with("</dict>\n</plist>\n"));
    assert_eq!(
        AutoStart::autostart_base(Some("/x".to_string()), Some("/h".to_string())),
        Some(AutostartBase::ConfigHome("/x".to_string()))
    );
    assert_eq!(AutoStart::autostart_base(None, Some("/h".to_string())), Some(AutostartBase::Home("/h".to_string())));
    assert_eq!(AutoStart::autostart_base(None, None), None);
    assert_eq!(AutoStart::toggle(true), (ToggleAction::Disable, false));
    assert_eq!(AutoStart::toggle(false), (ToggleAction::Enable, true));
}

#[test]
fn tray_menu() {
    assert_eq!(TrayIcon::event_for("Config"), Some(TrayEvent::Config));
    assert_eq!(TrayIcon::event_for("License"), Some(TrayEvent::License));
    assert_eq!(TrayIcon::event_for("Quit"), Some(TrayEvent::Quit));
    assert_eq!(TrayIcon::event_for("quit"), None);
    let (bytes, w, h) = TrayIcon::load_icon();
    assert_eq!((w, h), (64, 64));
    assert_eq!(bytes.len(), 4 * 64 * 64);
    assert!(bytes.iter().all(|b| *b == 0xFF));
}

#[test]
fn semaphore_timing() {
    assert_eq!(timeout_millis(1, 500_000_000), 1500);
    assert_eq!(timeout_millis(0, 999_999), 0);
    assert_eq!(timeout_millis(u64::MAX, 0), u32::MAX);
    assert_eq!(deadline(10, 900_000_000, 1, 200_000_000), (12, 100_000_000));
    assert_eq!(deadline(10, 0, 0, 0), (10, 0));
    let mut flag = SemaphoreFlag::new(true);
    assert!(flag.try_acquire());
    assert!(!flag.try_acquire());
    flag.release();
    assert!(flag.try_acquire());
    assert_eq!(wait_step(true, 5, 1, true), WaitStep::Acquire);
    assert_eq!(wait_step(false, 5, 1, false), WaitStep::GiveUp);
    assert_eq!(wait_step(false, 0, 10, true), WaitStep::GiveUp);
    assert_eq!(wait_step(false, 3, 10, false), WaitStep::Wait(7));
}

#[test]
fn bits() {
    let byte: u8 = 0b0000_0100;
    assert!(Bit::new(&byte, 2).get());
    assert!(!Bit::new(&byte, 1).get());
    let mut b: u8 = 0;
    {
        let mut bit = BitMut::new(&mut b, 7);
        bit.set();
        assert!(bit.get());
    }
    assert_eq!(b, 0b1000_0000);
    {
        let mut bit = BitMut::new(&mut b, 7);
        bit.reset();
    }
    assert_eq!(b, 0);
}

#[test]
fn config_file_names() {
    let names: Vec<&str> = FileConfig::all().iter().map(|c| c.get_filename()).collect();
    assert_eq!(names, vec!["devices.lua", "plugins.lua", "scripts.lua", "settings.lua"]);
}
