use vstd::prelude::*;

pub mod app_loader;
pub mod autostart;
pub mod constants;
pub mod devices;
pub mod events;
pub mod logging;
pub mod plugin;
pub mod plugin_loader;
pub mod renderer;
pub mod script_handler;
pub mod semaphore;
pub mod settings;
pub mod setup;
pub mod steelseries_engine;
pub mod text;
pub mod tray_icon;
pub mod ui;

verus! {

/// What the program's main loop is woken with: a new emulated screen, an update tick, or
/// a choice from the tray menu.
pub enum OmniLedEvent<H> {
    NewScreen(H),
    Update,
    Tray(tray_icon::tray_icon::TrayEvent),
}

} // verus!
