# omni_led

The logic of OmniLED, a program that drives the OLED screens of keyboards and other
devices from Lua scripts, as a library whose functions carry `requires`/`ensures`
contracts proved with Verus.

- `src/` — the verified library:
  - `script_handler` — which layout of a device is drawn on each tick (priorities,
    update marks, durations, repeats), the screen builder scripts use, the screen
    toggle, and how event values are merged into the scripts' environment;
  - `events` — the event queue, the callback registry, event names, and the conversion
    of CBOR payloads into script values;
  - `logging` — per-target log filters;
  - `devices` — the device registry, hexadecimal settings, USB lookups and frame
    framing;
  - `steelseries_engine` — the SteelSeries Engine client's decisions: settings,
    backoff, reconnection, payload names and the engine's address;
  - `setup` — the installer's pages and device list;
  - `constants`, `settings`, `plugin`, `plugin_loader`, `app_loader`, `autostart`,
    `tray_icon`, `semaphore`, `renderer`, `ui`, `text` — the smaller pieces.
- `tests/` — tests run against the compiled library.
- `app/` — the installer program and the glue to the file logger, the CBOR decoder, the
  HTTP client, USB and the POSIX semaphore.
