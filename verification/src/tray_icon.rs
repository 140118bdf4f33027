pub mod tray_icon;
