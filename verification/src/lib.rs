//! Verified core logic of the subniri desktop shell: configuration diffs,
//! the nightlight schedule, the system tray protocol state, the taskbar
//! workspace bookkeeping, media helpers and the command line log filters.

pub mod text;
pub mod config;
pub mod nix;
pub mod dbusmenu;
pub mod tray;
pub mod watcher;
pub mod tray_menu;
pub mod workspaces;
pub mod media;
pub mod spotify;
pub mod nightlight;
pub mod popups;
pub mod player;
pub mod logs;
pub mod icons;
pub mod status;
pub mod files;
pub mod modules;
pub mod connection;
pub mod players;
pub mod config_value;
pub mod config_watch;
pub mod network;
pub mod taskbar;
pub mod supervisor;
pub mod calendar;
pub mod cli;
pub mod disks;
pub mod caches;
pub mod media_widget;
pub mod media_popup;
pub mod clock;
pub mod system_menu;
pub mod niri_taskbar;
pub mod desktop_files;
pub mod tray_icon;
pub mod config_parse;
pub mod pipewire;
pub mod daemon;
pub mod config_write;
pub mod config_update;
