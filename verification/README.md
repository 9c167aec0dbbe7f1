# subniri

The logic of the subniri desktop shell (bar, daemon, command line, file manager and
configuration) as a library verified with Verus: every function in `src/` carries a
contract that Verus proves, and the laws that tie functions together are proof
functions beside them.

- `src/` — the verified library, one module per concern: the configuration, its values,
  reading and writing it as KDL, and the Nix diff (`config`, `config_value`,
  `config_parse`, `config_write`, `config_update`, `config_watch`, `nix`), the tray (`dbusmenu`,
  `tray`, `tray_icon`, `tray_menu`, `watcher`), media players (`media`, `media_popup`,
  `media_widget`, `player`, `players`, `spotify`), the nightlight (`nightlight`), the
  bar's popups and modules (`popups`, `modules`, `status`, `network`, `calendar`,
  `clock`, `system_menu`), the taskbars and their icons (`taskbar`, `niri_taskbar`,
  `workspaces`, `icons`, `desktop_files`, `caches`), PipeWire devices and reconnection,
  the daemon and service supervision (`pipewire`, `connection`, `daemon`, `supervisor`), the command line (`cli`, `logs`), and the
  file manager (`files`, `disks`). `text` holds the string helpers they share.
- `app/` — what cannot be verified: reading files and the clock, converting values of
  outside crates (jiff, chrono, kdl, notify, undo, zbus) into the library's types, and
  the loops that follow the library's state machines.
- `tests/` — tests of the library on concrete values.

Calls into outside crates stand behind small trusted wrappers whose doc comments say
what their contracts claim of the outside code.
