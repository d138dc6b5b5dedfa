# ramguard_pro

The engine of a Windows memory optimiser, verified with Verus.

- `src/` is the library: memory figures (`memory`), the process guard lists,
  the process listing, the trim filter and the kill guard (`process_manager`),
  the user settings and their statistics (`settings`), and the decisions behind
  the application's commands and background watcher (`commands`).
- `app/` is the desktop shell: the Tauri commands, the tray and the watcher
  thread, the Windows kernel calls, the process table read through `sysinfo`,
  and the settings file read and written with `serde_json`. It hands the
  library plain values and acts on what the library decides.
- `tests/` runs the library on concrete values.
