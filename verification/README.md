# floepod

FloePod (浮匣) keeps files, folders, images and text in small "pods" docked on
the edges of the screen. This crate is its core, written in Verus: the rules
the desktop shell follows are executable functions with contracts, proved by
the verifier. Where a result rests on the disk, the clock or the image codec,
the contracts state what holds of every answer those give, and a verified
function takes that answer and decides.

## Layout

- `src/` — the verified library.
  - `settings.rs`: pods, hotkeys, loading and migrating the stored settings,
    merging a settings patch, changing one pod.
  - `manager.rs`: the panel state machine of every pod, the watchdog rule, the
    geometry of bars and panels, monitors and window labels.
  - `commands.rs`: staging plans, file names and extensions, free target
    names, export policies, thumbnails.
  - `watcher.rs`: the watcher's tick and the plan that reconciles a staging
    folder with the stored items.
  - `text.rs`, `json.rs`: verified text helpers and the model of a JSON object.
  - `lnk.rs`, `tray.rs`, `hotkeys.rs`, `state.rs`, `win.rs`, `db.rs`: shortcut
    scripts, tray entries, hotkey targets, runtime state, modifier keys, records
    and the clock.
- `tests/` — tests of the library on concrete values.
- `app/` — the Tauri shell: windows, tray, global shortcuts, SQLite storage,
  file operations and Win32 calls, calling the library for every decision.

Calls into std and the `image` crate that Verus cannot see stand behind small
trusted wrappers whose doc comments say what is assumed of them.
