# mtorrent_gui

A desktop front end for BitTorrent downloads on top of the `mtorrent` engine.

- `src/` is the library, verified with Verus: the list of download tasks, what the
  window shows of it, how the user's requests change it, how snapshots of running
  downloads are read and taken over, and how the number of those who hold the token of a
  download decides whether it goes on. `src/history.rs` follows the holders of tokens
  through everything that can happen: stopping, removing or restarting a task cancels its
  download for good, and no other. That a listener counts the holders that there are is
  taken as given there.
- `app/` is the application around it: the window, the runtimes, the log files and
  the file dialogs.
- `tests/` runs the library on concrete values.

What the library believes of other code without proof stands next to its use:
`src/json.rs` (`serde_json`), `src/snapshot.rs` (snapshots of the engine), `src/paths.rs`
(paths of the standard library), `src/listener.rs` (tokens that are counted), `src/tasks.rs`
(`mtorrent`) and `src/startup.rs` (`image`).
