# Sir Zips-a-Lot

A desktop helper that watches an orders folder and packs each new order
folder into its own ZIP once the folder has stopped changing.

- `src/` is the library, verified with Verus: component paths
  (`fs_path`), archive entry names (`entry_name`), order walks
  (`snapshot`), path-keyed tables and sets (`tables`), the archive job that
  decides every step of packing one order (`archive`), file name order
  (`order_list`), the watcher's scans, settings and history (`watcher`),
  the window's status and quest log (`status`), and the properties that
  hold across steps (`laws`).
- `app/` is the program around it: it performs the filesystem steps that
  an archive job or a scan asks for (walking folders, writing ZIPs with
  `zip`, staging with `tempfile`, saving JSON with `serde_json`) and runs
  the Tauri window.
- `tests/` exercises the library on concrete orders.
