# lib — the verified core of a mod-installer front end

The decisions and list logic behind an installer for Infinity Engine game
mods, written in Verus and proved against their contracts:

- `items`, `blocks`, `merge`, `repair`, `tidy`, `component_order`: the install-order list of
  step 3 (mod headers and their component rows), its blocks, and the tidying
  that keeps every component under a header of its own mod.
- `move_selection`, `drag`, `drag_ops`, `row_selection`, `history`,
  `uncheck`: moving, dragging, selecting and removing rows, with undo.
- `update_report`, `source_targets`, `source_choices`, `extract_result`,
  `worker_events`, `install_progress`:
  the update check of step 2 and its choice of download sources, what the download / extraction / archive
  workers report, and the step 5 heading.
- `settings`, `nav`, `pipeline`, `nexus`, `notices`, `help_copy`,
  `console_text`, `ui_kit`, `palette`, `game`, `step2`, `step3`, `state`:
  path validation and its debounce, navigation, the install pipeline's
  reset and destination tokens, the Nexus key dialog, notifications, help
  texts, console tokens, widgets' decisions and the colour palettes.
- `text`, `seqs`, `lines`: characters, index sequences and line reports.

`app/` holds what Verus does not check: file-system probes, the clock,
locks, channels, threads and floating-point geometry, each handing plain
values to the library and carrying out its decisions where the code they
need is in this repository (the debounce's revalidation, the worker
reports, the Nexus key check, the pipeline reset). The drawing of the
interface and the stores, scans and installers it drives are not part of
this repository. `tests/` runs the library on concrete values.
