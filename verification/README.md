# hypr-configurator

A settings editor for Hyprland's Lua configuration. The editor keeps its
settings in `~/.config/hypr/config.json`, writes them as Lua to
`~/.config/hypr/configurator-settings.lua`, and adds one `require` line to
`~/.config/hypr/hyprland.lua` so that Hyprland loads that file.

## Layout

- `src/` — the library, verified with Verus. It holds what the editor
  decides or computes on text and integers; the few steps on floats (colour
  channels as fractions, monitor scales and refresh rates, opacity and
  sensitivity before they become hundredths and tenths) are done in `app/`:
  - `config.rs`: the settings model, its defaults, the save check, the theme
    presets and the clean-up of raw lines in the older `hyprland.conf` syntax;
  - `luafile.rs`, `blocks.rs`, `dispatch.rs`: the generated Lua file, block by
    block, and the `hl.dsp` action of each keybind dispatcher;
  - `entries.rs`, `rows.rs`, `tables.rs`: the line formats of the editor's
    rows (keybinds, environment variables, monitors, workspaces, mouse binds,
    input settings, gestures, animations), how a stored line is read back
    into a row, the rule written for a monitor Hyprland reports, and the
    fixed choice lists;
  - `color.rs`: `rgba(rrggbbaa)` and `#RRGGBB` colour texts;
  - `rules.rs`: the sorted, duplicate-free window rules proposed for open
    windows;
  - `clients.rs`: the window list that `hyprctl -j clients` prints, read
    with `serde_json`, and what the editor takes from it (the float rules
    for its classes, the commands that float the editor's own window);
  - `files.rs`: preset file names, the `require` injection and the reports;
  - `text.rs`, `numbers.rs`: the text and number primitives the above are
    written with;
  - `laws.rs`, `row_laws.rs`, `anim_laws.rs`, `input_laws.rs`,
    `color_laws.rs`: properties that span several functions (round trips of
    the rows, the Lua lines they give, presets, colour texts read and printed
    again, the `require` injection, the clean-up of old lines).
- `tests/` — tests of the library on concrete values.
- `app/` — the GTK/libadwaita program around the library: windows and
  widgets, files, running `hyprctl`, the settings' JSON files, the monitor
  list of `hyprctl -j monitors` (whose refresh rates and scales are floats),
  and the conversions of floats.

Command line: `--backup`, `--restore`, `--rollback`, `--preview`,
`--health` and `--apply-preset <name>`, as in the program's usage line.
