# printbar

A printer monitor for Waybar: it polls a printer over IPP (directly, or through a local
CUPS queue), merges what each source reports, and prints Waybar JSON with a bar text, a
framed, themed tooltip and a worst-state class. Notifications fire on state transitions.

## Layout

- `src/` — the library, verified with Verus:
  - `model.rs` — the printer state every source fills in;
  - `sources/` — source kinds and outcomes; `ipp.rs` maps IPP attributes to a partial
    state and bounds what is kept of a printer's answer;
  - `merge.rs` — the priority merge of the sources, with its laws;
  - `render.rs`, `waybar.rs` — bar template, tooltip, class, Pango helpers;
  - `notify.rs` — active events, transitions, cache file name;
  - `config.rs`, `cli.rs`, `actions.rs`, `theme.rs` — configuration values and defaults,
    command line, click-action URLs, tooltip colors;
  - `text.rs` — character-level helpers over the `Seq<char>` view of strings.
- `app/` — the program around the library: reading the TOML configuration and the theme
  colors, the IPP network query, threads and timeouts, the notification cache,
  `notify-send`, `xdg-open` and JSON output.
- `tests/` — tests of the library on concrete values.

The program has no SNMP client: with `snmp.enabled` the SNMP source is not run, and the
merge works on the IPP and CUPS outcomes alone (a failed SNMP source changes nothing either).
