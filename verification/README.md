# ccusage_tray

The verified core of a menu-bar app that shows daily usage costs reported by the
`ccusage` command-line tool and the state of a service status page.

- `src/` is the library, checked by Verus:
  - `calendar` — dates of the proleptic Gregorian calendar, their day numbers and
    `%Y-%m-%d` renderings, and the calls into `chrono` (local day, weekday, day
    arithmetic, formatting).
  - `stats` — which report entries make up the month, today and each day of the
    Monday-to-Sunday week shown in the popover.
  - `tint` — recolouring the tray icon through the `image` crate.
  - `fetch` — the ways the usage reporter is run and the order they are tried in.
  - `debug_report` — the diagnostics text and dialog script.
  - `tray` — icon, menu, popover and refresh decisions.
  - `text`, `clock` — string helpers and the millisecond clock.
- `app/` is the Tauri shell: windows, tray, processes, HTTP, the shared cache and
  the floating-point cost sums.
- `tests/` runs the library on concrete values.
