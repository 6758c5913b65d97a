# aevum

A terminal calendar that keeps a list of events per day, written as a Verus
library (`src/`) with a thin terminal program around it (`app/`).

## Library modules

- `date` — `Date` (year, month, day as plain values), the Gregorian rules and
  day numbers as spec functions, and the `chrono` calls (building, shifting,
  formatting and reading dates) behind trusted wrappers. Lemmas show that day
  numbers tell valid dates apart.
- `store` — packing a date into the integer key of the event map, and the
  increasing list of a map's keys.
- `text` — decimal notation, substring search and lower-casing.
- `app` — `App`, the calendar state, with its well-formedness and the
  operations on it: months, years, cursor moves, the event list, deletion,
  the menu.
- `search` — the case-insensitive search over all events, in calendar order.
- `keys` — `App::handle_key`, the decision of the main loop for one key, and
  the `Action` it hands back (quit, save, go to today, run an export/import).
- `transfer` — CSV (with `csv`) and iCalendar (with `icalendar`) import and
  export of the events.
- `persist` — the text of `events.json` (written and read with `serde_json`)
  and the event map it holds.
- `view` — what the screen shows: the month grid, the sidebar, the menu and
  the box it is drawn in (cut with `ratatui`'s layout).
- `laws` — properties that span several operations, proved.

## Program

`app/` holds `main`, the key loop (reading keys with `crossterm`), the drawing
with `ratatui`, and the reading and writing of the files `events.json`,
`events.csv` and `events.ics`, whose contents the library makes and reads.
