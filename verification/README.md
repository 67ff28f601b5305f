# ServePoint

The rules of a bar till, verified with [Verus](https://github.com/verus-lang/verus):
tabs, orders and their slips, the shelf, waiters' settlements, the drawer, the
night's report, and what the owner sets a venue up with.

## Layout

- `src/` is the library. `store.rs` holds everything that a till knows as plain
  tables; every operation takes the store and says in its contract when it is
  refused, in which words, and what it changes otherwise. What is refused
  changes nothing.
  - `money`, `bill`, `calendar`, `text`, `tally`, `table` and `lists` are the figures,
    words and rows that the rest is written in.
  - `repo` has one module for each group of tables.
  - `trading` issues orders, `settlement` closes tabs, `report` compiles and
    freezes nights, `commissioning` and `venue` are the owner's side, `settings`
    and `settings_form` are the configuration, `resolution` names the way out of
    every unfinished state, and `state` holds sessions and the PIN throttle.
- `tests/` runs the library on concrete nights.
- `app/` is the program around it: SQLite, the clock, JSON and the commands that
  the screens call.

## What is believed without proof

Three outside functions are called under stated contracts:
`str::trim` and `String::push` of the standard library (`text.rs`), and
`chrono::NaiveDate::parse_from_str` (`calendar.rs`), whose result is named, and
described only so far as that a date it reads has a month from 1 to 12 and a day
from 1 to 31.
