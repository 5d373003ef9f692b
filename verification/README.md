# fuel_station

Server for a fuel station: cashiers and operators connect through a web
interface backed by a MySQL database, whose connection settings are kept in a
local SQLite store.

- `src/` is the verified library (Verus): connection settings and the
  connection state machine, database error texts and the error log, the
  timestamp layout of log lines, session tokens, the settings request plan,
  and the join of pumps, nozzles, tanks and goods for the operator screen.
  `src/laws.rs` states and proves the library's properties.
- `app/` is the actix-web server around it: HTTP handlers, MySQL and SQLite
  access, HTML templates, the shared error log, and screen-position arithmetic.
- `tests/` exercises the library on concrete values.
