# codex-reset-watch

The core of a service that watches public sources for announcements of
Codex usage-limit resets and notifies one paired device.

`src/` is the verified library:

- `config` — settings (`NAME=value` pairs) to configuration: lookup with the
  last setting winning, whitespace trimming, defaults, the locked model name,
  the production credentials, and the checks of every value in a fixed order.
- `scheduler::hourly` — the Beijing-time schedule: runs on the hour from 08:00
  to 23:00 and the 08:00 catch-up window over the night before.
- `scheduler::manual` — admission of manual runs: reuse of a run in progress
  and the cooldown between accepted runs, with the wait a refused caller is
  told.
- `time` — instants, Beijing wall-clock values, calendar days and spans.
- `error` — the public error envelope and its wire codes.
- `db` — the storage decisions: connection settings, commits and dedupe.
- `text` — character-level string routines used by the rest.

`app/` is the program around it: reading the environment and `.env`,
parsing network addresses, the SQLite pool, migrations and queries, the
JSON forms of the error envelope, and sharing the manual-run state between
threads.
