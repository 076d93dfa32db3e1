# priora-api

Priora is a neighbourhood platform: residents create improvement proposals,
prioritise them by ordering them (aggregated with a Borda count), and discuss
them, inside spaces that may require member approval.

- `src/` — the library, verified with Verus: membership and permission rules,
  the Borda count and its statistics, the ordering of listings, the proposal
  life cycle, validation of every request body, session and sign-in decisions,
  configuration parsing. Public proof functions state the laws the rules keep.
- `tests/` — tests of the library on concrete values.
- `app/` — the HTTP service around it (axum, SQLite through sqlx, Google
  sign-in, JWT sessions), which reads and writes data and asks the library for
  every decision.
