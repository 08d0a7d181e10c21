# atlas

A news and event site, as a verified library with a thin
command-line front.

- `src/ace/` — the expression language used to filter posts: lexer, parser, durations,
  dates, semantic analysis and the texts of its values and errors.
- `src/auth/` — permissions granted by the identity provider, and the steps that complete
  a login.
- `src/services/` — the queries that create and update posts.
- `src/filters.rs`, `src/templates/` — what pages show: relative times, dates, crumbs,
  the month calendar.
- `src/dto/`, `src/errors.rs`, `src/guards/`, `src/config.rs` — form values, error
  responses, request context and configuration.
- `app/` — reading the configuration and the splash file, JSON forms, and the pages as text.
