# appointment_agent

An agent that watches LibCal library-pass calendars and, when passes become
available, either sends an ntfy notification or books them.

- `src/` is the verified library (Verus): configuration lookups, drop-time
  computation, availability URLs, parsing of availability, login and booking
  pages, the login retry policy, the run as a state machine (`run.rs`) and the
  booking attempts as a state machine (`booking.rs`). Calls into `chrono`,
  `url`, `scraper`, `rand` and `dashmap` go through small trusted wrappers whose
  contracts are stated next to them.
- `app/` is the program around it: command line, configuration files (YAML),
  HTTP requests, sleeping, the web dashboard. It performs the actions the state
  machines ask for and reports back what happened.
- `tests/` exercises the library on concrete pages, URLs and runs.
