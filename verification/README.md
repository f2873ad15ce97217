# course_signin

Automatic class sign-in for the UCAS iclass service: it reads a student's
schedule, unfolds the day into a timeline of wake-up events and signs in during
each class's window, posing as the official Android app.

The library under `src/` is verified with Verus:

- `config`, `model`: configuration and the data exchanged with the upstream.
- `upstream`: request addresses and bodies, URL encoding, and what each upstream
  answer means (login, server time, schedule, sign-in).
- `schedule`: the day's timeline (random sign-in lead of 1 to 5 minutes, stable
  ordering by window opening), the next wake-up, the daily maintenance point and
  the sign-in window shown to the user.
- `app`: the state machine of the resident process; each decision returns the
  outside work to perform (a refresh or a sign-in attempt) as an `Action`.
- `cli`: credentials, date normalisation and the rows of the course table.
- `text`: character-level string helpers.

`app/` is the program around it: the HTTP client (reqwest), JSON decoding
(serde), the command line (clap, tabled) and the terminal interface (ratatui,
crossterm, tokio). Run `course-signin query`, `course-signin timestamp`, or
`course-signin tui` for the resident process.
