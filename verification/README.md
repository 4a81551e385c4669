# portside

`portside` is a terminal work-session tracker: start a session on a topic, pause and resume it,
take timed breaks, resume sessions from earlier days, and review time worked in daily, weekly
and cumulative history views.

## Layout

- `src/` is the verified library (Verus). It holds the command-line parser, the session model
  and its per-day time split, the history aggregations (zero-filling, weekly buckets, running
  totals, streaks, heatmap), the state and key handling of every panel, the search filter, the
  palettes, and the decisions of the event loop (which action a key or command becomes, and what
  each session command does). Every function carries a contract proved by Verus; the laws that
  span functions (a split covers its interval, weekly buckets keep the total, a full queue keeps
  the most recent items, pause and resume or two break toggles return a session to running, a
  completed session accepts no further command) are proof functions.
- `app/` is the program around it: the terminal and its drawing, the SQLite store, the settings
  and theme files, the media and Discord background threads, and the loop that carries out the
  library's plans.
- `tests/` exercises the library on concrete values.
