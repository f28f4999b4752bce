# colledor

The request logic of a programming-contest server (log-in, submissions,
challenges between players, and read-only listings), written in Verus.

- `src/` is the verified library. Each request handler is a *flow*: a state
  value whose `step` takes the outcome of the last action (a database answer,
  a clock reading, a decoded token, a compiler's exit status, ...) and gives
  the next state and the next action. The transition of each flow is stated
  as a relation (`*_next`), and laws over whole runs (`*_run`) are proved:
  a submission is recorded only after its source compiled as both players and
  the user had not submitted in the last 30 seconds; a challenge is recorded
  only for a user with no open challenge and two submitters; while the contest
  runs, users other than the administrator read only their own submissions;
  a token is issued only for exactly one matching credential.
  - `text`: decimal parsing with the rules of `str::parse`, hexadecimal.
  - `misc`: clock text in UTC+9, random build names.
  - `auth`: password hashing (MD5), token claims, the log-in flow.
  - `submit`, `challenge`, `info`: the other flows.
  - `flow`: the actions, outcomes and replies the flows share.
- `app/` is the HTTP server (actix-web): it decodes requests, performs the
  actions (PostgreSQL, JWT signing and checking, processes, files, the clock)
  and turns replies into HTTP responses.
- `tests/` runs the flows on concrete scenarios.
