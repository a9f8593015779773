# reservation_server

A server that books WireGuard interfaces for teams. A team asks for a number
of devices; when enough interfaces are free, the team's peer is entered in the
database, the first free interface is marked unavailable, the peer is added to
that interface at address `a.b.c.5` of its network `a.b.c.d/len`, and the team
receives its address, the interface's public key and its port. Ending a booking
removes the peer and frees the interface again.

- `src/` is the library, verified with Verus: the two booking processes as
  state machines (`booking_process`), addresses and WireGuard command lines
  (`network`), text helpers (`text`), the records (`records`), the decisions
  that follow database queries (`db_manager`), the login and admin guards and
  the session routes (`cred`), and paste identifiers (`paste_ids`).
- `app/` is the Rocket program around it: routes, the SQLite pool, the shell
  commands, and the loops that perform each action a booking process asks for.
- `tests/` runs the library on concrete requests.
