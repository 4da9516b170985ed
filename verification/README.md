# eva_ics

Verified decision, parsing and bookkeeping logic of the EVA ICS services and
tools, written in Verus. Every function in `src/` carries a contract that
Verus proves; where the logic calls an outside crate, the call sits behind a
small trusted wrapper whose contract states what the crate's source or
documentation shows. Where they show nothing that can be stated over plain
values (an ACL's private masks, the random padding of RSA encryption), the
wrapper's doc comment says what is left unsaid, and the verified functions
state what holds whatever the call answers.

Layout:

- `src/` — the library, one module per concern: the HMI (sessions, web
  requests, API method decisions, private files, served files, web
  sockets, live item streams, state history requests, API log filters,
  translations), replication (node registry, pub/sub calls, bulk frames),
  the cloud manager (deployment plans, uploads, updates, manifests,
  sealed dumps), the
  file writer, the expiration checker, the mailer, the media pipeline
  frames, the Modbus slave, the data generator's targets and the
  development launcher, plus shared text and number helpers.
- `tests/` — tests of the library on concrete values.
- `app/` — the code around the library that Verus does not check: command
  lines, clocks, files, sockets, SMTP, serialization and the outside crates'
  own types.
