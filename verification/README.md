# Remap

Remap overrides names on a host: a name or a wildcard leads to an address, another
name or an HTTP upstream. On Linux a small daemon answers for those names, and a
privileged program installs, updates, supervises, recovers and removes it without
leaving a trace that it does not own.

The decisions of these programs form a library that is verified with Verus.

- `src/` is the library. Every function states what it returns and is proved to
  return it. Longer courses of action (an installation, a rollback, the supervision
  of a link) are state machines: a stage names the next thing to do, and the event
  that comes back leads to the next stage. The laws of these machines are public
  proof functions: a publication never replaces what another owner put there, a
  record on disk is told apart from every other by its bytes, an approval binds
  the state that was found and every effect of the plan that it was given for.
- `app/` is the programs. They read files, talk to the service manager, the daemon
  and the resolver, and do what the stages ask for. The resolver's native binding
  and the wire protocol are behind the `Platform` trait.
- `tests/` runs the library on concrete values.

Calls into other crates (digests, identities, match rules, JSON strings) stand in
the library behind functions whose contracts say what is relied on; each is marked
`external_body` and names the outside function.
