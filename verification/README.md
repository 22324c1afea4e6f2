# Herdr Coordinator

A control plane for one operator who supervises several coding-agent projects.
It keeps four kinds of facts apart: what Herdr observes, what a commander
claims, what a command has verified, and what the user has decided or accepted.

- `src/` is the library. Every item of it is verified with Verus: documents and
  their reading (`json`, `state`, `textmap`), the transitions of the trusted
  state (`ledger`), the attention queue (`attention`), the projection of what is
  observed (`runtime`, `herdr`, `watch`), deliveries to controllers
  (`dispatch`), the command line (`args`, `commands`, `listing`), the control
  tower (`ui`, `screen`), setting up and carrying over a state directory
  (`upkeep`), and that what is written stays within the depth that can be read
  again (`depth`, `shallow`).
- What holds across functions is stated as proof functions named `law_..`, in
  the modules they belong to and in `*_laws.rs`.
- `src/outside.rs` holds all that is believed of other crates: JSON text, the
  clock and the calendar, random identifiers.
- `app/` is the program: processes, sockets, signals, files under a lock, and
  the terminal.

A state directory is a set of text files. The library works on their texts; the
program reads them under a lock, hands them in, and writes back what has
changed: documents by atomic replacement, the inbox by appending.
