# bmo

`bmo` is a local-first command-line issue tracker backed by a single SQLite
file, for human developers and AI agents working in a terminal. Issues are
identified by `BMO-N` ids.

## Layout

- `src/` is the library, written in Verus and verified: the domain model and
  its textual forms, issue ids, filters and the query they describe, the
  reading of stored rows, the cycle checks made before a relation or a parent
  is stored, the answer to a claim, the SQL of the issue listing, of the
  updates and claims, and of the neighbour and conflict queries (text and
  bound values spelled out in their contracts), project settings, and the
  arguments and messages of every command. Each function states what it returns in its
  contract; the laws that span several functions are public proof functions
  (`lemma_*`).
- `app/` is the program around it: the command line (clap), the SQLite store
  (rusqlite), the settings file (TOML), and the output as tables,
  colours or JSON envelopes.
- `tests/` runs the library on concrete values; `tests/sql.rs` runs its SQL
  on an in-memory SQLite database.

The store is walked one step at a time where a decision needs it: the
library's `LinkCheck` and `ParentCheck` ask for the rows or the parent they
need next, and the program answers from the database. `can_reach_in`,
`check_link_in` and `check_parent_in` run the same checks to their end over a
store held in memory; their contracts state what a whole check answers.
