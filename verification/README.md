# koveed

The control daemon of Kovee's personal profile: spaces and the contributions in
them, assistants and their invocations, prepared access changes, dispositions
and erasure, governed work over a byom endpoint, and brokered model calls.

`src/` is the library: the records, rules, state machines and documents, each
function with its contract, checked by Verus. `app/` is the daemon around it:
sockets, the SQLite store, the clock and the digests.

## How the library is written

- **Tables.** Records live in `Table`s: rows in insertion order, no two under
  one key. An operation takes the tables it works on, a `Journal`, its
  arguments, and whatever was minted or answered outside, such as identifiers,
  digests and replies. A refusal leaves tables and journal as they were, save
  where an outside call is made on what was recorded before it: there the
  contract says what stays. Each refusal is a spec function that gives the
  problem, in the order of the checks.
- **The journal.** What an operation announces goes to a `Journal` as events,
  with their payloads, and as audit lines. A contract says exactly what is
  added.
- **Outside answers.** Nothing here talks to byom or to a provider. An operation
  that needs an answer takes it as an argument, or takes a closure and says what
  it is called with. What is asked is built here too (`documents`, `episode`).
- **Digests.** A digest is made outside, by a function that is handed in. The
  contracts say which document it was made of (`digests`, `documents`), and that
  a record's own digest is made of that record.
- **Laws.** What holds across operations stands as public proof functions at the
  end of each module.

## Modules

| module | what it holds |
| --- | --- |
| `text`, `json`, `listing`, `table`, `journal`, `problem` | texts, documents, ordered listings, keyed tables, events, problems |
| `dispatch`, `handlers`, `reads` | admission and routing, projects, spaces and contributions, paged reads |
| `lifecycle_ops`, `disposition_ops`, `redaction`, `retention` | space lifecycles and prepared changes, withdrawing and erasing, in every record that holds a copy |
| `assistant_ops`, `invoke` | definitions, deployments and aliases, invocations under fenced attempts |
| `credentials`, `governance`, `budget`, `episode`, `formation` | governed work: one-use credentials, the enablement saga, reservations, hosted episodes, endeavor promotion |
| `model_broker`, `documents`, `digests` | one brokered model call, and what is digested and asked |
| `artifact_ops`, `config`, `peercred`, `socket`, `records` | uploads, start-up settings, peers, paths, shared records |

What is trusted stands in `text` and `json`: the wrappers of `str`, `char`,
`String` and serde_json, each with what it claims.
