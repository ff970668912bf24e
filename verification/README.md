# monosplice

Decisions of a tool that keeps directories of a monorepo in step with standalone git
repositories: what a commit publishes, which commits are new on either side, when to refuse, and
what to say.

The library runs no process and opens no file. An operation that needs git, a hook or a terminal
is a function of the replies that it has received so far: it either finishes, or names the next
request. `talk.rs` describes the dialogue; `app/` performs the requests.

| where | what |
| --- | --- |
| `src/talk.rs` | requests, replies, and how a decision reads them |
| `src/filter.rs` | what a monorepo commit publishes: excludes, `scan`, `transform` |
| `src/sync_view.rs` | every sync cursor, derived from trailers |
| `src/exporter.rs` | export plans, chains, anchor recovery, first publishes |
| `src/ops.rs` | push, pull, dry runs and first contact, with their refusals |
| `src/doctor.rs` | the health report |
| `src/trailers.rs`, `src/text.rs`, `src/index.rs`, `src/list.rs` | what these are made of |
| `src/config.rs`, `src/git.rs`, `src/hooks.rs`, `src/importer.rs`, `src/report.rs` | the values they work on |
| `src/laws/` | what holds across operations, proved from their specifications |
| `app/` | the driver, the terminal, `doctor`'s arguments and its JSON |
| `tests/` | runs against repositories kept in memory, and wording |
