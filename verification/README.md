# ssh_resume

The records that a terminal helper keeps of the remote agent sessions it resumed:
which pane of the terminal shows which session, what the sessions view lists, and
which reports of the terminal still count. Written in Verus; every function of the
library is verified against its contract.

- `src/session.rs`, `src/key.rs`: sessions, where they run, and what identifies them.
- `src/guid.rs`: pane identifiers and their spellings.
- `src/binding.rs`, `src/model.rs`: one record, all records, and what each event does
  to them.
- `src/resumes.rs`: the table of records.
- `src/tabs.rs`, `src/requests.rs`, `src/app.rs`: the tabs, what is asked of the
  terminal, and the functions that the helper calls.
- `src/clock.rs`, `src/text.rs`: the time of day and small facts about text.
- `src/laws.rs`: what holds of the whole.
- `app/`: the terminal, the event loop and the log around the library.

What is taken on trust stands behind a few small functions: `uuid` reads, writes and
draws identifiers (`src/guid.rs`), the standard library tells the time
(`src/clock.rs`) and searches text (`src/text.rs`).
