# miracle_core

The shared core of Miracle, a chat client with native shells: all business
logic, as plain Rust verified with Verus. A shell sends an `Action` to the
`Store`, which applies `reduce` to the current `State`; the shell renders the
state that comes back.

## Layout

- `src/types.rs`: the data (`State`, `Session`, `SessionViewState`, `Action`,
  ...) and the view of each as a mathematical value.
- `src/reducer.rs`: `reduce`, with its whole behaviour stated as `reduced`.
- `src/laws.rs`: what every action keeps (sessions are never lost, views show
  existing sessions, views keep their order, ids stay unique, messages are
  only appended, sessions stay newest first) and what one action does to the
  views it does not name.
- `src/state.rs`: lookups by id.
- `src/text.rs`: white space, trimming, a new session's title, decimals.
- `src/section.rs`, `src/calendar.rs`: the sidebar sections by calendar day,
  with time zones and calendar arithmetic from jiff.
- `src/store.rs`, `src/samples.rs`: the store and its sample sessions.
- `src/changes.rs`: what differs between two states, for shells that redraw.
- `app/lib.rs`: the UniFFI facade for non-Rust shells; it shares the store
  behind a mutex and converts times to and from `SystemTime`.

Times in the core are nanoseconds since the Unix epoch.
