# gammon

Interface types of the gammon arcade and the state machine of its game stand
payment simulator, verified with Verus.

- `src/interface/` — the protocol and ledger types: the game stand protocol
  (`proto::gamestand`, with `Response::into_res`), the point of sale protocols
  (`proto::posserver`, `proto::poslocal`), and ledger values
  (`transaction`, with the display text of accounts and the database text of
  locations).
- `src/republish.rs` — re-exports of `serde_json` and `chrono` for users of
  the library.
- `src/text.rs` — decimal text of integers, proved equal to its specification.
- `src/stand_sim/` — the simulator: `model.rs` states what each event (payment
  request, release, commit/clear, card tap, clock tick) does to the stand's
  state; `machine.rs` implements it over a table of payments (`table.rs`,
  `commit.rs`); `laws.rs` proves what holds across events (a retried payment
  request gets the same payment and uses no card tap, whatever taps, ticks,
  requests for other ids or releases of other ids come in between, as long as
  no release of that id and no commit/clear does; a release forgets the
  payment; a commit/clear leaves every payment committed or released; and
  more).
- `app/` — the simulator program: HTTP server, JSON forms of the types (serde),
  database conversions, and the window with the "tap" button.
