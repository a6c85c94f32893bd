# avalon_dealer

A LAN card dealer for Avalon: players pick their seat number on their phones,
say they are ready, and once every seat has readied each one sees its hidden
role and what that role knows about the others. An admin page shows the deal,
the seats still missing and the history of finished games, and can hide the
skill information.

## Layout

- `src/` — the verified library (Verus).
  - `role.rs` — the roles, their sides, names and card texts, and the cards of
    each table size (5 to 10 seats).
  - `model.rs` — the dealer as mathematics: `GameView`, its invariant and the
    effect of each request.
  - `game.rs` — `GameState`, the executable dealer: new game, ready (random
    deal), poll, admin views, skill toggle.
  - `skill.rs` — which seats each role is told, and the poll answer.
  - `roster.rs` — sorted player lists, unready seats, history records.
  - `laws.rs` — proved properties: every card accounted for, a seat readies
    once, when the game is over, who sees whom, and more.
  - `text.rs`, `assets.rs`, `net.rs` — decimal text, embedded file names and
    content types, the LAN address and server URL.
  - `chance.rs` — the two calls whose results are not the library's to decide:
    the random card index and the clock.
- `tests/` — executable tests of the library.
- `app/` — the axum server around the library: routes, shared state, the
  history file, server-sent events, embedded front end, Android entry points.
