# fplx

The rules of FPLX, a fantasy Premier League platform with Solana wallet
login, as a Verus-verified library, and the HTTP service around it.

## Layout

- `src/` — the verified library (`fplx`):
  - `scoring` — FPL points of one player's stat line for one fixture.
  - `squad` — Campaign/Round squad rules (15 players, 2/5/5/3, 100.0m, at
    most 3 per club, a valid starting XI, captain and vice-captain) and Derby
    rules (11 players from the fixture's two clubs, at most 7 per club).
  - `transfers` — batches of same-position swaps, free-transfer banking
    (one per gameweek, up to five) and 4-point hits.
  - `league` — creating and joining Campaign, Derby and Round leagues.
  - `points` — Campaign squad points with the captain/vice-captain rule,
    one-shot entry points, and ranked standings.
  - `auth` — nonces, ed25519 signature checks on base58 wallet addresses,
    issuing login tokens, and checking a request's bearer token (HS256,
    with a minute of leeway on expiry).
  - `live` — reading the official live feed: current gameweek, fixtures in
    play, which stat lines to store, and the polling interval.
  - `outside` — the calls into `rand`, `bs58`, `base64`, `ed25519-dalek`
    and `jsonwebtoken` (signing and reading tokens),
    with the contracts the library relies on.
  - `response`, `text`, `seqs` — the reply envelope, string comparisons
    and the decimal text of numbers, and sequence facts.
  - Each refusal's text is its error type's `message`; only the two
    over-budget texts, which show a float, are written in `app/`.
- `tests/` — tests of the library on concrete values.
- `app/` — the actix-web service: routes, PostgreSQL access (sqlx), the
  official FPL API (reqwest), and the live-sync loop. It asks
  the library for the decisions and performs the I/O.

## Running the service

Set `DATABASE_URL` and `JWT_SECRET` (optionally `PORT`, `DEV_MODE`,
`DEV_USER_WALLET`) and run the binary; it listens on port 8080 by default.
