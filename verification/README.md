# chudguild

The game logic of a Discord guild-hall bot, verified with Verus. Players send "chuds" on
jobs posted on a board; trials are rolled against the chuds' stats and gear, the injured
wait in the hospital, the dead are buried with an epitaph, and travelling merchants and a
slot machine take their cash.

## Layout

- `src/game/domain/` — the state of a game: board, job queue, players and chuds, items and
  stash, hospital, graveyard, session, episode statistics.
- `src/game/mechanics/` — rolling trials, effective stats, choosing the stat for a trial,
  and the integer parts of rolling loot.
- `src/game/engine.rs`, `src/game/merchant.rs`, `src/game/slots.rs` — the rules that change
  that state: taking and refilling jobs, equipping and selling, deaths, merchant visits,
  buying, slot pulls.
- `src/game/generation/` — what is decided around the language-model calls: prompt text,
  retry decisions, memory budgets, committing generated jobs to the board.
- `src/game/persistence/` — the item registry, merchant roster and message cache, and what
  loading a saved game repairs.
- `src/discord/` — the bot's replies and screens as values: message components, job-board
  slots, activity log, DMs, slash-command answers.
- `src/rng.rs` — the random draws, made by `rand`, with what holds of every outcome.
- `app/` — the unverified edge: floating-point rolls and payouts, JSON and YAML values,
  and the payload types that Discord receives.
- `tests/` — tests of the library on concrete values.

Every public function in `src/` carries a `requires`/`ensures` contract that Verus proves;
public proof functions state the laws that relate several operations.
