# heist_game

The rules engine of a cooperative board game in which four heisters explore a
board built from four-by-four tiles: players move heisters square by square,
ride escalators, teleport between pads of a heister's color, and reveal new
tiles through doors of a heister's color. Each player holds only some of the
abilities (moving north, east, south or west, teleporting, revealing tiles,
using escalators), handed out when the game starts.

The library in `src/` is verified with Verus:

- `types`, `tile`: board vocabulary, tiles, rotation, door and escalator queries.
- `state`: the shared game state, the board lookup (`grid_get`) and their models.
- `rules`, `placement`: the movement and tile-placement rules as spec functions.
- `game`: `Game` and its operations, each proved against those rules. The
  operations that read the clock (`new`, `start_game`, `handle_message`) have
  `_at` forms that take the reading as an argument and state their result exactly.
- `abilities`, `chance`: how abilities are shared out, and the calls to chance and clock.
- `text`, `messages`: the exact texts of refusals.
- `laws`: properties that span operations.

`app/` holds the serialisable handle and logging; before passing a request to
the game it asks the library's `Game::can_handle_message` whether the request
can be served without failing.
