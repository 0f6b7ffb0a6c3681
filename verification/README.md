# Liar's dice

A game of liar's dice for players who connect to one server over SSH.

- `src/` is the game: the rules (`rules`, `game`, `player`, `dice`), the server
  and its connections (`server`, `connection`, `keys`), what a player sees
  (`screen`, `text`) and the bytes on their way to a terminal (`sink`). All of it
  is verified with Verus. `laws` states what holds of the game as a whole.
- `app/` is the program around it: SSH, terminals and the clock.
- `tests/` runs the game on given values.
