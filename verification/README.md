# terminal_battle_ship

A two-player game of battleship played over the network in a terminal.

- `src/` is the verified library (Verus): the board's geometry (`board`),
  building a fleet (`fleet`), a player's board on the server (`player`),
  reading what the players type (`input`), the layout of the board's drawing
  (`display`), character-sequence helpers (`text`) and the properties that hold
  across operations (`laws`).
- `app/` is the program around it: `main.rs` starts the server
  (`server`), a player's client (`client`), or, with no argument, draws an
  empty board. Terminal, standard input and sockets are handled there.
- `tests/` exercises the library on concrete games.
