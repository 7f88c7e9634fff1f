# openplay

OpenPlay hosts card-game rooms: a room server that signs users in with ed25519
keys and JWTs, runs a table of Dou Dizhu (with simple bots), and a terminal client
that plays at it. The games, the room, the sign-in rules and the client's state
machine are written in Verus and proved against their contracts.

Layout:

- `src/poker`, `src/mahjong.rs`: cards, decks and tiles, and how they are written.
- `src/doudizhu`: Dou Dizhu hands, patterns and which beats which, the game's
  stages and moves, what each player may see, and a bot.
- `src/holdem`: a Texas Hold'em table: blinds, betting rounds, streets, showdown.
  Betting moves chips between the seats and the pot without making or losing any;
  the showdown pays the pot to the first seat still in the hand and leaves the pot
  as it was.
- `src/basic`: users, rooms, seats and observers, messages, game commands.
- `src/host`: what a room action does to a room, how the room follows a game,
  and the room host's settings.
- `src/auth.rs`, `src/identity.rs`: challenges, signatures and tokens; key pairs
  and key files.
- `src/tui`: the terminal client's screens, keys, connection life cycle, log
  buffer, settings and language.
- `app/`: the programs around the library: the terminal client (terminal, HTTP,
  event stream, files, drawing), the room loop with its timers and connections,
  the sign-in routes, and the room host program.
- `tests/`: tests of the library on concrete values.
