# rpg_core

The rules of a small party-based dungeon RPG, written in Verus with their
contracts proved: items and bags, party members and their growth, the two
spell books, enemies and encounter tables, the turn-based battle engine and
its report, the choosing of commands, what the battle screen and the menus
show, the field menus, grid movement, cave generation and cave chests.

- `src/` is the verified library; every public function states what it
  returns or changes.
- `tests/` runs the library on concrete values.
- `app/` holds what the proofs do not cover: drawing random factors with
  `rand`, opening a battle, running a turn together with its report and
  rewards, and what works on floating point: the colour of an HP gauge, the
  easing of a move and the screen position of a tile.
