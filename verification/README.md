# ttrpg_tool

Rules and bookkeeping for running an old-school tabletop role-playing game: dice, character
sheets, classes and races, proficiencies, inventories, combat turns, the mortal wounds table,
registries of game content, and the DM's chat commands. The functions of the library in `src/`
carry contracts that Verus proves; the two that draw random numbers from `rand` have contracts
that are trusted.

- `dice`, `notation`: rolls and dice notation (reading and writing it).
- `character`, `race`, `class`, `stat_mod`, `proficiency`, `player`: character sheets and how they
  level up.
- `item`, `inventory`: items, coins and what a character carries and wears.
- `combat`, `turns`, `roster`, `mortal_wounds`, `enemy`, `spell`: fights, who takes part, attacks and
  their outcomes.
- `registry`, `keyed`, `save`, `requests`, `party`, `map`: what the server keeps; `client`: what a
  player's window keeps.
- `commands`, `chat`, `server`, `packets`, `tabs`, `text`: the chat, its commands and what the
  windows show.

`app/` is a small terminal program around the library: the DM's chat and a player's dice roller.
