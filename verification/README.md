# lapin

A turn based game on a grid: the lapin (a rabbit) must reach the grass
while foxes, wolves, knights, hunters, sheep and dragons act by simple
rules. Levels are drawn in a level editor and grouped in campaigns.

The library (`src/`) holds the rules and is verified with Verus:

- `pos`, `pos_map`, `layout`: positions, sparse maps and sets of positions,
  screen areas and the conversion between board and screen positions;
- `actor`, `item`, `terrain`, `actor_map`: what stands on the board, the
  actors being kept with a reference from their position;
- `board`, `world_move`: the game state and the rules applying the moves of
  the lapin and of the world, with the laws they keep (whose turn it is, a
  single lapin always first, dead actors removed);
- `path`, `world`: path finding (the paths found are real paths, a shortest
  one when the search has no hint, and a search gives up only after looking
  at many positions or when no short path exists) and the decisions of each
  kind of actor;
- `level`, `campaign`: levels and campaigns as stored in files, with the
  packing and loading of campaigns;
- `edit`: inks, pens, drawing actions with their undo/redo history, the
  pen panel and the decisions of the level editor;
- `level_choice`, `help`, `status`, `transition`, `commands`, `play`: the
  non-graphical parts of the screens and the launch commands.

`app/` is the program around it: the command line, the JSON files, and the
terminal screens (drawing and reading events), which hand the events to the
library and perform what it decides.
