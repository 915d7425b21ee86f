# pacman

The rules of a terminal PacMan game, verified with Verus.

- `src/grid.rs`: walls and coins as rows of column numbers; the wall check.
- `src/map.rs`: reading those rows out of a text drawing of the maze.
- `src/player.rs`: the player's moves, the direction queue, eating coins.
- `src/ghost.rs`: the ghosts' moves and random turns (draws from `rand`).
- `src/game.rs`: the game state, the frame layout, keys, and one frame of play.
- `src/play.rs`: a run of the game loop, and the laws over whole runs.
- `src/maze.rs`: the maze drawing and the start state.
- `app/main.rs`: the terminal front end (keyboard, timing, colours, sound).
