//! The game state: the maze, the coins left, the player, and what one frame
//! of play does to them.

use vstd::prelude::*;
use crate::grid::{lemma_clone_rows, rows};
use crate::ghost::{ghost_can_move, ghost_home, ghost_moved, Monster};
use crate::player::{coins_eaten, player_queued, player_stepped, probe_in_bounds, probe_ok, Player};

verus! {

/// The game: the maze's size `[width, height]`, its walls and coins by row,
/// whether the last frame drawn showed no coin, whether the frame counter
/// runs, and the player.
pub struct Game {
    pub map_size: [u8; 2],
    pub obstacles: Vec<Vec<u8>>,
    pub coins: Vec<Vec<u8>>,
    pub is_finished: bool,
    pub speed_compensation: bool,
    pub player: Player,
}

/// The game with its grids as sequences of rows.
pub struct GameView {
    pub map_size: [u8; 2],
    pub obstacles: Seq<Seq<u8>>,
    pub coins: Seq<Seq<u8>>,
    pub is_finished: bool,
    pub speed_compensation: bool,
    pub player: Player,
}

impl View for Game {
    type V = GameView;

    open spec fn view(&self) -> GameView {
        GameView {
            map_size: self.map_size,
            obstacles: rows(&self.obstacles),
            coins: rows(&self.coins),
            is_finished: self.is_finished,
            speed_compensation: self.speed_compensation,
            player: self.player,
        }
    }
}

/// What one cell of a drawn frame shows.
#[derive(PartialEq, Eq, Structural, Clone, Copy, Debug)]
pub enum Tile {
    Wall,
    Player,
    RedGhost,
    OrangeGhost,
    BlueGhost,
    PinkGhost,
    Coin,
    Empty,
}

/// A key as the game reads it.
#[derive(PartialEq, Eq, Structural, Clone, Copy, Debug)]
pub enum Key {
    Char(char),
    Up,
    Left,
    Down,
    Right,
    Tab,
    Other,
}

/// What a key event asks of the game.
#[derive(PartialEq, Eq, Structural, Clone, Copy, Debug)]
pub enum Command {
    /// Leave the game.
    Quit,
    /// Show the winning screen and leave.
    Finish,
    /// Queue this direction for the player.
    Steer(u8),
    /// Nothing.
    Ignore,
}

/// What a key event asks: only releases count; `q` quits, Tab finishes,
/// `w`/Up, `a`/Left, `s`/Down and `d`/Right queue directions 0 to 3.
pub open spec fn command_spec(key: Key, released: bool) -> Command {
    if !released {
        Command::Ignore
    } else {
        match key {
            Key::Char(c) => if c == 'q' {
                Command::Quit
            } else if c == 'w' {
                Command::Steer(0)
            } else if c == 'a' {
                Command::Steer(1)
            } else if c == 's' {
                Command::Steer(2)
            } else if c == 'd' {
                Command::Steer(3)
            } else {
                Command::Ignore
            },
            Key::Tab => Command::Finish,
            Key::Up => Command::Steer(0),
            Key::Left => Command::Steer(1),
            Key::Down => Command::Steer(2),
            Key::Right => Command::Steer(3),
            Key::Other => Command::Ignore,
        }
    }
}

/// What a key event asks of the game.
pub fn command_for(key: Key, released: bool) -> (command: Command)
    ensures
        command == command_spec(key, released),
{
    if !released {
        return Command::Ignore;
    }
    match key {
        Key::Char(c) => {
            if c == 'q' {
                Command::Quit
            } else if c == 'w' {
                Command::Steer(0)
            } else if c == 'a' {
                Command::Steer(1)
            } else if c == 's' {
                Command::Steer(2)
            } else if c == 'd' {
                Command::Steer(3)
            } else {
                Command::Ignore
            }
        },
        Key::Tab => Command::Finish,
        Key::Up => Command::Steer(0),
        Key::Left => Command::Steer(1),
        Key::Down => Command::Steer(2),
        Key::Right => Command::Steer(3),
        Key::Other => Command::Ignore,
    }
}

/// How a frame of play ends.
#[derive(PartialEq, Eq, Structural, Clone, Copy, Debug)]
pub enum Outcome {
    /// Play goes on: the frame is to be drawn.
    Continue,
    /// The last heart is lost.
    GameOver,
    /// The previous frame showed no coin.
    Won,
}

/// The result of one frame of play.
pub struct FrameReport {
    pub outcome: Outcome,
    /// Whether the player ate a coin (the coin sound is played then).
    pub coin_eaten: bool,
    /// Whether a ghost caught the player (a heart was lost then).
    pub caught: bool,
}

/// The result of one frame of play, with the picture drawn when play goes on.
pub struct PlayReport {
    pub outcome: Outcome,
    pub coin_eaten: bool,
    pub caught: bool,
    /// The frame drawn: empty unless the outcome is `Continue`.
    pub picture: Vec<Vec<Tile>>,
}

/// The player's part of a frame: a step in the walking direction, then the
/// queued direction tried, then the coins on the player's cell eaten.
pub open spec fn player_turn(g: GameView) -> GameView {
    let p1 = player_stepped(g.player, g.obstacles, g.player.current_direction);
    let p2 = player_queued(p1, g.obstacles);
    GameView { player: p2, coins: coins_eaten(g.coins, p2.position[0], p2.position[1]), ..g }
}

/// The player's part of a frame stays inside the grids and the `u8` range.
pub open spec fn turn_safe(g: GameView) -> bool {
    let p = g.player;
    let n = g.obstacles.len();
    let p1 = player_stepped(p, g.obstacles, p.current_direction);
    &&& probe_ok(p.position[0], p.position[1], p.current_direction, n)
    &&& p1.position[0] % 2 == 0 ==> probe_ok(
        p1.position[0],
        p1.position[1],
        p1.direction_queue,
        n,
    )
    &&& p1.position[1] < g.coins.len()
}

/// The ghost shares the player's cell.
pub open spec fn caught(p: Player, g: Monster) -> bool {
    p.position[0] == g.position[0] && p.position[1] == g.position[1]
}

/// Some ghost shares the player's cell.
pub open spec fn any_caught(p: Player, m: (Monster, Monster, Monster, Monster)) -> bool {
    caught(p, m.0) || caught(p, m.1) || caught(p, m.2) || caught(p, m.3)
}

/// The player after being caught: one heart less, back on the start cell
/// `[24, 18]`, walking and wishing left.
pub open spec fn restarted(p: Player) -> Player {
    Player {
        position: [24, 18],
        direction_queue: 1,
        current_direction: 1,
        hearts: (p.hearts - 1) as u8,
        ..p
    }
}

/// The game and ghosts after the catch check: on a catch, the walls and coins
/// are put back to `obs0` and `coins0`, the player restarts and every ghost
/// goes home; otherwise nothing changes.
pub open spec fn settled(
    g: GameView,
    m: (Monster, Monster, Monster, Monster),
    obs0: Seq<Seq<u8>>,
    coins0: Seq<Seq<u8>>,
) -> (GameView, (Monster, Monster, Monster, Monster)) {
    if any_caught(g.player, m) {
        (
            GameView { obstacles: obs0, coins: coins0, player: restarted(g.player), ..g },
            (ghost_home(), ghost_home(), ghost_home(), ghost_home()),
        )
    } else {
        (g, m)
    }
}

/// How a frame ends in state `g`: lost when no heart is left, else won when
/// the last frame drawn showed no coin, else it goes on.
pub open spec fn outcome_of(g: GameView) -> Outcome {
    if g.player.hearts == 0 {
        Outcome::GameOver
    } else if g.is_finished {
        Outcome::Won
    } else {
        Outcome::Continue
    }
}

/// The game after a frame is drawn: finished when the frame shows no coin,
/// otherwise as it was.
pub open spec fn drawn(g: GameView, red: [u8; 2], orange: [u8; 2], blue: [u8; 2], pink: [u8; 2]) -> GameView {
    GameView { is_finished: g.is_finished || coins_shown(g, red, orange, blue, pink) == 0, ..g }
}

/// A frame can be played from `g` with these ghosts: every step stays inside
/// the grids, and a heart is left to lose.
pub open spec fn frame_safe(g: GameView, m: (Monster, Monster, Monster, Monster)) -> bool {
    &&& g.player.hearts > 0
    &&& turn_safe(g)
    &&& ghost_can_move(m.0, g.obstacles)
    &&& ghost_can_move(m.1, g.obstacles)
    &&& ghost_can_move(m.2, g.obstacles)
    &&& ghost_can_move(m.3, g.obstacles)
}

/// `(h, n)` is a possible end of a frame from game `g` with ghosts `m`:
/// the player's turn, then some random step of each ghost, then the catch
/// check.
pub open spec fn frame_result(
    g: GameView,
    m: (Monster, Monster, Monster, Monster),
    obs0: Seq<Seq<u8>>,
    coins0: Seq<Seq<u8>>,
    h: GameView,
    n: (Monster, Monster, Monster, Monster),
    caught: bool,
) -> bool {
    let t = player_turn(g);
    exists|moved: (Monster, Monster, Monster, Monster)|
        {
            &&& ghost_moved(m.0, moved.0, g.obstacles)
            &&& ghost_moved(m.1, moved.1, g.obstacles)
            &&& ghost_moved(m.2, moved.2, g.obstacles)
            &&& ghost_moved(m.3, moved.3, g.obstacles)
            &&& caught == any_caught(t.player, moved)
            &&& #[trigger] settled(t, moved, obs0, coins0) == (h, n)
        }
}

/// The game after the frame counter counts a frame, when it runs.
pub open spec fn ticked(g: GameView) -> GameView {
    GameView {
        player: Player {
            frames: if g.speed_compensation { (g.player.frames + 1) as u32 } else { g.player.frames },
            ..g.player
        },
        ..g
    }
}

/// `(h, n)` is a possible end of a whole frame of play from `(g, m)`: the
/// frame itself (see `frame_result`), then, when play goes on, the frame
/// drawn and counted.
pub open spec fn played(
    g: GameView,
    m: (Monster, Monster, Monster, Monster),
    obs0: Seq<Seq<u8>>,
    coins0: Seq<Seq<u8>>,
    h: GameView,
    n: (Monster, Monster, Monster, Monster),
    outcome: Outcome,
    caught: bool,
) -> bool {
    exists|mid: GameView|
        {
            &&& #[trigger] frame_result(g, m, obs0, coins0, mid, n, caught)
            &&& outcome == outcome_of(mid)
            &&& h == if outcome == Outcome::Continue {
                ticked(drawn(mid, n.0.position, n.1.position, n.2.position, n.3.position))
            } else {
                mid
            }
        }
}

/// The game after a key event: a direction key queues its direction,
/// anything else leaves the game as it is.
pub open spec fn key_effect(g: GameView, key: Key, released: bool) -> GameView {
    match command_spec(key, released) {
        Command::Steer(d) => GameView { player: Player { direction_queue: d, ..g.player }, ..g },
        _ => g,
    }
}

/// A frame is due once 120 ms have passed since the last one.
pub fn frame_due(elapsed_ms: u128) -> (due: bool)
    ensures
        due == (elapsed_ms >= 120),
{
    elapsed_ms >= 120
}

/// `pos` is the cell `(x, y)`.
pub open spec fn at(pos: [u8; 2], x: u8, y: u8) -> bool {
    pos[0] == x && pos[1] == y
}

/// What the cell `(x, y)` shows: a wall over the player over the red,
/// orange, blue and pink ghosts over a coin. A grid row counts only when its
/// number is below the grid's row count taken modulo 256.
pub open spec fn tile_spec(
    g: GameView,
    red: [u8; 2],
    orange: [u8; 2],
    blue: [u8; 2],
    pink: [u8; 2],
    x: u8,
    y: u8,
) -> Tile {
    if y < g.obstacles.len() % 256 && g.obstacles[y as int].contains(x) {
        Tile::Wall
    } else if at(g.player.position, x, y) {
        Tile::Player
    } else if at(red, x, y) {
        Tile::RedGhost
    } else if at(orange, x, y) {
        Tile::OrangeGhost
    } else if at(blue, x, y) {
        Tile::BlueGhost
    } else if at(pink, x, y) {
        Tile::PinkGhost
    } else if y < g.coins.len() % 256 && g.coins[y as int].contains(x) {
        Tile::Coin
    } else {
        Tile::Empty
    }
}

/// The whole frame: `map_size[1]` rows of `map_size[0]` cells.
pub open spec fn frame_spec(
    g: GameView,
    red: [u8; 2],
    orange: [u8; 2],
    blue: [u8; 2],
    pink: [u8; 2],
) -> Seq<Seq<Tile>> {
    Seq::new(
        g.map_size[1] as nat,
        |y: int| Seq::new(g.map_size[0] as nat, |x: int| tile_spec(g, red, orange, blue, pink, x as u8, y as u8)),
    )
}

/// The coins among the first `n` cells of a row.
pub open spec fn coins_in_row(row: Seq<Tile>, n: int) -> nat
    decreases n,
{
    if n <= 0 {
        0
    } else {
        coins_in_row(row, n - 1) + if row[n - 1] == Tile::Coin { 1nat } else { 0nat }
    }
}

/// The coins in the first `m` rows of a frame.
pub open spec fn coins_in_frame(f: Seq<Seq<Tile>>, m: int) -> nat
    decreases m,
{
    if m <= 0 {
        0
    } else {
        coins_in_frame(f, m - 1) + coins_in_row(f[m - 1], f[m - 1].len() as int)
    }
}

/// The coins a frame shows.
pub open spec fn coins_shown(
    g: GameView,
    red: [u8; 2],
    orange: [u8; 2],
    blue: [u8; 2],
    pink: [u8; 2],
) -> nat {
    let f = frame_spec(g, red, orange, blue, pink);
    coins_in_frame(f, f.len() as int)
}

/// A row shows no coin among its first `n` cells exactly when none of them
/// is a coin.
proof fn lemma_no_coin_in_row(row: Seq<Tile>, n: int)
    requires
        0 <= n <= row.len(),
    ensures
        coins_in_row(row, n) == 0 <==> forall|i: int| 0 <= i < n ==> row[i] != Tile::Coin,
    decreases n,
{
    if n > 0 {
        lemma_no_coin_in_row(row, n - 1);
    }
}

/// A frame shows no coin in its first `m` rows exactly when none of their
/// cells is a coin.
proof fn lemma_no_coin_in_frame(f: Seq<Seq<Tile>>, m: int)
    requires
        0 <= m <= f.len(),
    ensures
        coins_in_frame(f, m) == 0 <==> forall|y: int, x: int|
            0 <= y < m && 0 <= x < f[y].len() ==> f[y][x] != Tile::Coin,
    decreases m,
{
    if m > 0 {
        lemma_no_coin_in_frame(f, m - 1);
        lemma_no_coin_in_row(f[m - 1], f[m - 1].len() as int);
        if coins_in_frame(f, m) != 0 {
            if coins_in_frame(f, m - 1) != 0 {
                let (y, x) = choose|y: int, x: int|
                    0 <= y < m - 1 && 0 <= x < f[y].len() && f[y][x] == Tile::Coin;
                assert(0 <= y < m && 0 <= x < f[y].len() && f[y][x] == Tile::Coin);
            } else {
                let row = f[m - 1];
                let x = choose|x: int| 0 <= x < row.len() && #[trigger] row[x] == Tile::Coin;
                assert(f[m - 1][x] == Tile::Coin);
            }
        }
    }
}

/// Drawing marks the game finished exactly when it already was or no cell
/// `(x, y)` of the frame (`x` below the width, `y` below the height) shows a
/// coin: one coin in sight keeps an unfinished game going.
pub proof fn law_finished_exactly_without_coins(
    g: GameView,
    red: [u8; 2],
    orange: [u8; 2],
    blue: [u8; 2],
    pink: [u8; 2],
)
    ensures
        drawn(g, red, orange, blue, pink).is_finished == (g.is_finished || forall|y: int, x: int|
            0 <= y < g.map_size[1] && 0 <= x < g.map_size[0] ==> #[trigger] tile_spec(
                g,
                red,
                orange,
                blue,
                pink,
                x as u8,
                y as u8,
            ) != Tile::Coin),
        drawn(g, red, orange, blue, pink) == (GameView { is_finished: drawn(g, red, orange, blue, pink).is_finished, ..g }),
{
    let f = frame_spec(g, red, orange, blue, pink);
    lemma_no_coin_in_frame(f, f.len() as int);
    assert forall|y: int, x: int| 0 <= y < g.map_size[1] && 0 <= x < g.map_size[0] implies f[y][x]
        == #[trigger] tile_spec(g, red, orange, blue, pink, x as u8, y as u8) by {}
}

/// Any one of the four ghosts on the player's cell is a catch, and only
/// that is: a catch costs exactly one heart, puts the player back on
/// `[24, 18]`, every ghost on `[21, 11]` and the walls and coins as at the
/// start; without one the game and the ghosts stay as they are.
pub proof fn law_any_ghost_on_the_player_is_a_catch(
    g: GameView,
    m: (Monster, Monster, Monster, Monster),
    obs0: Seq<Seq<u8>>,
    coins0: Seq<Seq<u8>>,
)
    requires
        g.player.hearts > 0,
    ensures
        ({
            let p = g.player.position;
            let hit = (m.0.position[0] == p[0] && m.0.position[1] == p[1]) || (m.1.position[0] == p[0]
                && m.1.position[1] == p[1]) || (m.2.position[0] == p[0] && m.2.position[1] == p[1]) || (
            m.3.position[0] == p[0] && m.3.position[1] == p[1]);
            let (h, n) = settled(g, m, obs0, coins0);
            &&& any_caught(g.player, m) == hit
            &&& hit ==> {
                &&& h.player.hearts == g.player.hearts - 1
                &&& h.player.position[0] == 24 && h.player.position[1] == 18
                &&& h.player.current_direction == 1 && h.player.direction_queue == 1
                &&& n.0.position[0] == 21 && n.0.position[1] == 11
                &&& n.1.position[0] == 21 && n.1.position[1] == 11
                &&& n.2.position[0] == 21 && n.2.position[1] == 11
                &&& n.3.position[0] == 21 && n.3.position[1] == 11
                &&& h.obstacles == obs0 && h.coins == coins0
            }
            &&& !hit ==> h == g && n == m
        }),
{
}

/// What a cell shows, layer by layer: a wall wherever the wall grid lists it
/// (rows counted below the row count modulo 256); else the player on its
/// cell; else the first of the red, orange, blue and pink ghosts on it; else
/// a coin wherever the coin grid lists one; else nothing.
pub proof fn law_tile_layers(
    g: GameView,
    red: [u8; 2],
    orange: [u8; 2],
    blue: [u8; 2],
    pink: [u8; 2],
    x: u8,
    y: u8,
)
    ensures
        ({
            let t = tile_spec(g, red, orange, blue, pink, x, y);
            let wall = y < g.obstacles.len() % 256 && g.obstacles[y as int].contains(x);
            let player = g.player.position[0] == x && g.player.position[1] == y;
            let r = red[0] == x && red[1] == y;
            let o = orange[0] == x && orange[1] == y;
            let b = blue[0] == x && blue[1] == y;
            let k = pink[0] == x && pink[1] == y;
            let coin = y < g.coins.len() % 256 && g.coins[y as int].contains(x);
            &&& t == Tile::Wall <==> wall
            &&& t == Tile::Player <==> !wall && player
            &&& t == Tile::RedGhost <==> !wall && !player && r
            &&& t == Tile::OrangeGhost <==> !wall && !player && !r && o
            &&& t == Tile::BlueGhost <==> !wall && !player && !r && !o && b
            &&& t == Tile::PinkGhost <==> !wall && !player && !r && !o && !b && k
            &&& t == Tile::Coin <==> !wall && !player && !r && !o && !b && !k && coin
            &&& t == Tile::Empty <==> !wall && !player && !r && !o && !b && !k && !coin
        }),
{
}

/// A catch costs exactly one heart and puts everything back: the player on
/// its start cell, every ghost at home, the walls and coins as at the start.
/// Without a catch nothing changes. Either way the finished flag, the maze
/// size and the frame count stay.
pub proof fn law_catch_costs_one_heart(
    g: GameView,
    m: (Monster, Monster, Monster, Monster),
    obs0: Seq<Seq<u8>>,
    coins0: Seq<Seq<u8>>,
)
    requires
        g.player.hearts > 0,
    ensures
        ({
            let (h, n) = settled(g, m, obs0, coins0);
            &&& h.player.hearts == g.player.hearts - (if any_caught(g.player, m) { 1int } else { 0int })
            &&& h.is_finished == g.is_finished
            &&& h.map_size == g.map_size
            &&& h.speed_compensation == g.speed_compensation
            &&& h.player.frames == g.player.frames
            &&& any_caught(g.player, m) ==> {
                &&& h.obstacles == obs0 && h.coins == coins0
                &&& at(h.player.position, 24, 18)
                &&& n == (ghost_home(), ghost_home(), ghost_home(), ghost_home())
            }
            &&& !any_caught(g.player, m) ==> h == g && n == m
        }),
{
}

/// A frame loses at most one heart; it never touches the finished flag, the
/// maze size or the frame count; and without a lost heart it keeps the walls
/// and only ever removes coins, those of the player's cell.
pub proof fn law_frame_keeps_score(
    g: GameView,
    m: (Monster, Monster, Monster, Monster),
    obs0: Seq<Seq<u8>>,
    coins0: Seq<Seq<u8>>,
    h: GameView,
    n: (Monster, Monster, Monster, Monster),
    caught: bool,
)
    requires
        g.player.hearts > 0,
        turn_safe(g),
        frame_result(g, m, obs0, coins0, h, n, caught),
    ensures
        h.player.hearts == g.player.hearts - (if caught { 1int } else { 0int }),
        caught ==> n == (ghost_home(), ghost_home(), ghost_home(), ghost_home()) && at(h.player.position, 24, 18),
        h.is_finished == g.is_finished,
        h.map_size == g.map_size,
        h.speed_compensation == g.speed_compensation,
        h.player.frames == g.player.frames,
        h.player.hearts == g.player.hearts ==> {
            &&& h.obstacles == g.obstacles
            &&& h.coins.len() == g.coins.len()
            &&& forall|r: int, c: u8|
                0 <= r < g.coins.len() && #[trigger] h.coins[r].contains(c) ==> g.coins[r].contains(c)
        },
        outcome_of(h) == Outcome::GameOver <==> h.player.hearts == 0,
{
    let t = player_turn(g);
    let moved = choose|moved: (Monster, Monster, Monster, Monster)|
        {
            &&& ghost_moved(m.0, moved.0, g.obstacles)
            &&& ghost_moved(m.1, moved.1, g.obstacles)
            &&& ghost_moved(m.2, moved.2, g.obstacles)
            &&& ghost_moved(m.3, moved.3, g.obstacles)
            &&& caught == any_caught(t.player, moved)
            &&& #[trigger] settled(t, moved, obs0, coins0) == (h, n)
        };
    law_catch_costs_one_heart(t, moved, obs0, coins0);
    let p2 = t.player;
    crate::player::law_eating_removes_only_that_cell(g.coins, p2.position[0], p2.position[1]);
}

impl Game {
    /// Puts the walls and coins back to the given grids.
    pub fn default(&mut self, obstacle_coordinates: Vec<Vec<u8>>, coin_coordinates: Vec<Vec<u8>>)
        ensures
            final(self)@ == (GameView {
                obstacles: rows(&obstacle_coordinates),
                coins: rows(&coin_coordinates),
                ..old(self)@
            }),
    {
        self.obstacles = obstacle_coordinates;
        self.coins = coin_coordinates;
    }

    /// What the cell `(x, y)` shows, with the ghosts at the given cells.
    pub fn tile_at(
        &self,
        red_ghost_pos: &[u8; 2],
        orange_ghost_pos: &[u8; 2],
        blue_ghost_pos: &[u8; 2],
        pink_ghost_pos: &[u8; 2],
        x: u8,
        y: u8,
    ) -> (tile: Tile)
        ensures
            tile == tile_spec(self@, *red_ghost_pos, *orange_ghost_pos, *blue_ghost_pos, *pink_ghost_pos, x, y),
    {
        let obstacle_rows = self.obstacles.len();
        let coin_rows = self.coins.len();
        assert((obstacle_rows as u8) == obstacle_rows % 256) by (bit_vector);
        assert((coin_rows as u8) == coin_rows % 256) by (bit_vector);
        if y < obstacle_rows as u8 && crate::grid::row_contains(&self.obstacles[y as usize], x) {
            assert(self@.obstacles[y as int] == self.obstacles@[y as int]@);
            Tile::Wall
        } else if self.player.position[0] == x && self.player.position[1] == y {
            proof {
                if y < obstacle_rows % 256 {
                    assert(self@.obstacles[y as int] == self.obstacles@[y as int]@);
                }
            }
            Tile::Player
        } else {
            proof {
                if y < obstacle_rows % 256 {
                    assert(self@.obstacles[y as int] == self.obstacles@[y as int]@);
                }
                if y < coin_rows % 256 {
                    assert(self@.coins[y as int] == self.coins@[y as int]@);
                }
            }
            if red_ghost_pos[0] == x && red_ghost_pos[1] == y {
                Tile::RedGhost
            } else if orange_ghost_pos[0] == x && orange_ghost_pos[1] == y {
                Tile::OrangeGhost
            } else if blue_ghost_pos[0] == x && blue_ghost_pos[1] == y {
                Tile::BlueGhost
            } else if pink_ghost_pos[0] == x && pink_ghost_pos[1] == y {
                Tile::PinkGhost
            } else if y < coin_rows as u8 && crate::grid::row_contains(&self.coins[y as usize], x) {
                Tile::Coin
            } else {
                Tile::Empty
            }
        }
    }
    /// Lays out the frame with the ghosts at the given cells, and marks the
    /// game finished when the frame shows no coin.
    pub fn draw(
        &mut self,
        red_ghost_pos: &[u8; 2],
        orange_ghost_pos: &[u8; 2],
        blue_ghost_pos: &[u8; 2],
        pink_ghost_pos: &[u8; 2],
    ) -> (frame: Vec<Vec<Tile>>)
        ensures
            ({
                let fs = frame_spec(old(self)@, *red_ghost_pos, *orange_ghost_pos, *blue_ghost_pos, *pink_ghost_pos);
                &&& frame.len() == fs.len()
                &&& forall|y: int| 0 <= y < fs.len() ==> #[trigger] frame@[y]@ == fs[y]
            }),
            final(self)@ == drawn(old(self)@, *red_ghost_pos, *orange_ghost_pos, *blue_ghost_pos, *pink_ghost_pos),
            final(self).is_finished == (old(self).is_finished || forall|y: int, x: int|
                0 <= y < frame.len() && 0 <= x < frame@[y].len() ==> frame@[y]@[x] != Tile::Coin),
    {
        let ghost fs = frame_spec(self@, *red_ghost_pos, *orange_ghost_pos, *blue_ghost_pos, *pink_ghost_pos);
        let width = self.map_size[0];
        let height = self.map_size[1];
        let mut frame: Vec<Vec<Tile>> = Vec::new();
        let mut coin_counter: usize = 0;
        let mut y: u8 = 0;
        while y < height
            invariant
                fs == frame_spec(self@, *red_ghost_pos, *orange_ghost_pos, *blue_ghost_pos, *pink_ghost_pos),
                width == self.map_size[0],
                height == self.map_size[1],
                fs.len() == height,
                y <= height,
                frame.len() == y,
                forall|j: int| 0 <= j < y ==> #[trigger] frame@[j]@ == fs[j],
                coin_counter == coins_in_frame(fs, y as int),
                coin_counter <= (y as int) * 256,
            decreases height - y,
        {
            let mut row: Vec<Tile> = Vec::new();
            let mut x: u8 = 0;
            let ghost start = coin_counter;
            assert(fs[y as int].len() == width);
            while x < width
                invariant
                    fs == frame_spec(self@, *red_ghost_pos, *orange_ghost_pos, *blue_ghost_pos, *pink_ghost_pos),
                    width == self.map_size[0],
                    height == self.map_size[1],
                    fs.len() == height,
                    y < height,
                    fs[y as int].len() == width,
                    x <= width,
                    row@ =~= fs[y as int].take(x as int),
                    start == coins_in_frame(fs, y as int),
                    start <= (y as int) * 256,
                    coin_counter == start + coins_in_row(fs[y as int], x as int),
                    coins_in_row(fs[y as int], x as int) <= x,
                decreases width - x,
            {
                let tile = self.tile_at(red_ghost_pos, orange_ghost_pos, blue_ghost_pos, pink_ghost_pos, x, y);
                assert(tile == fs[y as int][x as int]);
                if tile == Tile::Coin {
                    coin_counter += 1;
                }
                row.push(tile);
                x += 1;
            }
            assert(fs[y as int].take(width as int) =~= fs[y as int]);
            frame.push(row);
            y += 1;
        }
        if coin_counter == 0 {
            self.is_finished = true;
        }
        proof {
            lemma_no_coin_in_frame(fs, fs.len() as int);
            assert forall|y: int, x: int| 0 <= y < frame.len() && 0 <= x < frame@[y].len() implies
                frame@[y]@[x] == fs[y][x] by {}
        }
        frame
    }

    /// The player's part of a frame; returns whether a coin was eaten.
    pub fn player_turn(&mut self) -> (eaten: bool)
        requires
            turn_safe(old(self)@),
        ensures
            final(self)@ == player_turn(old(self)@),
            eaten == old(self)@.coins[player_turn(old(self)@).player.position[1] as int].contains(
                player_turn(old(self)@).player.position[0],
            ),
    {
        self.player.move_player(&self.obstacles);
        self.player.queue_checker(&self.obstacles);
        self.player.check_position(&mut self.coins)
    }

    /// The catch check of a frame, and how the frame ends.
    pub fn settle(
        &mut self,
        red: &mut Monster,
        orange: &mut Monster,
        blue: &mut Monster,
        pink: &mut Monster,
        obstacle_coordinates: &Vec<Vec<u8>>,
        coin_coordinates: &Vec<Vec<u8>>,
    ) -> (result: (Outcome, bool))
        requires
            any_caught(old(self).player, (*old(red), *old(orange), *old(blue), *old(pink)))
                ==> old(self).player.hearts > 0,
        ensures
            result.1 == any_caught(old(self).player, (*old(red), *old(orange), *old(blue), *old(pink))),
            result.1 == ((old(red).position[0] == old(self).player.position[0] && old(red).position[1]
                == old(self).player.position[1]) || (old(orange).position[0] == old(self).player.position[0]
                && old(orange).position[1] == old(self).player.position[1]) || (old(blue).position[0]
                == old(self).player.position[0] && old(blue).position[1] == old(self).player.position[1])
                || (old(pink).position[0] == old(self).player.position[0] && old(pink).position[1]
                == old(self).player.position[1])),
            (final(self)@, (*final(red), *final(orange), *final(blue), *final(pink))) == settled(
                old(self)@,
                (*old(red), *old(orange), *old(blue), *old(pink)),
                rows(obstacle_coordinates),
                rows(coin_coordinates),
            ),
            result.0 == outcome_of(final(self)@),
    {
        let mut remove_heart: bool = false;
        let p = self.player.position;
        if red.position[0] == p[0] && red.position[1] == p[1] {
            remove_heart = true;
        }
        if orange.position[0] == p[0] && orange.position[1] == p[1] {
            remove_heart = true;
        }
        if blue.position[0] == p[0] && blue.position[1] == p[1] {
            remove_heart = true;
        }
        if pink.position[0] == p[0] && pink.position[1] == p[1] {
            remove_heart = true;
        }
        if remove_heart {
            let obs = obstacle_coordinates.clone();
            let coins = coin_coordinates.clone();
            proof {
                lemma_clone_rows(*obstacle_coordinates, obs);
                lemma_clone_rows(*coin_coordinates, coins);
            }
            self.default(obs, coins);
            red.default();
            orange.default();
            blue.default();
            pink.default();
            self.player.hearts = self.player.hearts - 1;
            self.player.default();
        }
        let outcome = if self.player.hearts == 0 {
            Outcome::GameOver
        } else if self.is_finished {
            Outcome::Won
        } else {
            Outcome::Continue
        };
        (outcome, remove_heart)
    }

    /// Whether a frame can be played now (see `frame_safe`).
    pub fn frame_is_safe(&self, red: &Monster, orange: &Monster, blue: &Monster, pink: &Monster) -> (ok: bool)
        ensures
            ok == frame_safe(self@, (*red, *orange, *blue, *pink)),
    {
        let n = self.obstacles.len();
        let p = self.player;
        if self.player.hearts == 0 {
            return false;
        }
        if !probe_in_bounds(p.position[0], p.position[1], p.current_direction, n) {
            return false;
        }
        let mut p1 = self.player;
        p1.move_player(&self.obstacles);
        if p1.position[0] % 2 == 0 && !probe_in_bounds(p1.position[0], p1.position[1], p1.direction_queue, n) {
            return false;
        }
        if !((p1.position[1] as usize) < self.coins.len()) {
            return false;
        }
        red.can_move(&self.obstacles) && orange.can_move(&self.obstacles) && blue.can_move(&self.obstacles)
            && pink.can_move(&self.obstacles)
    }

    /// One frame of play: the player's turn, a random step of each ghost,
    /// and the catch check, which puts everything back to the start grids
    /// `obstacle_coordinates` and `coin_coordinates` when a ghost caught the
    /// player.
    pub fn frame(
        &mut self,
        red: &mut Monster,
        orange: &mut Monster,
        blue: &mut Monster,
        pink: &mut Monster,
        obstacle_coordinates: &Vec<Vec<u8>>,
        coin_coordinates: &Vec<Vec<u8>>,
    ) -> (report: FrameReport)
        requires
            frame_safe(old(self)@, (*old(red), *old(orange), *old(blue), *old(pink))),
        ensures
            frame_result(
                old(self)@,
                (*old(red), *old(orange), *old(blue), *old(pink)),
                rows(obstacle_coordinates),
                rows(coin_coordinates),
                final(self)@,
                (*final(red), *final(orange), *final(blue), *final(pink)),
                report.caught,
            ),
            report.coin_eaten == old(self)@.coins[player_turn(old(self)@).player.position[1] as int].contains(
                player_turn(old(self)@).player.position[0],
            ),
            report.outcome == outcome_of(final(self)@),
    {
        let ghost g0 = self@;
        let coin_eaten = self.player_turn();
        assert(self@.obstacles == g0.obstacles);
        red.move_ghost(&self.obstacles);
        orange.move_ghost(&self.obstacles);
        blue.move_ghost(&self.obstacles);
        pink.move_ghost(&self.obstacles);
        let ghost moved = (*red, *orange, *blue, *pink);
        let ghost t = self@;
        let (outcome, caught) = self.settle(red, orange, blue, pink, obstacle_coordinates, coin_coordinates);
        assert(settled(t, moved, rows(obstacle_coordinates), rows(coin_coordinates)) == (
            self@,
            (*red, *orange, *blue, *pink),
        ));
        FrameReport { outcome, coin_eaten, caught }
    }

    /// Counts the frame just drawn, when the game keeps count.
    pub fn tick(&mut self)
        requires
            old(self).speed_compensation ==> old(self).player.frames < u32::MAX,
        ensures
            final(self)@ == ticked(old(self)@),
    {
        if self.speed_compensation {
            self.player.frames += 1;
        }
    }
    /// Reads a key event: queues a direction for the player when it asks
    /// for one, and returns what it asks.
    pub fn handle_key(&mut self, key: Key, released: bool) -> (command: Command)
        ensures
            command == command_spec(key, released),
            final(self)@ == key_effect(old(self)@, key, released),
    {
        let command = command_for(key, released);
        if let Command::Steer(d) = command {
            self.player.direction_queue = d;
        }
        command
    }
    /// A whole frame of play: the frame itself (see `frame`), then, when play
    /// goes on, the frame drawn and counted.
    pub fn play_frame(
        &mut self,
        red: &mut Monster,
        orange: &mut Monster,
        blue: &mut Monster,
        pink: &mut Monster,
        obstacle_coordinates: &Vec<Vec<u8>>,
        coin_coordinates: &Vec<Vec<u8>>,
    ) -> (report: PlayReport)
        requires
            frame_safe(old(self)@, (*old(red), *old(orange), *old(blue), *old(pink))),
            old(self).speed_compensation && old(self).player.frames == u32::MAX ==> old(self).is_finished,
        ensures
            played(
                old(self)@,
                (*old(red), *old(orange), *old(blue), *old(pink)),
                rows(obstacle_coordinates),
                rows(coin_coordinates),
                final(self)@,
                (*final(red), *final(orange), *final(blue), *final(pink)),
                report.outcome,
                report.caught,
            ),
            report.coin_eaten == old(self)@.coins[player_turn(old(self)@).player.position[1] as int].contains(
                player_turn(old(self)@).player.position[0],
            ),
            report.outcome == Outcome::Continue ==> ({
                let fs = frame_spec(
                    final(self)@,
                    final(red).position,
                    final(orange).position,
                    final(blue).position,
                    final(pink).position,
                );
                &&& report.picture.len() == fs.len()
                &&& forall|y: int| 0 <= y < fs.len() ==> #[trigger] report.picture@[y]@ == fs[y]
            }),
            report.outcome != Outcome::Continue ==> report.picture.len() == 0,
    {
        let ghost g0 = self@;
        let ghost m0 = (*red, *orange, *blue, *pink);
        let report = self.frame(red, orange, blue, pink, obstacle_coordinates, coin_coordinates);
        let ghost mid = self@;
        let ghost n = (*red, *orange, *blue, *pink);
        proof {
            law_frame_keeps_score(g0, m0, rows(obstacle_coordinates), rows(coin_coordinates), mid, n, report.caught);
        }
        let mut picture: Vec<Vec<Tile>> = Vec::new();
        if report.outcome == Outcome::Continue {
            picture = self.draw(&red.position, &orange.position, &blue.position, &pink.position);
            self.tick();
        }
        assert(frame_result(g0, m0, rows(obstacle_coordinates), rows(coin_coordinates), mid, n, report.caught));
        PlayReport { outcome: report.outcome, coin_eaten: report.coin_eaten, caught: report.caught, picture }
    }
}

} // verus!
