use pacman::game::{command_for, frame_due, Command, Game, Key, Outcome, Tile};
use pacman::ghost::Monster;
use pacman::player::Player;

fn player(x: u8, y: u8, current: u8, queued: u8, hearts: u8) -> Player {
    Player { position: [x, y], current_direction: current, direction_queue: queued, hearts, frames: 0 }
}

fn parked(x: u8, y: u8) -> Monster {
    Monster { position: [x, y], direction: 9, mortal: false, active: true }
}

/// A 5 x 5 box with one free cell at (2, 2), walled in on every side.
fn cell_walls() -> Vec<Vec<u8>> {
    vec![vec![0, 1, 2, 3, 4], vec![0, 1, 2, 3, 4], vec![0, 1, 3, 4], vec![0, 1, 2, 3, 4], vec![0, 1, 2, 3, 4]]
}

fn small_game(obstacles: Vec<Vec<u8>>, coins: Vec<Vec<u8>>, p: Player) -> Game {
    Game { map_size: [5, 5], obstacles, coins, is_finished: false, speed_compensation: true, player: p }
}

#[test]
fn tile_at_layers_walls_player_ghosts_coins() {
    let obstacles = vec![vec![0], vec![], vec![]];
    let coins = vec![vec![0, 1, 2, 3], vec![1], vec![]];
    let g = Game { map_size: [4, 3], obstacles, coins, is_finished: false, speed_compensation: true, player: player(0, 0, 1, 1, 3) };
    let red = [1, 0];
    let orange = [1, 0];
    let blue = [2, 0];
    let pink = [1, 1];
    assert_eq!(g.tile_at(&red, &orange, &blue, &pink, 0, 0), Tile::Wall);
    assert_eq!(g.tile_at(&red, &orange, &blue, &pink, 1, 0), Tile::RedGhost);
    assert_eq!(g.tile_at(&[9, 9], &orange, &blue, &pink, 1, 0), Tile::OrangeGhost);
    assert_eq!(g.tile_at(&red, &orange, &blue, &pink, 2, 0), Tile::BlueGhost);
    assert_eq!(g.tile_at(&red, &orange, &blue, &pink, 1, 1), Tile::PinkGhost);
    assert_eq!(g.tile_at(&red, &orange, &blue, &pink, 3, 0), Tile::Coin);
    assert_eq!(g.tile_at(&red, &orange, &blue, &pink, 3, 1), Tile::Empty);
    assert_eq!(g.tile_at(&red, &orange, &blue, &pink, 3, 7), Tile::Empty);
    let g2 = Game { player: player(3, 0, 1, 1, 3), ..g };
    assert_eq!(g2.tile_at(&red, &orange, &blue, &pink, 3, 0), Tile::Player);
}

#[test]
fn draw_lays_out_the_frame_and_keeps_playing_while_coins_show() {
    let mut g = Game {
        map_size: [3, 2],
        obstacles: vec![vec![0], vec![]],
        coins: vec![vec![2], vec![1]],
        is_finished: false,
        speed_compensation: true,
        player: player(1, 0, 1, 1, 3),
    };
    let far = [9, 9];
    let frame = g.draw(&far, &far, &[0, 1], &far);
    assert_eq!(
        frame,
        vec![vec![Tile::Wall, Tile::Player, Tile::Coin], vec![Tile::BlueGhost, Tile::Coin, Tile::Empty]]
    );
    assert!(!g.is_finished);
}

#[test]
fn draw_finishes_when_no_coin_shows() {
    let mut g = Game {
        map_size: [3, 1],
        obstacles: vec![vec![]],
        coins: vec![vec![2]],
        is_finished: false,
        speed_compensation: true,
        player: player(0, 0, 1, 1, 3),
    };
    // the last coin hides under the red ghost
    let frame = g.draw(&[2, 0], &[9, 9], &[9, 9], &[9, 9]);
    assert_eq!(frame, vec![vec![Tile::Player, Tile::Empty, Tile::RedGhost]]);
    assert!(g.is_finished);
    // drawing never clears the flag
    let far = [9, 9];
    g.draw(&far, &far, &far, &far);
    assert!(g.is_finished);
}

#[test]
fn a_catch_costs_a_heart_and_restarts_everything() {
    let walls = cell_walls();
    let start_coins = vec![vec![], vec![], vec![2], vec![], vec![]];
    let mut g = small_game(walls.clone(), vec![vec![]; 5], player(2, 2, 1, 1, 3));
    let boxed = Monster { position: [2, 2], direction: 0, mortal: false, active: true };
    let (mut r, mut o, mut b, mut p) = (boxed, boxed, boxed, boxed);
    assert!(g.frame_is_safe(&r, &o, &b, &p));
    let report = g.frame(&mut r, &mut o, &mut b, &mut p, &walls, &start_coins);
    assert_eq!(report.outcome, Outcome::Continue);
    assert!(!report.coin_eaten);
    assert!(report.caught);
    assert_eq!(g.player.hearts, 2);
    assert_eq!(g.player.position, [24, 18]);
    assert_eq!(g.player.current_direction, 1);
    assert_eq!(g.player.direction_queue, 1);
    assert_eq!(g.coins, start_coins);
    assert_eq!(g.obstacles, walls);
    for m in [r, o, b, p] {
        assert_eq!(m.position, [21, 11]);
        assert_eq!(m.direction, 0);
        assert!(!m.active && !m.mortal);
    }
}

#[test]
fn losing_the_last_heart_ends_the_game() {
    let walls = cell_walls();
    let mut g = small_game(walls.clone(), vec![vec![]; 5], player(2, 2, 1, 1, 1));
    let boxed = Monster { position: [2, 2], direction: 0, mortal: false, active: true };
    let (mut r, mut o, mut b, mut p) = (boxed, boxed, boxed, boxed);
    let report = g.frame(&mut r, &mut o, &mut b, &mut p, &walls, &vec![vec![]; 5]);
    assert_eq!(report.outcome, Outcome::GameOver);
    assert_eq!(g.player.hearts, 0);
    assert!(!g.frame_is_safe(&r, &o, &b, &p));
}

#[test]
fn frame_moves_the_player_and_eats() {
    let obstacles = vec![vec![], vec![], vec![0, 4], vec![], vec![]];
    let coins = vec![vec![], vec![], vec![2, 3], vec![], vec![]];
    let mut g = small_game(obstacles.clone(), coins.clone(), player(1, 2, 3, 3, 3));
    let (mut r, mut o, mut b, mut p) = (parked(0, 0), parked(0, 0), parked(0, 0), parked(0, 0));
    assert!(g.frame_is_safe(&r, &o, &b, &p));
    let report = g.frame(&mut r, &mut o, &mut b, &mut p, &obstacles, &coins);
    assert_eq!(report.outcome, Outcome::Continue);
    assert!(report.coin_eaten);
    assert_eq!(g.player.position, [2, 2]);
    assert_eq!(g.player.current_direction, 3);
    assert_eq!(g.coins, vec![vec![], vec![], vec![3], vec![], vec![]]);
    assert_eq!(g.player.hearts, 3);
    assert_eq!(r.position, [0, 0]);
}

#[test]
fn frame_reports_a_win_after_an_empty_frame() {
    let obstacles = vec![vec![], vec![], vec![0, 4], vec![], vec![]];
    let mut g = small_game(obstacles.clone(), vec![vec![]; 5], player(2, 2, 3, 3, 3));
    g.is_finished = true;
    let (mut r, mut o, mut b, mut p) = (parked(0, 0), parked(0, 0), parked(0, 0), parked(0, 0));
    let report = g.frame(&mut r, &mut o, &mut b, &mut p, &obstacles, &vec![vec![]; 5]);
    assert_eq!(report.outcome, Outcome::Won);
}

#[test]
fn settle_without_a_catch_changes_nothing() {
    let walls = cell_walls();
    let mut g = small_game(walls.clone(), vec![vec![1]; 5], player(2, 2, 1, 1, 2));
    let (mut r, mut o, mut b, mut p) = (parked(0, 0), parked(1, 0), parked(2, 0), parked(3, 0));
    let (outcome, caught) = g.settle(&mut r, &mut o, &mut b, &mut p, &vec![], &vec![]);
    assert_eq!(outcome, Outcome::Continue);
    assert!(!caught);
    assert_eq!(g.player.hearts, 2);
    assert_eq!(g.player.position, [2, 2]);
    assert_eq!(g.coins, vec![vec![1]; 5]);
    assert_eq!(p.position, [3, 0]);
}

#[test]
fn frame_is_unsafe_when_a_probe_would_leave_the_grid() {
    let walls = cell_walls();
    let g = small_game(walls.clone(), vec![vec![]; 5], player(1, 2, 1, 1, 3));
    let m = parked(0, 0);
    assert!(!g.frame_is_safe(&m, &m, &m, &m));
    let g = small_game(walls.clone(), vec![vec![]; 5], player(2, 2, 1, 1, 3));
    let stray = Monster { position: [0, 0], direction: 0, mortal: false, active: true };
    assert!(!g.frame_is_safe(&stray, &m, &m, &m));
    assert!(g.frame_is_safe(&m, &m, &m, &m));
}

#[test]
fn keys_map_to_commands_on_release_only() {
    assert_eq!(command_for(Key::Char('q'), true), Command::Quit);
    assert_eq!(command_for(Key::Tab, true), Command::Finish);
    assert_eq!(command_for(Key::Char('w'), true), Command::Steer(0));
    assert_eq!(command_for(Key::Up, true), Command::Steer(0));
    assert_eq!(command_for(Key::Char('a'), true), Command::Steer(1));
    assert_eq!(command_for(Key::Left, true), Command::Steer(1));
    assert_eq!(command_for(Key::Char('s'), true), Command::Steer(2));
    assert_eq!(command_for(Key::Down, true), Command::Steer(2));
    assert_eq!(command_for(Key::Char('d'), true), Command::Steer(3));
    assert_eq!(command_for(Key::Right, true), Command::Steer(3));
    assert_eq!(command_for(Key::Char('x'), true), Command::Ignore);
    assert_eq!(command_for(Key::Other, true), Command::Ignore);
    assert_eq!(command_for(Key::Char('q'), false), Command::Ignore);
    assert_eq!(command_for(Key::Up, false), Command::Ignore);
}

#[test]
fn handle_key_queues_the_direction() {
    let mut g = small_game(cell_walls(), vec![vec![]; 5], player(2, 2, 1, 1, 3));
    assert_eq!(g.handle_key(Key::Char('s'), true), Command::Steer(2));
    assert_eq!(g.player.direction_queue, 2);
    assert_eq!(g.player.current_direction, 1);
    assert_eq!(g.handle_key(Key::Char('q'), true), Command::Quit);
    assert_eq!(g.player.direction_queue, 2);
}

#[test]
fn tick_counts_frames_when_asked() {
    let mut g = small_game(cell_walls(), vec![vec![]; 5], player(2, 2, 1, 1, 3));
    g.tick();
    g.tick();
    assert_eq!(g.player.frames, 2);
    g.speed_compensation = false;
    g.tick();
    assert_eq!(g.player.frames, 2);
}

#[test]
fn game_default_restores_the_grids() {
    let mut g = small_game(vec![], vec![], player(2, 2, 1, 1, 3));
    g.is_finished = true;
    g.default(cell_walls(), vec![vec![2]]);
    assert_eq!(g.obstacles, cell_walls());
    assert_eq!(g.coins, vec![vec![2]]);
    assert!(g.is_finished);
}

#[test]
fn start_frame_shows_every_coin() {
    let mut s = pacman::maze::prepare_game();
    let (r, o, b, p) = (s.red.position, s.orange.position, s.blue.position, s.pink.position);
    let frame = s.game.draw(&r, &o, &b, &p);
    let shown = frame.iter().flatten().filter(|t| **t == Tile::Coin).count();
    assert_eq!(shown, 204);
    assert_eq!(frame.len(), 24);
    assert!(frame.iter().all(|row| row.len() == 49));
    assert_eq!(frame[18][24], Tile::Player);
    assert_eq!(frame[11][21], Tile::RedGhost);
    assert_eq!(frame[11][24], Tile::OrangeGhost);
    assert_eq!(frame[0][0], Tile::Wall);
    assert!(!s.game.is_finished);
    assert!(s.game.frame_is_safe(&s.red, &s.orange, &s.blue, &s.pink));
}

#[test]
fn draw_shows_more_than_255_coins() {
    let width: u8 = 20;
    let all: Vec<u8> = (0..width).collect();
    let mut g = Game {
        map_size: [width, 20],
        obstacles: vec![vec![]; 20],
        coins: vec![all; 20],
        is_finished: false,
        speed_compensation: true,
        player: player(0, 0, 1, 1, 3),
    };
    let far = [99, 99];
    let frame = g.draw(&far, &far, &far, &far);
    let shown = frame.iter().flatten().filter(|t| **t == Tile::Coin).count();
    assert_eq!(shown, 399);
    assert!(!g.is_finished);
}

#[test]
fn frames_are_due_every_120_ms() {
    assert!(!frame_due(0));
    assert!(!frame_due(119));
    assert!(frame_due(120));
    assert!(frame_due(5000));
}

/// 30 rows of 30 wall cells: nobody can move anywhere.
fn all_walls() -> Vec<Vec<u8>> {
    vec![(0..30u8).collect(); 30]
}

#[test]
fn three_catches_end_the_game() {
    let walls = all_walls();
    let no_coins: Vec<Vec<u8>> = vec![vec![]; 30];
    let mut g = Game {
        map_size: [30, 30],
        obstacles: walls.clone(),
        coins: no_coins.clone(),
        is_finished: false,
        speed_compensation: true,
        player: player(24, 18, 1, 1, 3),
    };
    let mut orange = Monster { position: [21, 11], direction: 0, mortal: false, active: false };
    let mut blue = orange;
    let mut pink = orange;
    for round in 0..3 {
        let mut red = parked(24, 18);
        assert!(g.frame_is_safe(&red, &orange, &blue, &pink));
        let report = g.play_frame(&mut red, &mut orange, &mut blue, &mut pink, &walls, &no_coins);
        assert!(report.caught);
        assert_eq!(g.player.hearts, 2 - round as u8);
        if round < 2 {
            assert_eq!(report.outcome, Outcome::Continue);
            // the frame was drawn (it shows no coin) and counted
            assert!(g.is_finished);
            assert_eq!(report.picture.len(), 30);
            assert_eq!(g.player.frames, round as u32 + 1);
        } else {
            assert_eq!(report.outcome, Outcome::GameOver);
            assert!(report.picture.is_empty());
        }
        assert_eq!(red.position, [21, 11]);
        // the empty maze counts as finished, but the catch is checked first
        g.is_finished = false;
    }
}

#[test]
fn an_empty_frame_wins_on_the_next_frame() {
    let walls = all_walls();
    let no_coins: Vec<Vec<u8>> = vec![vec![]; 30];
    let mut g = Game {
        map_size: [30, 30],
        obstacles: walls.clone(),
        coins: vec![vec![5]; 30],
        is_finished: false,
        speed_compensation: true,
        player: player(24, 18, 1, 1, 3),
    };
    let home = Monster { position: [21, 11], direction: 0, mortal: false, active: false };
    let (mut r, mut o, mut b, mut p) = (home, home, home, home);
    // column 5 is a wall in every row, so no coin shows
    let report = g.play_frame(&mut r, &mut o, &mut b, &mut p, &walls, &no_coins);
    assert_eq!(report.outcome, Outcome::Continue);
    assert!(g.is_finished);
    assert_eq!(g.player.frames, 1);
    let report = g.play_frame(&mut r, &mut o, &mut b, &mut p, &walls, &no_coins);
    assert_eq!(report.outcome, Outcome::Won);
    assert!(!report.caught);
    assert!(report.picture.is_empty());
    assert_eq!(g.player.frames, 1);
}

#[test]
fn the_last_direction_key_released_is_queued() {
    let mut g = small_game(cell_walls(), vec![vec![]; 5], player(2, 2, 1, 1, 3));
    g.handle_key(Key::Char('w'), true);
    g.handle_key(Key::Right, false);
    g.handle_key(Key::Char('x'), true);
    assert_eq!(g.player.direction_queue, 0);
    g.handle_key(Key::Down, true);
    g.handle_key(Key::Char('a'), false);
    assert_eq!(g.player.direction_queue, 2);
    assert_eq!(g.player.current_direction, 1);
    assert_eq!(g.player.position, [2, 2]);
}
