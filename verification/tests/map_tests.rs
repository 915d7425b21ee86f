use pacman::map::{calculate_max_map_width, MapCalculator};
use pacman::maze::{maze_lines, prepare_game};

fn expected_obstacles() -> Vec<Vec<u8>> {
    vec![
        vec![0, 1, 2, 3, 4, 5, 6, 7, 8, 9, 10, 11, 12, 13, 14, 15, 16, 17, 18, 19, 20, 21, 22, 23, 24, 25, 26, 27, 28, 29, 30, 31, 32, 33, 34, 35, 36, 37, 38, 39, 40, 41, 42, 43, 44, 45, 46, 47, 48],
        vec![0, 24, 48],
        vec![0, 4, 5, 6, 7, 8, 12, 13, 14, 15, 16, 17, 18, 19, 20, 24, 28, 29, 30, 31, 32, 33, 34, 35, 36, 40, 41, 42, 43, 44, 48],
        vec![0, 4, 5, 6, 7, 8, 12, 13, 14, 15, 16, 17, 18, 19, 20, 24, 28, 29, 30, 31, 32, 33, 34, 35, 36, 40, 41, 42, 43, 44, 48],
        vec![0, 48],
        vec![0, 4, 5, 6, 7, 8, 12, 13, 14, 18, 19, 20, 21, 22, 23, 24, 25, 26, 27, 28, 29, 30, 34, 35, 36, 40, 41, 42, 43, 44, 48],
        vec![0, 12, 13, 14, 24, 34, 35, 36, 48],
        vec![0, 1, 2, 3, 4, 5, 6, 7, 8, 12, 13, 14, 15, 16, 17, 18, 19, 20, 24, 28, 29, 30, 31, 32, 33, 34, 35, 36, 40, 41, 42, 43, 44, 45, 46, 47, 48],
        vec![8, 12, 13, 14, 15, 16, 17, 18, 19, 20, 24, 28, 29, 30, 31, 32, 33, 34, 35, 36, 40],
        vec![8, 12, 13, 14, 34, 35, 36, 40],
        vec![0, 1, 2, 3, 4, 5, 6, 7, 8, 12, 13, 14, 18, 19, 20, 21, 22, 26, 27, 28, 29, 30, 34, 35, 36, 40, 41, 42, 43, 44, 45, 46, 47, 48],
        vec![0, 18, 30, 48],
        vec![0, 1, 2, 3, 4, 5, 6, 7, 8, 12, 13, 14, 18, 30, 34, 35, 36, 40, 41, 42, 43, 44, 45, 46, 47, 48],
        vec![8, 12, 13, 14, 18, 19, 20, 21, 22, 23, 24, 25, 26, 27, 28, 29, 30, 34, 35, 36, 40],
        vec![8, 12, 13, 14, 34, 35, 36, 40],
        vec![0, 1, 2, 3, 4, 5, 6, 7, 8, 12, 13, 14, 18, 19, 20, 21, 22, 23, 24, 25, 26, 27, 28, 29, 30, 34, 35, 36, 40, 41, 42, 43, 44, 45, 46, 47, 48],
        vec![0, 24, 48],
        vec![0, 4, 5, 6, 7, 8, 12, 13, 14, 15, 16, 17, 18, 19, 20, 24, 28, 29, 30, 31, 32, 33, 34, 35, 36, 40, 41, 42, 43, 44, 48],
        vec![0, 8, 40, 48],
        vec![0, 1, 2, 3, 4, 8, 12, 16, 17, 18, 19, 20, 21, 22, 23, 24, 25, 26, 27, 28, 29, 30, 31, 32, 36, 40, 44, 45, 46, 47, 48],
        vec![0, 12, 24, 36, 48],
        vec![0, 4, 5, 6, 7, 8, 9, 10, 11, 12, 13, 14, 15, 16, 17, 18, 19, 20, 24, 28, 29, 30, 31, 32, 33, 34, 35, 36, 37, 38, 39, 40, 41, 42, 43, 44, 48],
        vec![0, 48],
        vec![0, 1, 2, 3, 4, 5, 6, 7, 8, 9, 10, 11, 12, 13, 14, 15, 16, 17, 18, 19, 20, 21, 22, 23, 24, 25, 26, 27, 28, 29, 30, 31, 32, 33, 34, 35, 36, 37, 38, 39, 40, 41, 42, 43, 44, 45, 46, 47, 48],
    ]
}

fn expected_coins() -> Vec<Vec<u8>> {
    vec![
        Vec::<u8>::new(),
        vec![2, 4, 6, 8, 10, 12, 14, 16, 18, 20, 22, 26, 28, 30, 32, 34, 36, 38, 40, 42, 44, 46],
        vec![2, 10, 22, 26, 38, 46],
        vec![2, 10, 22, 26, 38, 46],
        vec![2, 4, 6, 8, 10, 12, 14, 16, 18, 20, 22, 24, 26, 28, 30, 32, 34, 36, 38, 40, 42, 44, 46],
        vec![2, 10, 16, 32, 38, 46],
        vec![2, 4, 6, 8, 10, 16, 18, 20, 22, 26, 28, 30, 32, 38, 40, 42, 44, 46],
        vec![10, 22, 26, 38],
        vec![10, 22, 26, 38],
        vec![10, 38],
        vec![10, 38],
        vec![10, 38],
        vec![10, 38],
        vec![10, 38],
        vec![10, 38],
        vec![10, 38],
        vec![2, 4, 6, 8, 10, 12, 14, 16, 18, 20, 22, 26, 28, 30, 32, 34, 36, 38, 40, 42, 44, 46],
        vec![2, 10, 22, 26, 38, 46],
        vec![2, 4, 6, 10, 12, 14, 16, 18, 20, 22, 26, 28, 30, 32, 34, 36, 38, 42, 44, 46],
        vec![6, 10, 14, 34, 38, 42],
        vec![2, 4, 6, 8, 10, 14, 16, 18, 20, 22, 26, 28, 30, 32, 34, 38, 40, 42, 44, 46],
        vec![2, 22, 26, 46],
        vec![2, 4, 6, 8, 10, 12, 14, 16, 18, 20, 22, 24, 26, 28, 30, 32, 34, 36, 38, 40, 42, 44, 46],
        Vec::<u8>::new(),
    ]
}

#[test]
fn maze_walls_are_read_from_the_drawing() {
    let calc = MapCalculator { map: maze_lines() };
    assert_eq!(calc.calculate_map('#'), expected_obstacles());
}

#[test]
fn maze_coins_are_read_from_the_drawing() {
    let calc = MapCalculator { map: maze_lines() };
    let coins = calc.calculate_map('.');
    assert_eq!(coins, expected_coins());
    let total: usize = coins.iter().map(|r| r.len()).sum();
    assert_eq!(total, 204);
}

#[test]
fn maze_is_49_wide_and_24_high() {
    let lines = maze_lines();
    assert_eq!(lines.len(), 24);
    assert_eq!(calculate_max_map_width(lines), 49);
}

#[test]
fn calculate_map_on_small_drawing() {
    let calc = MapCalculator { map: vec![String::from("#.#"), String::from(""), String::from("..x.")] };
    assert_eq!(calc.calculate_map('.'), vec![vec![1u8], vec![], vec![0u8, 1, 3]]);
    assert_eq!(calc.calculate_map('#'), vec![vec![0u8, 2], vec![], vec![]]);
    assert_eq!(calc.calculate_map('z'), vec![Vec::<u8>::new(), vec![], vec![]]);
}

#[test]
fn calculate_map_counts_columns_modulo_256() {
    let mut line = " ".repeat(300);
    line.replace_range(260..261, "x");
    let calc = MapCalculator { map: vec![line] };
    assert_eq!(calc.calculate_map('x'), vec![vec![4u8]]);
}

#[test]
fn calculate_map_counts_characters_not_bytes() {
    let calc = MapCalculator { map: vec![String::from("\u{2022}.\u{2022}.")] };
    assert_eq!(calc.calculate_map('.'), vec![vec![1u8, 3]]);
    assert_eq!(calc.calculate_map('\u{2022}'), vec![vec![0u8, 2]]);
}

#[test]
fn max_width_keeps_the_running_maximum() {
    assert_eq!(calculate_max_map_width(vec![]), 0);
    assert_eq!(calculate_max_map_width(vec![String::from("ab"), String::from("abcd"), String::from("a")]), 4);
}

#[test]
fn max_width_counts_bytes_and_wraps_at_256() {
    assert_eq!(calculate_max_map_width(vec![String::from("\u{2022}")]), 3);
    assert_eq!(calculate_max_map_width(vec!["a".repeat(300)]), 44);
    assert_eq!(calculate_max_map_width(vec!["a".repeat(300), "b".repeat(100)]), 100);
}

#[test]
fn prepare_game_start_state() {
    let s = prepare_game();
    assert_eq!(s.game.map_size, [49, 24]);
    assert_eq!(s.game.obstacles, expected_obstacles());
    assert_eq!(s.game.coins, expected_coins());
    assert_eq!(s.obstacle_coordinates, expected_obstacles());
    assert_eq!(s.coin_coordinates, expected_coins());
    assert!(!s.game.is_finished);
    assert!(s.game.speed_compensation);
    assert_eq!(s.game.player.position, [24, 18]);
    assert_eq!(s.game.player.current_direction, 1);
    assert_eq!(s.game.player.direction_queue, 1);
    assert_eq!(s.game.player.hearts, 3);
    assert_eq!(s.game.player.frames, 0);
    assert_eq!(s.red.position, [21, 11]);
    assert_eq!(s.orange.position, [24, 11]);
    assert_eq!(s.blue.position, [27, 11]);
    assert_eq!(s.pink.position, [24, 12]);
    assert!(s.orange.active && !s.red.active && !s.blue.active && !s.pink.active);
    assert!(!s.red.mortal && !s.orange.mortal && !s.blue.mortal && !s.pink.mortal);
    assert_eq!(s.red.direction + s.orange.direction + s.blue.direction + s.pink.direction, 0);
}
