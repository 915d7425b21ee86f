//! The maze of the game and the state a game starts in.

use vstd::prelude::*;
use crate::game::{Game, GameView};
use crate::ghost::Monster;
use crate::grid::rows;
use crate::map::{calculate_max_map_width, columns_of, max_width, MapCalculator};
use crate::player::Player;

verus! {

broadcast use vstd::string::group_string_axioms;

/// The maze drawing: `#` is a wall, `.` a coin.
pub open spec fn maze_spec() -> Seq<Seq<char>> {
    seq![
        "#################################################"@,
        "# . . . . . . . . . . . # . . . . . . . . . . . #"@,
        "# . ##### . ######### . # . ######### . ##### . #"@,
        "# . ##### . ######### . # . ######### . ##### . #"@,
        "# . . . . . . . . . . . . . . . . . . . . . . . #"@,
        "# . ##### . ### . ############# . ### . ##### . #"@,
        "# . . . . . ### . . . . # . . . . ### . . . . . #"@,
        "######### . ######### . # . ######### . #########"@,
        "        # . ######### . # . ######### . #        "@,
        "        # . ###                   ### . #        "@,
        "######### . ###   #####   #####   ### . #########"@,
        "#         .       #           #       .         #"@,
        "######### . ###   #           #   ### . #########"@,
        "        # . ###   #############   ### . #        "@,
        "        # . ###                   ### . #        "@,
        "######### . ###   #############   ### . #########"@,
        "# . . . . . . . . . . . # . . . . . . . . . . . #"@,
        "# . ##### . ######### . # . ######### . ##### . #"@,
        "# . . . # . . . . . . .   . . . . . . . # . . . #"@,
        "##### . # . # . ################# . # . # . #####"@,
        "# . . . . . # . . . . . # . . . . . # . . . . . #"@,
        "# . ################# . # . ################# . #"@,
        "# . . . . . . . . . . . . . . . . . . . . . . . #"@,
        "#################################################"@
    ]
}

/// The maze drawing, line by line.
pub fn maze_lines() -> (lines: Vec<String>)
    ensures
        lines@.map_values(|line: String| line@) == maze_spec(),
{
    let mut lines: Vec<String> = Vec::new();
    lines.push("#################################################".to_string());
    lines.push("# . . . . . . . . . . . # . . . . . . . . . . . #".to_string());
    lines.push("# . ##### . ######### . # . ######### . ##### . #".to_string());
    lines.push("# . ##### . ######### . # . ######### . ##### . #".to_string());
    lines.push("# . . . . . . . . . . . . . . . . . . . . . . . #".to_string());
    lines.push("# . ##### . ### . ############# . ### . ##### . #".to_string());
    lines.push("# . . . . . ### . . . . # . . . . ### . . . . . #".to_string());
    lines.push("######### . ######### . # . ######### . #########".to_string());
    lines.push("        # . ######### . # . ######### . #        ".to_string());
    lines.push("        # . ###                   ### . #        ".to_string());
    lines.push("######### . ###   #####   #####   ### . #########".to_string());
    lines.push("#         .       #           #       .         #".to_string());
    lines.push("######### . ###   #           #   ### . #########".to_string());
    lines.push("        # . ###   #############   ### . #        ".to_string());
    lines.push("        # . ###                   ### . #        ".to_string());
    lines.push("######### . ###   #############   ### . #########".to_string());
    lines.push("# . . . . . . . . . . . # . . . . . . . . . . . #".to_string());
    lines.push("# . ##### . ######### . # . ######### . ##### . #".to_string());
    lines.push("# . . . # . . . . . . .   . . . . . . . # . . . #".to_string());
    lines.push("##### . # . # . ################# . # . # . #####".to_string());
    lines.push("# . . . . . # . . . . . # . . . . . # . . . . . #".to_string());
    lines.push("# . ################# . # . ################# . #".to_string());
    lines.push("# . . . . . . . . . . . . . . . . . . . . . . . #".to_string());
    lines.push("#################################################".to_string());
    assert(lines@.map_values(|line: String| line@) =~= maze_spec());
    lines
}

/// Everything a game starts with: the game, the four ghosts, and the walls
/// and coins to restore after a catch.
pub struct Setup {
    pub game: Game,
    pub red: Monster,
    pub orange: Monster,
    pub blue: Monster,
    pub pink: Monster,
    pub obstacle_coordinates: Vec<Vec<u8>>,
    pub coin_coordinates: Vec<Vec<u8>>,
}

/// The start of a game: walls at the maze's `#`, coins at its `.`, the
/// player on `[24, 18]` walking left with 3 hearts, the ghosts in their
/// house with only the orange one active.
pub fn prepare_game() -> (setup: Setup)
    ensures
        setup.obstacle_coordinates.len() == 24,
        setup.coin_coordinates.len() == 24,
        forall|r: int|
            0 <= r < 24 ==> #[trigger] rows(&setup.obstacle_coordinates)[r] == columns_of(
                maze_spec()[r],
                '#',
            ),
        forall|r: int|
            0 <= r < 24 ==> #[trigger] rows(&setup.coin_coordinates)[r] == columns_of(
                maze_spec()[r],
                '.',
            ),
        setup.game@ == (GameView {
            map_size: [max_width(maze_spec()), 24],
            obstacles: rows(&setup.obstacle_coordinates),
            coins: rows(&setup.coin_coordinates),
            is_finished: false,
            speed_compensation: true,
            player: Player {
                position: [24, 18],
                current_direction: 1,
                direction_queue: 1,
                hearts: 3,
                frames: 0,
            },
        }),
        setup.red == (Monster { position: [21, 11], direction: 0, mortal: false, active: false }),
        setup.orange == (Monster { position: [24, 11], direction: 0, mortal: false, active: true }),
        setup.blue == (Monster { position: [27, 11], direction: 0, mortal: false, active: false }),
        setup.pink == (Monster { position: [24, 12], direction: 0, mortal: false, active: false }),
{
    let map_arr = maze_lines();
    let ghost lines = map_arr@.map_values(|line: String| line@);
    assert(lines.len() == 24);
    let map_calc = MapCalculator { map: map_arr.clone() };
    assert forall|r: int| 0 <= r < 24 implies map_calc.map@[r]@ == #[trigger] maze_spec()[r] by {
        assert(cloned::<String>(map_arr@[r], map_calc.map@[r]));
        assert(lines[r] == map_arr@[r]@);
    }
    assert(map_calc.map@.map_values(|line: String| line@) =~= maze_spec());
    let obstacle_coordinates = map_calc.calculate_map('#');
    let coin_coordinates = map_calc.calculate_map('.');
    let player = Player {
        position: [24, 18],
        current_direction: 1,
        direction_queue: 1,
        hearts: 3,
        frames: 0,
    };
    let red = Monster { position: [21, 11], direction: 0, mortal: false, active: false };
    let orange = Monster { position: [24, 11], direction: 0, mortal: false, active: true };
    let blue = Monster { position: [27, 11], direction: 0, mortal: false, active: false };
    let pink = Monster { position: [24, 12], direction: 0, mortal: false, active: false };
    let width = calculate_max_map_width(map_calc.map.clone());
    let height = map_calc.map.len() as u8;
    let obstacles = obstacle_coordinates.clone();
    let coins = coin_coordinates.clone();
    proof {
        crate::grid::lemma_clone_rows(obstacle_coordinates, obstacles);
        crate::grid::lemma_clone_rows(coin_coordinates, coins);
    }
    let game = Game {
        map_size: [width, height],
        obstacles,
        coins,
        is_finished: false,
        speed_compensation: true,
        player,
    };
    Setup { game, red, orange, blue, pink, obstacle_coordinates, coin_coordinates }
}

} // verus!
