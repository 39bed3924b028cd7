use arena_physics::arena::{advance, settle, Controls, Game};
use arena_physics::body::{Body, DEFAULT_MASS};
use arena_physics::game::{
    check_game_over, game_over_screen, rematch, respawn, show_score, spawn_platforms,
    spawn_players, spawn_score_display, start_game, winner_name, GameStates, PlayerResult,
    RespawnEvent, ScoreDisplay,
};
use arena_physics::systems::PlayerInput;
use arena_physics::vec2::Vec2;

fn v(x: i64, y: i64) -> Vec2 {
    Vec2 { x, y }
}

fn player_at(number: u32, x: i64, y: i64) -> Body {
    Body::new(number, v(x, y), v(50_000, 50_000), DEFAULT_MASS).unwrap()
}

fn idle_controls() -> Controls {
    Controls { inputs: vec![], start: false, rematch: false }
}

fn result(player: u32, score: u32) -> PlayerResult {
    PlayerResult { player, score }
}

#[test]
fn body_below_the_plane_respawns_once() {
    let mut b = player_at(2, 300_000, -800_001);
    b.velocity = v(100, -30_000);
    b.score = 3;
    let (after, event) = b.respawn();
    assert_eq!(after.position, v(0, 25_000));
    assert_eq!(after.score, 4);
    assert_eq!(after.velocity, v(100, -30_000));
    assert_eq!(event, Some(RespawnEvent { player: 2, score: 4 }));
    let (again, event) = after.respawn();
    assert_eq!(again, after);
    assert_eq!(event, None);
}

#[test]
fn body_on_the_plane_does_not_respawn() {
    let b = player_at(1, 0, -800_000);
    assert_eq!(b.respawn(), (b, None));
}

#[test]
fn score_stops_at_the_largest_number() {
    let mut b = player_at(1, 0, -900_000);
    b.score = u32::MAX;
    let (after, event) = b.respawn();
    assert_eq!(after.score, u32::MAX);
    assert_eq!(event, Some(RespawnEvent { player: 1, score: u32::MAX }));
}

#[test]
fn respawn_reports_the_fallen_in_order() {
    let mut bodies = vec![
        player_at(1, 0, -900_000),
        player_at(2, 0, 0),
        player_at(3, 5, -800_001),
    ];
    bodies[2].score = 2;
    let events = respawn(&mut bodies);
    assert_eq!(
        events,
        vec![RespawnEvent { player: 1, score: 1 }, RespawnEvent { player: 3, score: 3 }]
    );
    assert_eq!(bodies[0].position, v(0, 25_000));
    assert_eq!(bodies[1].position, v(0, 0));
    assert_eq!(bodies[2].position, v(0, 25_000));
    assert_eq!(respawn(&mut bodies), vec![]);
}

#[test]
fn round_ends_when_a_score_exceeds_five() {
    let mut bodies = vec![player_at(1, 0, 0), player_at(2, 0, 0)];
    bodies[0].score = 6;
    bodies[1].score = 2;
    let (state, results) =
        check_game_over(GameStates::Game, RespawnEvent { player: 1, score: 6 }, &bodies);
    assert_eq!(state, GameStates::GameOver);
    assert_eq!(results, vec![result(1, 6), result(2, 2)]);
    let (state, results) =
        check_game_over(GameStates::Game, RespawnEvent { player: 1, score: 5 }, &bodies);
    assert_eq!(state, GameStates::Game);
    assert_eq!(results, vec![]);
    let (state, results) =
        check_game_over(GameStates::Menu, RespawnEvent { player: 1, score: 6 }, &bodies);
    assert_eq!(state, GameStates::Menu);
    assert_eq!(results, vec![]);
}

#[test]
fn winner_has_the_fewest_falls() {
    assert_eq!(game_over_screen(&vec![result(1, 6), result(2, 2)]), 2);
    assert_eq!(game_over_screen(&vec![result(1, 0), result(2, 6)]), 1);
    assert_eq!(game_over_screen(&vec![result(1, 5), result(2, 4), result(3, 6)]), 2);
}

#[test]
fn winner_of_a_tie_is_the_first_found() {
    assert_eq!(game_over_screen(&vec![result(1, 3), result(2, 3)]), 1);
    assert_eq!(game_over_screen(&vec![result(2, 3), result(1, 3)]), 2);
}

#[test]
fn nobody_wins_when_all_have_lost() {
    assert_eq!(game_over_screen(&vec![result(1, 6), result(2, 7)]), 0);
    assert_eq!(game_over_screen(&vec![]), 0);
}

#[test]
fn winners_have_names() {
    assert_eq!(winner_name(1), "Penguin");
    assert_eq!(winner_name(2), "Seal");
    assert_eq!(winner_name(0), "???");
    assert_eq!(winner_name(3), "???");
}

#[test]
fn score_is_shown_on_the_players_display() {
    let mut displays = spawn_score_display();
    assert_eq!(
        displays,
        vec![ScoreDisplay { player: 1, value: 0 }, ScoreDisplay { player: 2, value: 0 }]
    );
    show_score(RespawnEvent { player: 2, score: 4 }, &mut displays);
    assert_eq!(
        displays,
        vec![ScoreDisplay { player: 1, value: 0 }, ScoreDisplay { player: 2, value: 4 }]
    );
    show_score(RespawnEvent { player: 9, score: 4 }, &mut displays);
    assert_eq!(
        displays,
        vec![ScoreDisplay { player: 1, value: 0 }, ScoreDisplay { player: 2, value: 4 }]
    );
}

#[test]
fn start_leaves_the_menu_only() {
    assert_eq!(start_game(GameStates::Menu, true), GameStates::Game);
    assert_eq!(start_game(GameStates::Menu, false), GameStates::Menu);
    assert_eq!(start_game(GameStates::GameOver, true), GameStates::GameOver);
    assert_eq!(start_game(GameStates::Game, true), GameStates::Game);
}

#[test]
fn rematch_resets_the_displays() {
    let mut displays =
        vec![ScoreDisplay { player: 1, value: 6 }, ScoreDisplay { player: 2, value: 3 }];
    assert_eq!(rematch(GameStates::GameOver, false, &mut displays), GameStates::GameOver);
    assert_eq!(displays[0].value, 6);
    assert_eq!(rematch(GameStates::Game, true, &mut displays), GameStates::Game);
    assert_eq!(displays[1].value, 3);
    assert_eq!(rematch(GameStates::GameOver, true, &mut displays), GameStates::Game);
    assert_eq!(
        displays,
        vec![ScoreDisplay { player: 1, value: 0 }, ScoreDisplay { player: 2, value: 0 }]
    );
}

#[test]
fn round_starts_with_two_players_and_three_platforms() {
    let players = spawn_players();
    assert_eq!(players.len(), 2);
    assert_eq!(players[0], player_at(1, 100_000, 25_000));
    assert_eq!(players[1], player_at(2, -100_000, 25_000));
    let platforms = spawn_platforms();
    assert_eq!(platforms.len(), 3);
    assert_eq!(platforms[0].position, v(0, -150_000));
    assert_eq!(platforms[0].size, v(600_000, 50_000));
    assert_eq!(platforms[1].position, v(-600_000, -50_000));
    assert_eq!(platforms[2].position, v(600_000, -50_000));
    assert_eq!(platforms[2].size, v(300_000, 50_000));
}

#[test]
fn tick_moves_collides_and_respawns() {
    let mut bodies = vec![player_at(1, 0, -799_500), player_at(2, 0, -100_500)];
    let platforms = spawn_platforms();
    let inputs = vec![
        PlayerInput { direction: v(0, 0), jump: false, special: false },
        PlayerInput { direction: v(1000, 0), jump: false, special: false },
    ];
    let events = advance(&mut bodies, &platforms, &inputs, 15_625);
    // player 1 fell by one unit, below the plane
    assert_eq!(events, vec![RespawnEvent { player: 1, score: 1 }]);
    assert_eq!(bodies[0].position, v(0, 25_000));
    assert_eq!(bodies[0].score, 1);
    // player 2 landed on the middle platform and moved right in the air
    assert_eq!(bodies[1].position, v(1500, -100_000));
    assert_eq!(bodies[1].velocity, v(1500, 0));
    assert!(bodies[1].on_platform);
    assert_eq!(bodies[1].acceleration, v(0, 0));
}

#[test]
fn events_update_displays_and_end_the_round() {
    let bodies = vec![player_at(1, 0, 0), player_at(2, 0, 0)];
    let mut displays = spawn_score_display();
    let events =
        vec![RespawnEvent { player: 1, score: 3 }, RespawnEvent { player: 2, score: 6 }];
    let (state, results) = settle(GameStates::Game, &events, &bodies, &mut displays);
    assert_eq!(state, GameStates::GameOver);
    assert_eq!(results, vec![result(1, 0), result(2, 0)]);
    assert_eq!(displays[0].value, 3);
    assert_eq!(displays[1].value, 6);
    let mut displays = spawn_score_display();
    let events = vec![RespawnEvent { player: 1, score: 5 }];
    let (state, results) = settle(GameStates::Game, &events, &bodies, &mut displays);
    assert_eq!(state, GameStates::Game);
    assert_eq!(results, vec![]);
    assert_eq!(displays[0].value, 5);
}

#[test]
fn game_goes_from_menu_to_round_to_game_over_and_back() {
    let mut game = Game::new();
    assert_eq!(game.state, GameStates::Menu);
    game.step(&idle_controls(), 15_625);
    assert_eq!(game.state, GameStates::Menu);
    assert!(game.bodies.is_empty());
    game.step(&Controls { inputs: vec![], start: true, rematch: false }, 15_625);
    assert_eq!(game.state, GameStates::Game);
    assert_eq!(game.bodies, spawn_players());
    assert_eq!(game.platforms, spawn_platforms());
    assert_eq!(game.displays, spawn_score_display());

    // player 2 has fallen five times and falls once more
    game.bodies[1].score = 5;
    game.bodies[1].position = v(0, -900_000);
    game.bodies[0].score = 1;
    game.step(&idle_controls(), 15_625);
    assert_eq!(game.state, GameStates::GameOver);
    assert_eq!(game.results, vec![result(1, 1), result(2, 6)]);
    assert!(game.bodies.is_empty());
    assert!(game.platforms.is_empty());
    assert!(game.displays.is_empty());
    assert_eq!(game_over_screen(&game.results), 1);

    game.step(&idle_controls(), 15_625);
    assert_eq!(game.state, GameStates::GameOver);
    assert_eq!(game.results.len(), 2);
    game.step(&Controls { inputs: vec![], start: true, rematch: false }, 15_625);
    assert_eq!(game.state, GameStates::GameOver);
    game.step(&Controls { inputs: vec![], start: false, rematch: true }, 15_625);
    assert_eq!(game.state, GameStates::Game);
    assert_eq!(game.bodies, spawn_players());
    assert!(game.results.is_empty());
}

#[test]
fn fall_below_five_keeps_the_round_running() {
    let mut game = Game::new();
    game.step(&Controls { inputs: vec![], start: true, rematch: false }, 15_625);
    game.bodies[0].score = 4;
    game.bodies[0].position = v(0, -900_000);
    game.step(&idle_controls(), 15_625);
    assert_eq!(game.state, GameStates::Game);
    assert_eq!(game.bodies[0].score, 5);
    assert_eq!(game.bodies[0].position, v(0, 25_000));
    assert_eq!(game.displays[0], ScoreDisplay { player: 1, value: 5 });
    assert_eq!(game.displays[1], ScoreDisplay { player: 2, value: 0 });
    assert!(game.results.is_empty());
}

#[test]
fn players_land_and_stay_grounded_in_a_running_round() {
    let mut game = Game::new();
    game.step(&Controls { inputs: vec![], start: true, rematch: false }, 15_625);
    for _ in 0..200 {
        game.step(&idle_controls(), 15_625);
    }
    for tick in 0..200 {
        game.step(&idle_controls(), 15_625);
        for b in game.bodies.iter() {
            assert!(b.on_platform, "tick {}", tick);
            assert_eq!(b.position.y, -100_000, "tick {}", tick);
            assert_eq!(b.velocity, v(0, 0), "tick {}", tick);
        }
    }
    assert_eq!(game.state, GameStates::Game);
    assert_eq!(game.bodies[0].position.x, 100_000);
    assert_eq!(game.bodies[1].position.x, -100_000);
}

#[test]
fn grounded_player_jumps_and_comes_down_again() {
    let mut game = Game::new();
    game.step(&Controls { inputs: vec![], start: true, rematch: false }, 15_625);
    for _ in 0..200 {
        game.step(&idle_controls(), 15_625);
    }
    let jump = Controls {
        inputs: vec![PlayerInput { direction: v(0, 0), jump: true, special: false }],
        start: false,
        rematch: false,
    };
    game.step(&jump, 15_625);
    assert!(!game.bodies[0].on_platform);
    assert!(game.bodies[0].position.y > -100_000);
    assert!(game.bodies[1].on_platform);
    for _ in 0..400 {
        game.step(&idle_controls(), 15_625);
    }
    assert!(game.bodies[0].on_platform);
    assert_eq!(game.bodies[0].position.y, -100_000);
}
