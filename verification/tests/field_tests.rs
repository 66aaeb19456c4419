use bracket_lib::prelude::RandomNumberGenerator;
use dinorun::field::ObstacleField;
use dinorun::obstacle::{Obstacle, Variant};
use dinorun::player::Player;
use dinorun::render::{Color, DrawCommand};
use dinorun::world::{FLOOR, RETIRE_MARGIN};

fn standing(x: i32) -> Obstacle {
    Obstacle { x, y: FLOOR, velocity: 0, variant: Variant::Static }
}

fn moving(x: i32, y: i32, velocity: i32) -> Obstacle {
    Obstacle { x, y, velocity, variant: Variant::Moving }
}

#[test]
fn a_new_field_is_empty() {
    let field = ObstacleField::new();
    assert_eq!(field.len(), 0);
    assert!(field.obstacles.is_empty());
}

#[test]
fn retire_passed_removes_the_obstacle_behind_the_player() {
    let mut field = ObstacleField { obstacles: vec![standing(5)] };
    let mut score = 0;
    let removed = field.retire_passed(11, 5);
    score += removed;
    assert_eq!(removed, 1);
    assert_eq!(score, 1);
    assert_eq!(field.len(), 0);
}

#[test]
fn retire_passed_removes_exactly_those_at_or_behind_the_line() {
    let mut field = ObstacleField {
        obstacles: vec![
            standing(-3),
            standing(6),
            standing(7),
            moving(5, 36, 120),
            moving(90, 37, 300),
            standing(6),
            standing(8),
        ],
    };
    let removed = field.retire_passed(11, 5);
    assert_eq!(removed, 4);
    assert_eq!(field.obstacles, vec![standing(7), moving(90, 37, 300), standing(8)]);
}

#[test]
fn retire_passed_keeps_a_field_that_is_ahead() {
    let before = vec![standing(50), moving(70, 35, 10), standing(90)];
    let mut field = ObstacleField { obstacles: before.clone() };
    assert_eq!(field.retire_passed(54, RETIRE_MARGIN), 0);
    assert_eq!(field.obstacles, before);
    assert_eq!(field.retire_passed(55, RETIRE_MARGIN), 1);
    assert_eq!(field.obstacles, vec![moving(70, 35, 10), standing(90)]);
}

#[test]
fn retire_passed_takes_any_margin() {
    let mut field = ObstacleField { obstacles: vec![standing(10), standing(20), standing(30)] };
    assert_eq!(field.retire_passed(0, -25), 2);
    assert_eq!(field.obstacles, vec![standing(30)]);
    let mut field = ObstacleField { obstacles: vec![standing(i32::MIN), standing(i32::MAX)] };
    assert_eq!(field.retire_passed(i32::MIN, i32::MAX), 0);
    assert_eq!(field.obstacles, vec![standing(i32::MIN), standing(i32::MAX)]);
    assert_eq!(field.retire_passed(i32::MAX, i32::MIN), 2);
    assert!(field.obstacles.is_empty());
}

#[test]
fn any_collision_finds_the_obstacle_in_the_players_cell() {
    let player = Player { x: 40, y: 37, velocity: 80 };
    let field = ObstacleField {
        obstacles: vec![standing(50), moving(49, 37, 100), moving(50, 37, 100), standing(90)],
    };
    assert!(field.any_collision(&player));
}

#[test]
fn any_collision_needs_both_column_and_row() {
    let player = Player { x: 40, y: 37, velocity: 80 };
    let field = ObstacleField {
        obstacles: vec![standing(50), moving(49, 37, 100), moving(51, 37, 100), moving(50, 36, 1)],
    };
    assert!(!field.any_collision(&player));
    assert!(!ObstacleField::new().any_collision(&player));
}

#[test]
fn any_collision_agrees_with_a_search() {
    for player_x in 0..30 {
        for player_y in 35..=40 {
            let player = Player { x: player_x, y: player_y, velocity: 0 };
            let field = ObstacleField {
                obstacles: vec![standing(22), moving(31, 36, 50), moving(15, 38, 250)],
            };
            let expected = field
                .obstacles
                .iter()
                .any(|obstacle| obstacle.x - 10 == player.x && obstacle.y == player.y);
            assert_eq!(field.any_collision(&player), expected);
        }
    }
}

#[test]
fn advance_all_moves_and_draws_every_obstacle_in_order() {
    let mut field = ObstacleField {
        obstacles: vec![standing(30), moving(60, 36, 199), moving(75, 38, 420)],
    };
    let frame = field.advance_all(20, Color::MidnightBlue);
    assert_eq!(field.obstacles, vec![standing(30), moving(59, 36, 199), moving(71, 38, 420)]);
    assert_eq!(
        frame,
        vec![
            DrawCommand::SetGlyph {
                column: 10,
                row: 40,
                foreground: Color::Green,
                background: Color::MidnightBlue,
                glyph: '!',
            },
            DrawCommand::SetGlyph {
                column: 39,
                row: 36,
                foreground: Color::Brown,
                background: Color::MidnightBlue,
                glyph: '<',
            },
            DrawCommand::SetGlyph {
                column: 51,
                row: 38,
                foreground: Color::Brown,
                background: Color::MidnightBlue,
                glyph: '<',
            },
        ]
    );
}

#[test]
fn spawn_is_due_when_no_obstacle_is_far_ahead() {
    let field = ObstacleField { obstacles: vec![standing(100), standing(171)] };
    assert!(field.spawn_due(100));
    let field = ObstacleField { obstacles: vec![standing(100), standing(172)] };
    assert!(!field.spawn_due(100));
    assert!(ObstacleField::new().spawn_due(0));
}

#[test]
fn spawn_goes_by_the_rightmost_obstacle() {
    let field = ObstacleField { obstacles: vec![standing(190), moving(120, 36, 900)] };
    assert!(!field.spawn_due(100));
    let field = ObstacleField { obstacles: vec![moving(120, 36, 900), standing(190)] };
    assert!(!field.spawn_due(100));
}

#[test]
fn maybe_spawn_adds_one_obstacle_ahead_of_the_player() {
    let mut rng = RandomNumberGenerator::seeded(11);
    let mut field = ObstacleField { obstacles: vec![standing(150)] };
    assert!(field.maybe_spawn(&mut rng, 100, 40));
    assert_eq!(field.len(), 2);
    assert_eq!(field.obstacles[0], standing(150));
    let spawned = field.obstacles[1];
    assert!(180 <= spawned.x && spawned.x < 220);
    assert!(35 <= spawned.y && spawned.y <= 40);
    assert!(0 <= spawned.velocity && spawned.velocity < 80);
    assert!(spawned.is_well_formed());
}

#[test]
fn maybe_spawn_leaves_a_field_with_an_obstacle_far_ahead() {
    let mut rng = RandomNumberGenerator::seeded(11);
    let before = vec![standing(150), standing(172)];
    let mut field = ObstacleField { obstacles: before.clone() };
    assert!(!field.maybe_spawn(&mut rng, 100, 40));
    assert_eq!(field.obstacles, before);
}

#[test]
fn maybe_spawn_fills_an_empty_field() {
    let mut rng = RandomNumberGenerator::seeded(3);
    let mut field = ObstacleField::new();
    assert!(field.maybe_spawn(&mut rng, 10, 0));
    assert_eq!(field.len(), 1);
    assert!(90 <= field.obstacles[0].x && field.obstacles[0].x < 130);
    assert_eq!(field.obstacles[0].y, FLOOR);
    assert_eq!(field.obstacles[0].velocity, 0);
    assert!(!field.maybe_spawn(&mut rng, 10, 0));
    assert_eq!(field.len(), 1);
}
