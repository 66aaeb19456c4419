use dinorun::player::Player;
use dinorun::render::{Color, DrawCommand};
use dinorun::world::{cells_of, FALL_CAP, FLOOR, GRAVITY, JUMP_VELOCITY, PLAYER_COLUMN};

#[test]
fn new_player_is_at_rest() {
    let player = Player::new(PLAYER_COLUMN, FLOOR);
    assert_eq!(player, Player { x: 10, y: 40, velocity: 0 });
    assert!(player.is_on_arc());
}

#[test]
fn velocity_truncates_toward_zero() {
    assert_eq!(cells_of(0), 0);
    assert_eq!(cells_of(80), 0);
    assert_eq!(cells_of(99), 0);
    assert_eq!(cells_of(100), 1);
    assert_eq!(cells_of(160), 1);
    assert_eq!(cells_of(240), 2);
    assert_eq!(cells_of(-80), 0);
    assert_eq!(cells_of(-99), 0);
    assert_eq!(cells_of(-100), -1);
    assert_eq!(cells_of(-160), -1);
    assert_eq!(cells_of(-240), -2);
    assert_eq!(cells_of(-320), -3);
    assert_eq!(cells_of(-400), -4);
}

#[test]
fn gravity_adds_to_the_velocity_above_the_floor() {
    let mut player = Player { x: 3, y: 30, velocity: 0 };
    player.integrate_physics();
    assert_eq!(player, Player { x: 4, y: 30, velocity: 80 });
    player.integrate_physics();
    assert_eq!(player, Player { x: 5, y: 31, velocity: 160 });
    player.integrate_physics();
    assert_eq!(player, Player { x: 6, y: 33, velocity: 240 });
}

#[test]
fn gravity_adds_for_every_velocity_below_the_cap() {
    let mut velocity = JUMP_VELOCITY;
    while velocity < FALL_CAP {
        let mut player = Player { x: 0, y: 20, velocity };
        player.integrate_physics();
        assert_eq!(player.velocity, velocity + GRAVITY);
        assert_eq!(player.y, 20 + cells_of(velocity + GRAVITY));
        assert_eq!(player.x, 1);
        velocity += 1;
    }
}

#[test]
fn gravity_stops_at_the_cap() {
    let mut player = Player { x: 0, y: 10, velocity: 200 };
    player.integrate_physics();
    assert_eq!(player, Player { x: 1, y: 12, velocity: 200 });
    let mut player = Player { x: 0, y: 10, velocity: 240 };
    player.integrate_physics();
    assert_eq!(player, Player { x: 1, y: 12, velocity: 240 });
}

#[test]
fn gravity_does_not_act_on_the_floor() {
    let mut player = Player { x: 0, y: FLOOR, velocity: JUMP_VELOCITY };
    player.integrate_physics();
    assert_eq!(player, Player { x: 1, y: 36, velocity: -400 });
}

#[test]
fn landing_clamps_to_the_floor_and_zeroes_the_velocity() {
    let mut player = Player { x: 0, y: 39, velocity: 240 };
    player.integrate_physics();
    assert_eq!(player, Player { x: 1, y: FLOOR, velocity: 0 });
}

#[test]
fn reaching_the_floor_exactly_keeps_the_velocity_for_one_step() {
    let mut player = Player { x: 0, y: 38, velocity: 240 };
    player.integrate_physics();
    assert_eq!(player, Player { x: 1, y: FLOOR, velocity: 240 });
    player.integrate_physics();
    assert_eq!(player, Player { x: 2, y: FLOOR, velocity: 0 });
}

#[test]
fn jump_sets_the_velocity_whatever_it_was() {
    for velocity in [-400, -80, 0, 80, 160, 240, 279, 1_000_000, -1_000_000, i32::MAX, i32::MIN] {
        let mut player = Player { x: 5, y: 33, velocity };
        player.jump();
        assert_eq!(player, Player { x: 5, y: 33, velocity: -400 });
    }
}

#[test]
fn fifty_ticks_at_rest_stay_on_the_floor() {
    let mut player = Player::new(PLAYER_COLUMN, FLOOR);
    for _ in 0..50 {
        player.integrate_physics();
        assert!(player.y <= FLOOR);
        assert!(player.velocity <= FALL_CAP);
    }
    assert_eq!(player, Player { x: PLAYER_COLUMN + 50, y: FLOOR, velocity: 0 });
}

#[test]
fn a_jump_follows_its_arc() {
    let mut player = Player::new(PLAYER_COLUMN, FLOOR);
    player.jump();
    let rows = [36, 33, 31, 30, 30, 30, 30, 31, 33, 35, 37, 39, 40, 40];
    let velocities = [-400, -320, -240, -160, -80, 0, 80, 160, 240, 240, 240, 240, 0, 0];
    for step in 0..rows.len() {
        player.integrate_physics();
        assert_eq!(player.y, rows[step]);
        assert_eq!(player.velocity, velocities[step]);
        assert!(player.is_on_arc());
        assert!(player.y >= FLOOR - 10);
    }
    assert_eq!(player.x, PLAYER_COLUMN + 14);
}

#[test]
fn the_player_is_never_below_the_floor() {
    let mut player = Player::new(0, FLOOR);
    for tick in 0..2_000 {
        if tick % 7 == 0 || tick % 11 == 3 {
            player.jump();
        }
        if player.y < -1_000_000 {
            player = Player::new(player.x, FLOOR);
        }
        player.integrate_physics();
        assert!(player.y <= FLOOR);
    }
    let mut falling = Player { x: 0, y: -500, velocity: 0 };
    for _ in 0..400 {
        falling.integrate_physics();
        assert!(falling.y <= FLOOR);
    }
    assert_eq!(falling.y, FLOOR);
    assert_eq!(falling.velocity, 0);
}

#[test]
fn a_jump_in_the_air_leaves_the_arc() {
    let mut player = Player::new(0, FLOOR);
    player.jump();
    for _ in 0..4 {
        player.integrate_physics();
    }
    assert_eq!(player.y, 30);
    player.jump();
    assert!(!player.is_on_arc());
}

#[test]
fn the_player_is_drawn_in_its_column() {
    let player = Player { x: 77, y: 33, velocity: -240 };
    assert_eq!(
        player.render(Color::DarkBlue),
        DrawCommand::SetGlyph {
            column: 10,
            row: 33,
            foreground: Color::Yellow,
            background: Color::DarkBlue,
            glyph: '@',
        }
    );
}
