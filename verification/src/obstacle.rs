//! One obstacle: where it is, how fast it scrolls toward the runner and how it looks.

use vstd::prelude::*;
use bracket_lib::prelude::RandomNumberGenerator;
use crate::player::{Player, PlayerModel};
use crate::random::draw_in_range;
use crate::render::{Color, DrawCommand, DrawCommandView};
use crate::world::{
    cells_of, whole_cells, BAND_HEIGHT, DRAW_PER_POINT, FLOOR, MAX_SCORE, PLAYER_COLUMN,
    SLOWEST_DRAW, SPAWN_SPREAD,
};

verus! {

/// How an obstacle looks and behaves: it stands, or it moves toward the runner.
#[derive(Clone, Copy, Debug, PartialEq, Eq, Structural)]
pub enum Variant {
    Static,
    Moving,
}

/// An obstacle.
#[derive(Clone, Copy, Debug, PartialEq, Eq, Structural)]
pub struct Obstacle {
    /// World x, in the runner's coordinates.
    pub x: i32,
    /// World y: a row in the band that ends at the floor.
    pub y: i32,
    /// Horizontal velocity toward the runner, in hundredths of a column per tick.
    pub velocity: i32,
    /// The visual variant, fixed at creation by the sign of the velocity.
    pub variant: Variant,
}

/// An obstacle over the mathematical integers.
pub struct ObstacleModel {
    pub x: int,
    pub y: int,
    pub velocity: int,
    pub variant: Variant,
}

impl View for Obstacle {
    type V = ObstacleModel;

    open spec fn view(&self) -> ObstacleModel {
        ObstacleModel {
            x: self.x as int,
            y: self.y as int,
            velocity: self.velocity as int,
            variant: self.variant,
        }
    }
}

impl Variant {
    /// The variant that goes with a velocity: moving if it is positive.
    pub open spec fn of_velocity(velocity: int) -> Variant {
        if velocity > 0 {
            Variant::Moving
        } else {
            Variant::Static
        }
    }

    /// The character that shows an obstacle of this variant.
    pub open spec fn glyph(self) -> char {
        match self {
            Variant::Moving => '<',
            Variant::Static => '!',
        }
    }

    /// The color in which an obstacle of this variant is drawn.
    pub open spec fn ink(self) -> Color {
        match self {
            Variant::Moving => Color::Brown,
            Variant::Static => Color::Green,
        }
    }

    /// Computes `glyph`.
    pub fn symbol(self) -> (symbol: char)
        ensures
            symbol == self.glyph(),
    {
        match self {
            Variant::Moving => '<',
            Variant::Static => '!',
        }
    }

    /// Computes `ink`.
    pub fn color(self) -> (color: Color)
        ensures
            color == self.ink(),
    {
        match self {
            Variant::Moving => Color::Brown,
            Variant::Static => Color::Green,
        }
    }
}

/// The obstacle that a spawn makes of its three draws: a column offset, a row
/// and a velocity. A negative velocity is raised to zero and puts the obstacle
/// on the floor; otherwise the drawn row and velocity stand. The variant
/// follows the sign of the velocity that results.
pub open spec fn spawned(base_x: int, offset: int, row: int, velocity: int) -> ObstacleModel {
    if velocity < 0 {
        ObstacleModel { x: base_x + offset, y: FLOOR as int, velocity: 0, variant: Variant::Static }
    } else {
        ObstacleModel {
            x: base_x + offset,
            y: row,
            velocity,
            variant: Variant::of_velocity(velocity),
        }
    }
}

/// The draws that a spawn can make at a score: the offset within the spread,
/// the row within the band, the velocity from `SLOWEST_DRAW` up to, but not
/// including, the score's share.
pub open spec fn draws_allowed(score: int, offset: int, row: int, velocity: int) -> bool {
    &&& 0 <= offset < SPAWN_SPREAD
    &&& FLOOR - BAND_HEIGHT <= row <= FLOOR
    &&& SLOWEST_DRAW <= velocity < DRAW_PER_POINT * score
}

impl ObstacleModel {
    /// The obstacle lies in the band and its variant agrees with its velocity.
    pub open spec fn wf(self) -> bool {
        &&& FLOOR - BAND_HEIGHT <= self.y <= FLOOR
        &&& self.velocity >= 0
        &&& self.variant == Variant::of_velocity(self.velocity)
    }

    /// Some allowed draws at `score` make this obstacle at `base_x`.
    pub open spec fn may_spawn(self, base_x: int, score: int) -> bool {
        exists|offset: int, row: int, velocity: int|
            #![trigger spawned(base_x, offset, row, velocity)]
            draws_allowed(score, offset, row, velocity) && self == spawned(
                base_x,
                offset,
                row,
                velocity,
            )
    }

    /// The obstacle after one tick: moved left by the whole cells of its velocity.
    pub open spec fn advance(self) -> ObstacleModel {
        ObstacleModel { x: self.x - whole_cells(self.velocity), ..self }
    }

    /// The glyph that shows the obstacle on the screen of a runner at `player_x`.
    pub open spec fn glyph(self, player_x: int, background: Color) -> DrawCommandView {
        DrawCommandView::SetGlyph {
            column: self.x - player_x,
            row: self.y,
            foreground: self.variant.ink(),
            background,
            glyph: self.variant.glyph(),
        }
    }

    /// The obstacle is drawn in the runner's cell.
    pub open spec fn collides_with(self, player: PlayerModel) -> bool {
        self.x - PLAYER_COLUMN == player.x && self.y == player.y
    }

    /// The obstacle has fallen behind the runner by the margin.
    pub open spec fn passed(self, player_x: int, margin: int) -> bool {
        self.x <= player_x - margin
    }

    /// Advancing the obstacle and placing it on the screen of a runner at
    /// `player_x` stays within the machine integers.
    pub open spec fn can_advance(self, player_x: int) -> bool {
        &&& i32::MIN <= self.advance().x <= i32::MAX
        &&& i32::MIN <= self.advance().x - player_x <= i32::MAX
    }
}

/// At score zero every spawn is a static obstacle on the floor: all the
/// velocities that can be drawn are negative.
pub proof fn law_first_obstacles_stand(obstacle: ObstacleModel, base_x: int)
    requires
        obstacle.may_spawn(base_x, 0),
    ensures
        obstacle.velocity == 0,
        obstacle.y == FLOOR,
        obstacle.variant == Variant::Static,
        base_x <= obstacle.x < base_x + SPAWN_SPREAD,
{
}

/// The difficulty never falls with the score: whatever can be spawned at a
/// score can be spawned at every higher one, and no spawn is as fast as the
/// score's share.
pub proof fn law_difficulty_ramp(obstacle: ObstacleModel, base_x: int, score: int, later: int)
    requires
        obstacle.may_spawn(base_x, score),
        score <= later,
    ensures
        obstacle.may_spawn(base_x, later),
        obstacle.wf(),
        obstacle.velocity == 0 || obstacle.velocity < DRAW_PER_POINT * score,
{
    let (offset, row, velocity) = choose|offset: int, row: int, velocity: int|
        #![trigger spawned(base_x, offset, row, velocity)]
        draws_allowed(score, offset, row, velocity) && obstacle == spawned(
            base_x,
            offset,
            row,
            velocity,
        );
    assert(draws_allowed(later, offset, row, velocity));
}

impl Obstacle {
    /// The obstacle that the three draws of a spawn make at `base_x`.
    ///
    /// The precondition is the limit of the machine integers.
    pub fn from_draws(base_x: i32, offset: i32, row: i32, velocity: i32) -> (obstacle: Obstacle)
        requires
            i32::MIN <= base_x + offset <= i32::MAX,
        ensures
            obstacle@ == spawned(base_x as int, offset as int, row as int, velocity as int),
    {
        if velocity < 0 {
            Obstacle { x: base_x + offset, y: FLOOR, velocity: 0, variant: Variant::Static }
        } else {
            Obstacle {
                x: base_x + offset,
                y: row,
                velocity,
                variant: if velocity > 0 {
                    Variant::Moving
                } else {
                    Variant::Static
                },
            }
        }
    }

    /// Whether the obstacle lies in the band and its variant agrees with its
    /// velocity.
    pub fn is_well_formed(&self) -> (ok: bool)
        ensures
            ok == self@.wf(),
    {
        let variant_agrees = match self.variant {
            Variant::Moving => self.velocity > 0,
            Variant::Static => self.velocity <= 0,
        };
        FLOOR - BAND_HEIGHT <= self.y && self.y <= FLOOR && self.velocity >= 0 && variant_agrees
    }

    /// Spawns an obstacle ahead of `base_x`: draws an offset, a row and a
    /// velocity from the generator and makes the obstacle of them. The higher
    /// the score, the faster the obstacle may be and the more likely it moves.
    ///
    /// The preconditions are the limits of the machine integers.
    pub fn spawn(rng: &mut RandomNumberGenerator, base_x: i32, score: u32) -> (obstacle: Obstacle)
        requires
            base_x <= i32::MAX - SPAWN_SPREAD,
            score <= MAX_SCORE,
        ensures
            obstacle@.may_spawn(base_x as int, score as int),
            obstacle@.wf(),
            base_x <= obstacle@.x < base_x + SPAWN_SPREAD,
            obstacle@.velocity < DRAW_PER_POINT * score || obstacle@.velocity == 0,
            score == 0 ==> obstacle@.velocity == 0 && obstacle@.y == FLOOR && obstacle@.variant
                == Variant::Static,
    {
        let offset: i32 = draw_in_range(rng, 0, SPAWN_SPREAD);
        let row: i32 = draw_in_range(rng, FLOOR - BAND_HEIGHT, FLOOR + 1);
        let velocity: i32 = draw_in_range(rng, SLOWEST_DRAW, DRAW_PER_POINT * (score as i32));
        let obstacle = Obstacle::from_draws(base_x, offset, row, velocity);
        assert(draws_allowed(score as int, offset as int, row as int, velocity as int));
        obstacle
    }

    /// One tick of the obstacle: it moves left by the whole cells of its
    /// velocity, and the command that draws it on the screen of a runner at
    /// `player_x` is handed back.
    ///
    /// The precondition is the limit of the machine integers.
    pub fn advance(&mut self, player_x: i32, background: Color) -> (command: DrawCommand)
        requires
            old(self)@.can_advance(player_x as int),
        ensures
            final(self)@ == old(self)@.advance(),
            command@ == final(self)@.glyph(player_x as int, background),
    {
        self.x = self.x - cells_of(self.velocity);
        DrawCommand::SetGlyph {
            column: self.x - player_x,
            row: self.y,
            foreground: self.variant.color(),
            background,
            glyph: self.variant.symbol(),
        }
    }

    /// Whether the obstacle is drawn in the runner's cell: its screen column is
    /// the runner's column and its row is the runner's row. A fast obstacle can
    /// pass the runner without ever being there.
    pub fn collides_with(&self, player: &Player) -> (hit: bool)
        ensures
            hit == self@.collides_with(player@),
            hit <==> self.x - PLAYER_COLUMN == player.x && self.y == player.y,
    {
        self.x as i64 - PLAYER_COLUMN as i64 == player.x as i64 && self.y == player.y
    }
}

} // verus!
