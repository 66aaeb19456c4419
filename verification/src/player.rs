//! The runner: its position, its vertical velocity and the gravity that acts on it.

use vstd::prelude::*;
use crate::render::{Color, DrawCommand, DrawCommandView};
use crate::world::{cells_of, whole_cells, FALL_CAP, FLOOR, GRAVITY, JUMP_VELOCITY, PLAYER_COLUMN};

verus! {

/// The runner.
#[derive(Clone, Copy, Debug, PartialEq, Eq, Structural)]
pub struct Player {
    /// World x: the distance run since the session began.
    pub x: i32,
    /// World y: the row, at most `FLOOR`.
    pub y: i32,
    /// Vertical velocity in hundredths of a row per step; positive is downward.
    pub velocity: i32,
}

/// The runner over the mathematical integers.
pub struct PlayerModel {
    pub x: int,
    pub y: int,
    pub velocity: int,
}

impl View for Player {
    type V = PlayerModel;

    open spec fn view(&self) -> PlayerModel {
        PlayerModel { x: self.x as int, y: self.y as int, velocity: self.velocity as int }
    }
}

/// The highest point (the smallest row) that a runner who left the floor by a
/// jump can have reached while its velocity is still `velocity`.
pub open spec fn arc_top(velocity: int) -> int {
    if velocity < JUMP_VELOCITY + GRAVITY {
        FLOOR - 4
    } else if velocity < JUMP_VELOCITY + 2 * GRAVITY {
        FLOOR - 7
    } else if velocity < JUMP_VELOCITY + 3 * GRAVITY {
        FLOOR - 9
    } else {
        FLOOR - 10
    }
}

impl PlayerModel {
    /// The runner is not below the floor and its velocity is one that steps and
    /// jumps can produce.
    pub open spec fn wf(self) -> bool {
        &&& self.y <= FLOOR
        &&& JUMP_VELOCITY <= self.velocity < FALL_CAP + GRAVITY
    }

    /// Gravity acts in the next step: the runner is above the floor and slower
    /// than the cap.
    pub open spec fn falls(self) -> bool {
        self.velocity < FALL_CAP && self.y < FLOOR
    }

    /// The velocity with which the next step moves the runner.
    pub open spec fn step_velocity(self) -> int {
        if self.falls() {
            self.velocity + GRAVITY
        } else {
            self.velocity
        }
    }

    /// The row that the next step reaches before the floor stops the runner.
    pub open spec fn step_row(self) -> int {
        self.y + whole_cells(self.step_velocity())
    }

    /// The next step ends on the floor, reached from above with speed to spare.
    pub open spec fn lands(self) -> bool {
        self.step_row() > FLOOR
    }

    /// The runner after one physics step.
    pub open spec fn step(self) -> PlayerModel {
        if self.lands() {
            PlayerModel { x: self.x + 1, y: FLOOR as int, velocity: 0 }
        } else {
            PlayerModel { x: self.x + 1, y: self.step_row(), velocity: self.step_velocity() }
        }
    }

    /// The runner after `n` physics steps.
    pub open spec fn steps(self, n: nat) -> PlayerModel
        decreases n,
    {
        if n == 0 {
            self
        } else {
            self.step().steps((n - 1) as nat)
        }
    }

    /// The runner after a jump.
    pub open spec fn jump(self) -> PlayerModel {
        PlayerModel { velocity: JUMP_VELOCITY as int, ..self }
    }

    /// The runner after a course of physics steps, one for each entry of
    /// `jumps`, each preceded by a jump where the entry says so.
    pub open spec fn course(self, jumps: Seq<bool>) -> PlayerModel
        decreases jumps.len(),
    {
        if jumps.len() == 0 {
            self
        } else if jumps[0] {
            self.jump().step().course(jumps.drop_first())
        } else {
            self.step().course(jumps.drop_first())
        }
    }

    /// The runner is on the arc of a jump from the floor, or at rest.
    pub open spec fn on_arc(self) -> bool {
        &&& self.wf()
        &&& self.y >= arc_top(self.velocity)
    }

    /// The glyph that shows the runner, over a background color.
    pub open spec fn glyph(self, background: Color) -> DrawCommandView {
        DrawCommandView::SetGlyph {
            column: PLAYER_COLUMN as int,
            row: self.y,
            foreground: Color::Yellow,
            background,
            glyph: '@',
        }
    }
}

impl Player {
    /// A runner at rest at the given position.
    pub fn new(x: i32, y: i32) -> (player: Player)
        ensures
            player@ == (PlayerModel { x: x as int, y: y as int, velocity: 0 }),
            y <= FLOOR ==> player@.wf(),
    {
        Player { x, y, velocity: 0 }
    }

    /// One physics step: gravity adds to the velocity while the runner is above
    /// the floor and slower than the cap, the velocity moves the runner by its
    /// whole cells, the runner advances one column, and the floor stops it.
    ///
    /// The preconditions are the limits of the machine integers.
    pub fn integrate_physics(&mut self)
        requires
            old(self)@.x < i32::MAX,
            old(self)@.step_row() >= i32::MIN,
        ensures
            final(self)@ == old(self)@.step(),
            final(self)@.x == old(self)@.x + 1,
            final(self)@.y <= FLOOR,
            old(self)@.falls() && !old(self)@.lands() ==> final(self)@.velocity == old(
                self,
            )@.velocity + GRAVITY,
            !old(self)@.falls() && !old(self)@.lands() ==> final(self)@.velocity == old(
                self,
            )@.velocity,
            old(self)@.lands() ==> final(self)@.velocity == 0 && final(self)@.y == FLOOR,
            old(self)@.wf() ==> final(self)@.wf(),
            old(self)@.on_arc() ==> final(self)@.on_arc(),
    {
        if self.velocity < FALL_CAP && self.y < FLOOR {
            self.velocity = self.velocity + GRAVITY;
        }
        let row: i64 = self.y as i64 + cells_of(self.velocity) as i64;
        self.x = self.x + 1;
        if row > FLOOR as i64 {
            self.y = FLOOR;
            self.velocity = 0;
        } else {
            self.y = row as i32;
        }
    }

    /// A jump: the velocity becomes `JUMP_VELOCITY`, whatever it was. Nothing
    /// else changes, and nothing is asked of the runner: whether a jump is
    /// allowed is for the caller to decide.
    pub fn jump(&mut self)
        ensures
            final(self)@ == old(self)@.jump(),
            final(self)@.velocity == JUMP_VELOCITY,
            old(self)@.y <= FLOOR ==> final(self)@.wf(),
            old(self)@.y == FLOOR ==> final(self)@.on_arc(),
    {
        self.velocity = JUMP_VELOCITY;
    }

    /// Whether the runner is on the arc of a jump from the floor, or at rest.
    pub fn is_on_arc(&self) -> (ok: bool)
        ensures
            ok == self@.on_arc(),
    {
        let top: i32 = if self.velocity < JUMP_VELOCITY + GRAVITY {
            FLOOR - 4
        } else if self.velocity < JUMP_VELOCITY + 2 * GRAVITY {
            FLOOR - 7
        } else if self.velocity < JUMP_VELOCITY + 3 * GRAVITY {
            FLOOR - 9
        } else {
            FLOOR - 10
        };
        self.y <= FLOOR && JUMP_VELOCITY <= self.velocity && self.velocity < FALL_CAP + GRAVITY
            && self.y >= top
    }

    /// The draw command that shows the runner: a yellow `@` in the runner's
    /// column, at the runner's row.
    pub fn render(&self, background: Color) -> (command: DrawCommand)
        ensures
            command@ == self@.glyph(background),
    {
        DrawCommand::SetGlyph {
            column: PLAYER_COLUMN,
            row: self.y,
            foreground: Color::Yellow,
            background,
            glyph: '@',
        }
    }
}

/// A runner at or above the floor stays there through any course of steps and
/// jumps.
pub proof fn law_never_below_floor(player: PlayerModel, jumps: Seq<bool>)
    requires
        player.y <= FLOOR,
    ensures
        player.course(jumps).y <= FLOOR,
    decreases jumps.len(),
{
    if jumps.len() > 0 {
        if jumps[0] {
            law_never_below_floor(player.jump().step(), jumps.drop_first());
        } else {
            law_never_below_floor(player.step(), jumps.drop_first());
        }
    }
}

/// Every step moves the runner one column to the right.
pub proof fn law_steps_advance(player: PlayerModel, n: nat)
    ensures
        player.steps(n).x == player.x + n,
    decreases n,
{
    if n > 0 {
        law_steps_advance(player.step(), (n - 1) as nat);
    }
}

/// A runner at rest on the floor stays at rest on the floor.
pub proof fn law_rest_is_stable(player: PlayerModel, n: nat)
    requires
        player.y == FLOOR,
        player.velocity == 0,
    ensures
        player.steps(n).y == FLOOR,
        player.steps(n).velocity == 0,
    decreases n,
{
    if n > 0 {
        law_rest_is_stable(player.step(), (n - 1) as nat);
    }
}

/// On the arc of a jump the runner is never more than ten rows above the floor.
pub proof fn law_arc_height(player: PlayerModel)
    requires
        player.on_arc(),
    ensures
        FLOOR - 10 <= player.y <= FLOOR,
{
}

/// The arc of a jump is closed under steps.
pub proof fn law_arc_is_kept(player: PlayerModel, n: nat)
    requires
        player.on_arc(),
    ensures
        player.steps(n).on_arc(),
    decreases n,
{
    if n > 0 {
        law_arc_is_kept(player.step(), (n - 1) as nat);
    }
}

} // verus!
