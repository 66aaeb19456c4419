//! The obstacle field: the obstacles in play, in the order of their creation.

use vstd::prelude::*;
use bracket_lib::prelude::RandomNumberGenerator;
use crate::obstacle::{Obstacle, ObstacleModel};
use crate::player::{Player, PlayerModel};
use crate::render::{frame_view, Color, DrawCommand, DrawCommandView};
use crate::world::{MAX_SCORE, PLAYER_COLUMN, SCREEN_WIDTH, SPAWN_SPREAD, SPAWN_THRESHOLD};

verus! {

/// The obstacles in play. The front of the list is the earliest spawned.
#[derive(Clone, Debug, PartialEq, Eq)]
pub struct ObstacleField {
    pub obstacles: Vec<Obstacle>,
}

impl View for ObstacleField {
    type V = Seq<ObstacleModel>;

    open spec fn view(&self) -> Seq<ObstacleModel> {
        self.obstacles@.map_values(|obstacle: Obstacle| obstacle@)
    }
}

/// Every obstacle of the field is well formed.
pub open spec fn all_wf(field: Seq<ObstacleModel>) -> bool {
    forall|i: int| 0 <= i < field.len() ==> (#[trigger] field[i]).wf()
}

/// Every obstacle of the field can advance within the machine integers.
pub open spec fn all_can_advance(field: Seq<ObstacleModel>, player_x: int) -> bool {
    forall|i: int| 0 <= i < field.len() ==> (#[trigger] field[i]).can_advance(player_x)
}

/// The field after one tick: every obstacle advanced, in the same order.
pub open spec fn advanced(field: Seq<ObstacleModel>) -> Seq<ObstacleModel> {
    field.map_values(|obstacle: ObstacleModel| obstacle.advance())
}

/// The glyphs that show the field, one for each obstacle, in the field's order.
pub open spec fn glyphs(field: Seq<ObstacleModel>, player_x: int, background: Color) -> Seq<
    DrawCommandView,
> {
    field.map_values(|obstacle: ObstacleModel| obstacle.glyph(player_x, background))
}

/// Some obstacle of the field is drawn in the runner's cell.
pub open spec fn any_hit(field: Seq<ObstacleModel>, player: PlayerModel) -> bool {
    exists|i: int| 0 <= i < field.len() && (#[trigger] field[i]).collides_with(player)
}

/// The obstacles that have not fallen behind the runner by the margin, in order.
pub open spec fn kept(field: Seq<ObstacleModel>, player_x: int, margin: int) -> Seq<
    ObstacleModel,
> {
    field.filter(|obstacle: ObstacleModel| !obstacle.passed(player_x, margin))
}

/// The obstacles that have fallen behind the runner by the margin, in order.
pub open spec fn retired(field: Seq<ObstacleModel>, player_x: int, margin: int) -> Seq<
    ObstacleModel,
> {
    field.filter(|obstacle: ObstacleModel| obstacle.passed(player_x, margin))
}

/// No obstacle of the field is as far ahead of the runner as the spawn
/// threshold: the rightmost one, if there is any, has come within it.
pub open spec fn wants_spawn(field: Seq<ObstacleModel>, player_x: int) -> bool {
    forall|i: int| 0 <= i < field.len() ==> (#[trigger] field[i]).x - player_x < SPAWN_THRESHOLD
}

/// Retiring splits the field in two: every obstacle is kept or retired, the
/// retired ones are exactly those that have fallen behind by the margin, and
/// the kept ones are exactly the others.
pub proof fn law_kept_and_retired(field: Seq<ObstacleModel>, player_x: int, margin: int)
    ensures
        kept(field, player_x, margin).len() + retired(field, player_x, margin).len()
            == field.len(),
        forall|obstacle: ObstacleModel|
            #[trigger] kept(field, player_x, margin).contains(obstacle) <==> field.contains(
                obstacle,
            ) && !obstacle.passed(player_x, margin),
        forall|obstacle: ObstacleModel|
            #[trigger] retired(field, player_x, margin).contains(obstacle) <==> field.contains(
                obstacle,
            ) && obstacle.passed(player_x, margin),
    decreases field.len(),
{
    broadcast use vstd::seq_lib::group_filter_ensures;
    broadcast use Seq::lemma_filter_contains_rev;

    let keep = |obstacle: ObstacleModel| !obstacle.passed(player_x, margin);
    let pass = |obstacle: ObstacleModel| obstacle.passed(player_x, margin);
    let staying = field.filter(keep);
    let leaving = field.filter(pass);
    assert forall|obstacle: ObstacleModel| #[trigger]
        staying.contains(obstacle) implies keep(obstacle) by {
        let i = choose|i: int| 0 <= i < staying.len() && staying[i] == obstacle;
        field.lemma_filter_pred(keep, i);
    }
    assert forall|obstacle: ObstacleModel| #[trigger]
        leaving.contains(obstacle) implies pass(obstacle) by {
        let i = choose|i: int| 0 <= i < leaving.len() && leaving[i] == obstacle;
        field.lemma_filter_pred(pass, i);
    }
    assert forall|obstacle: ObstacleModel|
        field.contains(obstacle) && keep(obstacle) implies #[trigger] staying.contains(
        obstacle,
    ) by {
        let i = choose|i: int| 0 <= i < field.len() && field[i] == obstacle;
        field.lemma_filter_contains(keep, i);
    }
    assert forall|obstacle: ObstacleModel|
        field.contains(obstacle) && pass(obstacle) implies #[trigger] leaving.contains(
        obstacle,
    ) by {
        let i = choose|i: int| 0 <= i < field.len() && field[i] == obstacle;
        field.lemma_filter_contains(pass, i);
    }
    reveal(Seq::filter);
    if field.len() > 0 {
        law_kept_and_retired(field.drop_last(), player_x, margin);
    }
}

impl ObstacleField {
    /// An empty field.
    pub fn new() -> (field: ObstacleField)
        ensures
            field@ == Seq::<ObstacleModel>::empty(),
    {
        let field = ObstacleField { obstacles: Vec::new() };
        assert(field@ =~= Seq::<ObstacleModel>::empty());
        field
    }

    /// The number of obstacles in play.
    pub fn len(&self) -> (len: usize)
        ensures
            len == self@.len(),
    {
        self.obstacles.len()
    }

    /// One tick of every obstacle, in the field's order: each moves left by the
    /// whole cells of its velocity. The commands that draw them come back in
    /// the same order.
    ///
    /// The precondition is the limit of the machine integers.
    pub fn advance_all(&mut self, player_x: i32, background: Color) -> (frame: Vec<DrawCommand>)
        requires
            all_can_advance(old(self)@, player_x as int),
        ensures
            final(self)@ == advanced(old(self)@),
            frame_view(frame@) == glyphs(final(self)@, player_x as int, background),
    {
        let mut frame: Vec<DrawCommand> = Vec::new();
        let count: usize = self.obstacles.len();
        let mut i: usize = 0;
        while i < count
            invariant
                count == self.obstacles@.len(),
                count == old(self).obstacles@.len(),
                0 <= i <= count,
                all_can_advance(old(self)@, player_x as int),
                forall|j: int|
                    0 <= j < i ==> (#[trigger] self.obstacles@[j])@ == old(
                        self,
                    ).obstacles@[j]@.advance(),
                forall|j: int|
                    i <= j < count ==> #[trigger] self.obstacles@[j] == old(self).obstacles@[j],
                frame@.len() == i,
                forall|j: int|
                    0 <= j < i ==> (#[trigger] frame@[j])@ == self.obstacles@[j]@.glyph(
                        player_x as int,
                        background,
                    ),
            decreases count - i,
        {
            let mut obstacle = self.obstacles[i];
            assert(old(self)@[i as int].can_advance(player_x as int));
            let command = obstacle.advance(player_x, background);
            self.obstacles.set(i, obstacle);
            frame.push(command);
            i += 1;
        }
        assert(self@ =~= advanced(old(self)@));
        assert(frame_view(frame@) =~= glyphs(self@, player_x as int, background));
        frame
    }

    /// Whether some obstacle is drawn in the runner's cell.
    pub fn any_collision(&self, player: &Player) -> (hit: bool)
        ensures
            hit == any_hit(self@, player@),
            hit <==> exists|i: int|
                0 <= i < self.obstacles@.len() && (#[trigger] self.obstacles@[i]).x - PLAYER_COLUMN
                    == player.x && self.obstacles@[i].y == player.y,
    {
        let count: usize = self.obstacles.len();
        let mut i: usize = 0;
        while i < count
            invariant
                count == self.obstacles@.len(),
                0 <= i <= count,
                forall|j: int| 0 <= j < i ==> !(#[trigger] self@[j]).collides_with(player@),
            decreases count - i,
        {
            if self.obstacles[i].collides_with(player) {
                assert(self@[i as int].collides_with(player@));
                assert(self.obstacles@[i as int].x - PLAYER_COLUMN == player.x
                    && self.obstacles@[i as int].y == player.y);
                return true;
            }
            i += 1;
        }
        assert forall|j: int| 0 <= j < self.obstacles@.len() implies !((
        #[trigger] self.obstacles@[j]).x - PLAYER_COLUMN == player.x && self.obstacles@[j].y
            == player.y) by {
            assert(!self@[j].collides_with(player@));
        }
        false
    }

    /// Retires the obstacles that have fallen behind the runner by the margin:
    /// exactly those with `x <= player_x - margin` leave the field, the others
    /// stay in their order. Returns how many left.
    pub fn retire_passed(&mut self, player_x: i32, margin: i32) -> (removed: usize)
        ensures
            final(self)@ == kept(old(self)@, player_x as int, margin as int),
            removed == retired(old(self)@, player_x as int, margin as int).len(),
            removed == old(self)@.len() - final(self)@.len(),
    {
        let ghost before = self@;
        let ghost keep = |obstacle: ObstacleModel| !obstacle.passed(player_x as int, margin as int);
        let ghost pass = |obstacle: ObstacleModel| obstacle.passed(player_x as int, margin as int);
        let mut staying: Vec<Obstacle> = Vec::new();
        let mut removed: usize = 0;
        let count: usize = self.obstacles.len();
        let mut i: usize = 0;
        assert(before.take(0) =~= Seq::<ObstacleModel>::empty());
        while i < count
            invariant
                count == self.obstacles@.len(),
                self@ == before,
                before == old(self)@,
                0 <= i <= count,
                keep == |obstacle: ObstacleModel| !obstacle.passed(player_x as int, margin as int),
                pass == |obstacle: ObstacleModel| obstacle.passed(player_x as int, margin as int),
                staying@.map_values(|obstacle: Obstacle| obstacle@) == before.take(i as int).filter(
                    keep,
                ),
                removed == before.take(i as int).filter(pass).len(),
                removed + staying@.len() == i,
            decreases count - i,
        {
            let obstacle = self.obstacles[i];
            proof {
                reveal(Seq::filter);
                let next = before.take(i + 1);
                assert(next.drop_last() =~= before.take(i as int));
                assert(next.last() == obstacle@);
            }
            if obstacle.x as i64 > player_x as i64 - margin as i64 {
                staying.push(obstacle);
                assert(staying@.map_values(|obstacle: Obstacle| obstacle@) =~= before.take(
                    i as int,
                ).filter(keep).push(obstacle@));
            } else {
                removed += 1;
            }
            i += 1;
        }
        assert(before.take(count as int) =~= before);
        self.obstacles = staying;
        removed
    }

    /// Whether a spawn is due for a runner at `player_x`: no obstacle is as far
    /// ahead as the spawn threshold.
    pub fn spawn_due(&self, player_x: i32) -> (due: bool)
        ensures
            due == wants_spawn(self@, player_x as int),
    {
        let count: usize = self.obstacles.len();
        let mut i: usize = 0;
        while i < count
            invariant
                count == self.obstacles@.len(),
                0 <= i <= count,
                forall|j: int| 0 <= j < i ==> (#[trigger] self@[j]).x - player_x < SPAWN_THRESHOLD,
            decreases count - i,
        {
            if self.obstacles[i].x as i64 - player_x as i64 >= SPAWN_THRESHOLD as i64 {
                assert(!(self@[i as int].x - player_x < SPAWN_THRESHOLD));
                return false;
            }
            i += 1;
        }
        true
    }

    /// Spawns one obstacle a screen width ahead of the runner if a spawn is
    /// due, and nothing otherwise. The new obstacle goes to the back of the
    /// field. Returns whether it spawned.
    ///
    /// The preconditions are the limits of the machine integers.
    pub fn maybe_spawn(
        &mut self,
        rng: &mut RandomNumberGenerator,
        player_x: i32,
        score: u32,
    ) -> (spawned: bool)
        requires
            player_x <= i32::MAX - SCREEN_WIDTH - SPAWN_SPREAD,
            score <= MAX_SCORE,
        ensures
            spawned == wants_spawn(old(self)@, player_x as int),
            !spawned ==> final(self)@ == old(self)@,
            spawned ==> final(self)@.len() == old(self)@.len() + 1 && final(self)@.drop_last()
                == old(self)@ && final(self)@.last().may_spawn(
                player_x + SCREEN_WIDTH,
                score as int,
            ) && final(self)@.last().wf(),
    {
        if self.spawn_due(player_x) {
            let obstacle = Obstacle::spawn(rng, player_x + SCREEN_WIDTH, score);
            self.obstacles.push(obstacle);
            assert(self@.drop_last() =~= old(self)@);
            assert(self@.last() == obstacle@);
            true
        } else {
            false
        }
    }
}

} // verus!
