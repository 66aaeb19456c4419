//! The game session: the runner, the field, the score, the fixed-step clock and
//! the mode controller that decides what a tick does.

use vstd::prelude::*;
use vstd::string::*;
use bracket_lib::prelude::RandomNumberGenerator;
use crate::field::{
    advanced, all_can_advance, all_wf, any_hit, glyphs, kept, law_kept_and_retired, retired,
    wants_spawn, ObstacleField,
};
use crate::obstacle::{Obstacle, ObstacleModel};
use crate::player::{Player, PlayerModel};
use crate::render::{decimal_text, frame_view, labelled, Color, DrawCommand, DrawCommandView};
use crate::world::{
    whole_cells, FLOOR, FRAME_MICROS, MAX_PLAYER_X, MAX_SCORE, PLAYER_COLUMN, RETIRE_MARGIN,
    SCREEN_WIDTH, SPAWN_SPREAD, SPAWN_THRESHOLD,
};

verus! {

/// The screen that a tick serves.
#[derive(Clone, Copy, Debug, PartialEq, Eq, Structural)]
pub enum Mode {
    Menu,
    Playing,
    Paused,
    Ended,
}

/// What the player can ask for. A tick takes at most one.
#[derive(Clone, Copy, Debug, PartialEq, Eq, Structural)]
pub enum Input {
    Jump,
    Pause,
    Play,
    Quit,
    Restart,
}

/// The keys that the game listens to.
#[derive(Clone, Copy, Debug, PartialEq, Eq, Structural)]
pub enum Key {
    P,
    Q,
    Space,
    Other,
}

/// What a key asks for on each screen.
pub open spec fn bound_input(mode: Mode, key: Key) -> Option<Input> {
    match (mode, key) {
        (Mode::Menu, Key::P) => Some(Input::Play),
        (Mode::Menu, Key::Q) => Some(Input::Quit),
        (Mode::Playing, Key::P) => Some(Input::Pause),
        (Mode::Playing, Key::Space) => Some(Input::Jump),
        (Mode::Paused, Key::P) => Some(Input::Play),
        (Mode::Paused, Key::Q) => Some(Input::Quit),
        (Mode::Ended, Key::P) => Some(Input::Restart),
        (Mode::Ended, Key::Q) => Some(Input::Quit),
        _ => None,
    }
}

/// Computes `bound_input`.
pub fn bind_key(mode: Mode, key: Key) -> (input: Option<Input>)
    ensures
        input == bound_input(mode, key),
{
    match (mode, key) {
        (Mode::Menu, Key::P) => Some(Input::Play),
        (Mode::Menu, Key::Q) => Some(Input::Quit),
        (Mode::Playing, Key::P) => Some(Input::Pause),
        (Mode::Playing, Key::Space) => Some(Input::Jump),
        (Mode::Paused, Key::P) => Some(Input::Play),
        (Mode::Paused, Key::Q) => Some(Input::Quit),
        (Mode::Ended, Key::P) => Some(Input::Restart),
        (Mode::Ended, Key::Q) => Some(Input::Quit),
        _ => None,
    }
}

/// The color of the sky at a score: it darkens through five shades and starts
/// over every fifty points.
pub open spec fn sky_at(score: int) -> Color {
    let phase = score % 50;
    if phase <= 10 {
        Color::CornflowerBlue
    } else if phase <= 20 {
        Color::MediumBlue
    } else if phase <= 30 {
        Color::DarkBlue
    } else if phase <= 40 {
        Color::MidnightBlue
    } else {
        Color::SlateBlue
    }
}

/// The ground line: a green dash in every column of the row below the floor.
pub open spec fn ground(background: Color) -> Seq<DrawCommandView> {
    Seq::new(
        SCREEN_WIDTH as nat,
        |column: int|
            DrawCommandView::SetGlyph {
                column,
                row: FLOOR + 1,
                foreground: Color::Green,
                background,
                glyph: '-',
            },
    )
}

/// The three lines at the top of the playing screen.
pub open spec fn hud(score: int, obstacles: int) -> Seq<DrawCommandView> {
    seq![
        DrawCommandView::Print { column: 0, row: 0, text: "Press SPACE to jump."@ },
        DrawCommandView::Print {
            column: 0,
            row: 1,
            text: "Score: "@ + decimal_text(score as nat),
        },
        DrawCommandView::Print {
            column: 0,
            row: 2,
            text: "Obstacles: "@ + decimal_text(obstacles as nat),
        },
    ]
}

/// The menu screen.
pub open spec fn menu_screen() -> Seq<DrawCommandView> {
    seq![
        DrawCommandView::Clear,
        DrawCommandView::PrintCentered { row: 5, text: "Welcome to Dinorun"@ },
        DrawCommandView::PrintCentered { row: 8, text: "(P) Play Game"@ },
        DrawCommandView::PrintCentered { row: 9, text: "(Q) Quit Game"@ },
    ]
}

/// The screen that ends a run, with the score that was earned.
pub open spec fn end_screen(score: int) -> Seq<DrawCommandView> {
    seq![
        DrawCommandView::Clear,
        DrawCommandView::PrintCentered { row: 5, text: "You are dead"@ },
        DrawCommandView::PrintCentered {
            row: 6,
            text: "You earned "@ + decimal_text(score as nat) + " points"@,
        },
        DrawCommandView::PrintCentered { row: 8, text: "(P) Play Again"@ },
        DrawCommandView::PrintCentered { row: 9, text: "(Q) Quit Game"@ },
    ]
}

/// The request to quit, if that is what the input asks for.
pub open spec fn quit_request(input: Option<Input>) -> Seq<DrawCommandView> {
    if input == Some(Input::Quit) {
        seq![DrawCommandView::RequestQuit]
    } else {
        Seq::empty()
    }
}

/// The input asks for a new run.
pub open spec fn asks_restart(input: Option<Input>) -> bool {
    input == Some(Input::Play) || input == Some(Input::Restart)
}

/// Every obstacle is ahead of the line behind which it is retired.
pub open spec fn in_play(field: Seq<ObstacleModel>, player_x: int) -> bool {
    forall|i: int| 0 <= i < field.len() ==> player_x - RETIRE_MARGIN < (#[trigger] field[i]).x
}

/// The game session.
pub struct Session {
    pub player: Player,
    pub field: ObstacleField,
    /// The number of obstacles retired in this run.
    pub score: u32,
    /// Microseconds gathered toward the next physics step.
    pub frame_time: u64,
    pub mode: Mode,
    /// The generator that the spawns draw from.
    pub rng: RandomNumberGenerator,
}

/// The session over the mathematical integers, without the generator.
pub struct SessionModel {
    pub player: PlayerModel,
    pub field: Seq<ObstacleModel>,
    pub score: int,
    pub frame_time: int,
    pub mode: Mode,
}

impl View for Session {
    type V = SessionModel;

    open spec fn view(&self) -> SessionModel {
        SessionModel {
            player: self.player@,
            field: self.field@,
            score: self.score as int,
            frame_time: self.frame_time as int,
            mode: self.mode,
        }
    }
}

impl SessionModel {
    /// The invariant of a session: the runner is on the arc of a jump or at
    /// rest, the field is never empty, every obstacle is well formed and in
    /// play, and the clock has not passed the step.
    pub open spec fn wf(self) -> bool {
        &&& self.player.on_arc()
        &&& self.player.x >= PLAYER_COLUMN
        &&& self.field.len() > 0
        &&& all_wf(self.field)
        &&& in_play(self.field, self.player.x)
        &&& 0 <= self.score
        &&& 0 <= self.frame_time <= FRAME_MICROS
    }

    /// One more playing tick fits the machine integers.
    pub open spec fn within_limits(self) -> bool {
        &&& self.player.x <= MAX_PLAYER_X
        &&& self.score + self.field.len() <= MAX_SCORE
    }

    /// A session as a new run begins it: the runner at rest at the start, one
    /// obstacle spawned a screen width away at score zero, no score, the clock
    /// at zero.
    pub open spec fn fresh(self, mode: Mode) -> bool {
        &&& self.player == (PlayerModel { x: PLAYER_COLUMN as int, y: FLOOR as int, velocity: 0 })
        &&& self.field.len() == 1
        &&& self.field[0].may_spawn(SCREEN_WIDTH as int, 0)
        &&& self.score == 0
        &&& self.frame_time == 0
        &&& self.mode == mode
    }

    /// The time gathered with this tick's share reaches past the fixed step.
    pub open spec fn physics_due(self, elapsed: int) -> bool {
        self.frame_time + elapsed > FRAME_MICROS
    }

    /// The clock after a playing tick: back at zero when a step was due.
    pub open spec fn clock_after(self, elapsed: int) -> int {
        if self.physics_due(elapsed) {
            0
        } else {
            self.frame_time + elapsed
        }
    }

    /// The runner after a playing tick: one physics step if it was due, then a
    /// jump if it was asked for and the runner stands on the floor.
    pub open spec fn runner_after(self, input: Option<Input>, elapsed: int) -> PlayerModel {
        let stepped = if self.physics_due(elapsed) {
            self.player.step()
        } else {
            self.player
        };
        if input == Some(Input::Jump) && stepped.y == FLOOR {
            stepped.jump()
        } else {
            stepped
        }
    }

    /// This playing tick draws an obstacle in the runner's cell.
    pub open spec fn collides(self, input: Option<Input>, elapsed: int) -> bool {
        any_hit(advanced(self.field), self.runner_after(input, elapsed))
    }

    /// The obstacles that a playing tick leaves in the field before it spawns.
    pub open spec fn field_kept(self, input: Option<Input>, elapsed: int) -> Seq<ObstacleModel> {
        kept(advanced(self.field), self.runner_after(input, elapsed).x, RETIRE_MARGIN as int)
    }

    /// The score after a playing tick: one point for each obstacle retired.
    pub open spec fn score_after(self, input: Option<Input>, elapsed: int) -> int {
        self.score + retired(
            advanced(self.field),
            self.runner_after(input, elapsed).x,
            RETIRE_MARGIN as int,
        ).len()
    }

    /// The mode after a playing tick: a collision ends the run, whatever was
    /// asked for; otherwise a pause is granted.
    pub open spec fn mode_after_play(self, input: Option<Input>, elapsed: int) -> Mode {
        if self.collides(input, elapsed) {
            Mode::Ended
        } else if input == Some(Input::Pause) {
            Mode::Paused
        } else {
            self.mode
        }
    }

    /// The mode after a tick.
    pub open spec fn next_mode(self, input: Option<Input>, elapsed: int) -> Mode {
        match self.mode {
            Mode::Menu => if input == Some(Input::Play) {
                Mode::Playing
            } else {
                Mode::Menu
            },
            Mode::Playing => self.mode_after_play(input, elapsed),
            Mode::Paused | Mode::Ended => if asks_restart(input) {
                Mode::Playing
            } else {
                self.mode
            },
        }
    }

    /// This playing tick spawns an obstacle.
    pub open spec fn spawns(self, input: Option<Input>, elapsed: int) -> bool {
        wants_spawn(self.field_kept(input, elapsed), self.runner_after(input, elapsed).x)
    }

    /// What a playing tick draws: the sky, the ground line, the runner, the
    /// obstacles where they are after their move, and the three lines of text
    /// with the score and the number of obstacles after retirement.
    pub open spec fn play_frame(self, input: Option<Input>, elapsed: int) -> Seq<DrawCommandView> {
        let background = sky_at(self.score);
        let runner = self.runner_after(input, elapsed);
        seq![DrawCommandView::ClearBackground { color: background }] + ground(background)
            + seq![runner.glyph(background)] + glyphs(advanced(self.field), runner.x, background)
            + hud(self.score_after(input, elapsed), self.field_kept(input, elapsed).len() as int)
    }

    /// `after` is this session after a playing tick. Everything is fixed by
    /// the session, the input and the elapsed time, but for the obstacle that
    /// the tick may spawn: that one is made of some draws allowed at the new
    /// score, a screen width ahead of the runner.
    pub open spec fn played(self, after: SessionModel, input: Option<Input>, elapsed: int) -> bool {
        let runner = self.runner_after(input, elapsed);
        let staying = self.field_kept(input, elapsed);
        &&& after.player == runner
        &&& after.frame_time == self.clock_after(elapsed)
        &&& after.score == self.score_after(input, elapsed)
        &&& after.mode == self.mode_after_play(input, elapsed)
        &&& if self.spawns(input, elapsed) {
            &&& after.field.len() == staying.len() + 1
            &&& after.field.drop_last() == staying
            &&& after.field.last().may_spawn(runner.x + SCREEN_WIDTH, after.score)
        } else {
            after.field == staying
        }
    }

    /// `after` and `frame` are this session and its picture after a tick on
    /// the menu: the menu is drawn, `Play` begins a new run, `Quit` asks the
    /// terminal to quit, and nothing else changes anything.
    pub open spec fn menu_ticked(
        self,
        after: SessionModel,
        frame: Seq<DrawCommandView>,
        input: Option<Input>,
    ) -> bool {
        &&& frame == menu_screen() + quit_request(input)
        &&& if input == Some(Input::Play) {
            after.fresh(Mode::Playing)
        } else {
            after == self
        }
    }

    /// `after` and `frame` are this session and its picture after a tick on
    /// the screen that ends a run, which also serves a paused run: the score is
    /// shown, `Play` and `Restart` begin a new run, `Quit` asks the terminal to
    /// quit, and nothing else changes anything.
    pub open spec fn end_ticked(
        self,
        after: SessionModel,
        frame: Seq<DrawCommandView>,
        input: Option<Input>,
    ) -> bool {
        &&& frame == end_screen(self.score) + quit_request(input)
        &&& if asks_restart(input) {
            after.fresh(Mode::Playing)
        } else {
            after == self
        }
    }

    /// `after` and `frame` are this session and its picture after a tick.
    pub open spec fn ticked(
        self,
        after: SessionModel,
        frame: Seq<DrawCommandView>,
        input: Option<Input>,
        elapsed: int,
    ) -> bool {
        match self.mode {
            Mode::Menu => self.menu_ticked(after, frame, input),
            Mode::Playing => self.played(after, input, elapsed) && frame == self.play_frame(
                input,
                elapsed,
            ),
            Mode::Paused | Mode::Ended => self.end_ticked(after, frame, input),
        }
    }
}

/// The content of two lists of draw commands, one after the other.
proof fn lemma_frame_view_add(first: Seq<DrawCommand>, second: Seq<DrawCommand>)
    ensures
        frame_view(first + second) == frame_view(first) + frame_view(second),
{
    assert(frame_view(first + second) =~= frame_view(first) + frame_view(second));
}

/// A text centered in a row.
fn centered(row: i32, text: &str) -> (command: DrawCommand)
    ensures
        command@ == (DrawCommandView::PrintCentered { row: row as int, text: text@ }),
{
    DrawCommand::PrintCentered { row, text: String::from_str(text) }
}

/// The commands that draw the ground line.
fn ground_line(background: Color) -> (frame: Vec<DrawCommand>)
    ensures
        frame_view(frame@) == ground(background),
{
    let mut frame: Vec<DrawCommand> = Vec::new();
    let mut column: i32 = 0;
    while column < SCREEN_WIDTH
        invariant
            0 <= column <= SCREEN_WIDTH,
            frame@.len() == column,
            forall|i: int| 0 <= i < column ==> (#[trigger] frame@[i])@ == ground(background)[i],
        decreases SCREEN_WIDTH - column,
    {
        frame.push(
            DrawCommand::SetGlyph {
                column,
                row: FLOOR + 1,
                foreground: Color::Green,
                background,
                glyph: '-',
            },
        );
        column += 1;
    }
    assert(frame_view(frame@) =~= ground(background));
    frame
}

/// The commands that print the three lines at the top of the playing screen.
fn hud_lines(score: u32, obstacles: usize) -> (frame: Vec<DrawCommand>)
    ensures
        frame_view(frame@) == hud(score as int, obstacles as int),
{
    proof {
        reveal_strlit("");
    }
    let mut frame: Vec<DrawCommand> = Vec::new();
    let hint = String::from_str("Press SPACE to jump.");
    frame.push(DrawCommand::Print { column: 0, row: 0, text: hint });
    let score_text = labelled("Score: ", score as u64, "");
    assert(score_text@ =~= "Score: "@ + decimal_text(score as nat));
    frame.push(DrawCommand::Print { column: 0, row: 1, text: score_text });
    let count_text = labelled("Obstacles: ", obstacles as u64, "");
    assert(count_text@ =~= "Obstacles: "@ + decimal_text(obstacles as nat));
    frame.push(DrawCommand::Print { column: 0, row: 2, text: count_text });
    assert(frame_view(frame@) =~= hud(score as int, obstacles as int));
    frame
}

/// Adds the request to quit to a frame if the input asks for it.
fn push_quit_request(frame: &mut Vec<DrawCommand>, input: Option<Input>)
    ensures
        frame_view(final(frame)@) == frame_view(old(frame)@) + quit_request(input),
{
    match input {
        Some(Input::Quit) => {
            frame.push(DrawCommand::RequestQuit);
        },
        _ => {},
    }
    assert(frame_view(frame@) =~= frame_view(old(frame)@) + quit_request(input));
}

impl Session {
    /// A session on the menu, ready for its first run, with a generator of
    /// the caller's choice.
    pub fn with_generator(rng: RandomNumberGenerator) -> (session: Session)
        ensures
            session@.fresh(Mode::Menu),
            session@.wf(),
    {
        let mut rng = rng;
        let mut field = ObstacleField::new();
        let obstacle = Obstacle::spawn(&mut rng, SCREEN_WIDTH, 0);
        field.obstacles.push(obstacle);
        assert(field@ =~= seq![obstacle@]);
        Session {
            player: Player::new(PLAYER_COLUMN, FLOOR),
            field,
            score: 0,
            frame_time: 0,
            mode: Mode::Menu,
            rng,
        }
    }

    /// A session on the menu, ready for its first run, with a generator seeded
    /// by the operating system.
    pub fn new() -> (session: Session)
        ensures
            session@.fresh(Mode::Menu),
            session@.wf(),
    {
        Session::with_generator(RandomNumberGenerator::new())
    }

    /// Begins a new run: the runner back at rest at the start, a single fresh
    /// obstacle, no score, the clock at zero, the mode `Playing`.
    pub fn restart(&mut self)
        ensures
            final(self)@.fresh(Mode::Playing),
            final(self)@.wf(),
    {
        self.player = Player::new(PLAYER_COLUMN, FLOOR);
        self.frame_time = 0;
        self.mode = Mode::Playing;
        let mut field = ObstacleField::new();
        let obstacle = Obstacle::spawn(&mut self.rng, SCREEN_WIDTH, 0);
        field.obstacles.push(obstacle);
        assert(field@ =~= seq![obstacle@]);
        self.field = field;
        self.score = 0;
    }

    /// Whether the session is well formed.
    pub fn is_well_formed(&self) -> (ok: bool)
        ensures
            ok == self@.wf(),
    {
        if !self.player.is_on_arc() || self.player.x < PLAYER_COLUMN || self.field.len() == 0
            || self.frame_time > FRAME_MICROS {
            return false;
        }
        let count: usize = self.field.len();
        let mut i: usize = 0;
        while i < count
            invariant
                count == self.field@.len(),
                0 <= i <= count,
                forall|j: int| 0 <= j < i ==> (#[trigger] self.field@[j]).wf(),
                forall|j: int|
                    0 <= j < i ==> self.player@.x - RETIRE_MARGIN < (#[trigger] self.field@[j]).x,
            decreases count - i,
        {
            let obstacle = self.field.obstacles[i];
            assert(obstacle@ == self.field@[i as int]);
            let distance: i64 = obstacle.x as i64 - self.player.x as i64;
            if !obstacle.is_well_formed() || distance <= -(RETIRE_MARGIN as i64) {
                return false;
            }
            i += 1;
        }
        true
    }

    /// Whether the session can take a tick: it is well formed and, while a run
    /// is on, one more playing tick fits the machine integers.
    pub fn can_tick(&self) -> (ok: bool)
        ensures
            ok == (self@.wf() && (self@.mode == Mode::Playing ==> self@.within_limits())),
    {
        if !self.is_well_formed() {
            return false;
        }
        match self.mode {
            Mode::Playing => {
                let count: usize = self.field.len();
                self.player.x <= MAX_PLAYER_X && count <= MAX_SCORE as usize && self.score
                    <= MAX_SCORE - count as u32
            },
            _ => true,
        }
    }

    /// The color of the sky at the session's score.
    pub fn sky(&self) -> (color: Color)
        ensures
            color == sky_at(self@.score),
    {
        let phase: u32 = self.score % 50;
        if phase <= 10 {
            Color::CornflowerBlue
        } else if phase <= 20 {
            Color::MediumBlue
        } else if phase <= 30 {
            Color::DarkBlue
        } else if phase <= 40 {
            Color::MidnightBlue
        } else {
            Color::SlateBlue
        }
    }

    /// One tick of a run. The clock gathers the elapsed time, and once it is
    /// past the fixed step it starts over and the runner makes one physics
    /// step. A pause is granted; a jump is granted if the runner stands on the
    /// floor. The obstacles move and are drawn, a collision ends the run, the
    /// obstacles that have fallen behind are retired for a point each, and a
    /// new one is spawned if none is far enough ahead.
    ///
    /// The second precondition is the limit of the machine integers.
    pub fn play(&mut self, input: Option<Input>, elapsed: u32) -> (frame: Vec<DrawCommand>)
        requires
            old(self)@.wf(),
            old(self)@.within_limits(),
        ensures
            old(self)@.played(final(self)@, input, elapsed as int),
            frame_view(frame@) == old(self)@.play_frame(input, elapsed as int),
            final(self)@.wf(),
            final(self)@.score == old(self)@.score + retired(
                advanced(old(self)@.field),
                final(self)@.player.x,
                RETIRE_MARGIN as int,
            ).len(),
            final(self)@.score - old(self)@.score == old(self)@.field.len() - old(
                self,
            )@.field_kept(input, elapsed as int).len(),
            old(self)@.collides(input, elapsed as int) ==> final(self)@.mode == Mode::Ended,
    {
        let ghost before = self@;
        let ghost moved = advanced(before.field);
        let background = self.sky();
        let mut frame: Vec<DrawCommand> = Vec::new();
        frame.push(DrawCommand::ClearBackground { color: background });
        let mut ground_frame = ground_line(background);
        proof {
            lemma_frame_view_add(frame@, ground_frame@);
        }
        frame.append(&mut ground_frame);

        self.frame_time = self.frame_time + elapsed as u64;
        if self.frame_time > FRAME_MICROS {
            self.frame_time = 0;
            self.player.integrate_physics();
        }
        match input {
            Some(Input::Pause) => {
                self.mode = Mode::Paused;
            },
            Some(Input::Jump) => {
                if self.player.y == FLOOR {
                    self.player.jump();
                }
            },
            _ => {},
        }
        let ghost runner = self.player@;
        assert(runner == before.runner_after(input, elapsed as int));
        assert(runner.on_arc());

        let command = self.player.render(background);
        proof {
            lemma_frame_view_add(frame@, seq![command]);
            assert(frame@.push(command) =~= frame@ + seq![command]);
            assert(frame_view(seq![command]) =~= seq![runner.glyph(background)]);
        }
        frame.push(command);

        proof {
            lemma_advance_fits(self.field, before.player.x, runner.x);
        }
        let mut obstacle_frame = self.field.advance_all(self.player.x, background);
        proof {
            lemma_frame_view_add(frame@, obstacle_frame@);
        }
        frame.append(&mut obstacle_frame);
        assert(self.field@ == moved);

        if self.field.any_collision(&self.player) {
            self.mode = Mode::Ended;
        }
        proof {
            law_kept_and_retired(moved, runner.x, RETIRE_MARGIN as int);
        }
        let removed: usize = self.field.retire_passed(self.player.x, RETIRE_MARGIN);
        self.score = self.score + removed as u32;
        let remaining: usize = self.field.len();
        let ghost staying = self.field@;
        assert(staying == before.field_kept(input, elapsed as int));

        self.field.maybe_spawn(&mut self.rng, self.player.x, self.score);

        let mut hud_frame = hud_lines(self.score, remaining);
        proof {
            lemma_frame_view_add(frame@, hud_frame@);
        }
        frame.append(&mut hud_frame);
        proof {
            lemma_field_stays_in_play(before.field, runner.x, self@.field);
        }
        frame
    }

    /// One tick: the screen of the current mode is served.
    ///
    /// The second precondition is the limit of the machine integers.
    pub fn tick(&mut self, input: Option<Input>, elapsed: u32) -> (frame: Vec<DrawCommand>)
        requires
            old(self)@.wf(),
            old(self)@.mode == Mode::Playing ==> old(self)@.within_limits(),
        ensures
            old(self)@.ticked(final(self)@, frame_view(frame@), input, elapsed as int),
            final(self)@.mode == old(self)@.next_mode(input, elapsed as int),
            final(self)@.wf(),
            final(self)@.player.y <= FLOOR,
            final(self)@.field.len() > 0,
            old(self)@.mode == Mode::Playing ==> final(self)@.score == old(self)@.score + retired(
                advanced(old(self)@.field),
                final(self)@.player.x,
                RETIRE_MARGIN as int,
            ).len(),
            old(self)@.mode == Mode::Playing && old(self)@.collides(input, elapsed as int)
                ==> final(self)@.mode == Mode::Ended,
    {
        match self.mode {
            Mode::Menu => self.main_menu(input),
            Mode::Ended => self.dead(input),
            Mode::Playing => self.play(input, elapsed),
            Mode::Paused => self.pause(input),
        }
    }

    /// One tick on the menu: draws the menu and serves `Play` and `Quit`.
    pub fn main_menu(&mut self, input: Option<Input>) -> (frame: Vec<DrawCommand>)
        ensures
            old(self)@.menu_ticked(final(self)@, frame_view(frame@), input),
            old(self)@.wf() ==> final(self)@.wf(),
    {
        let mut frame: Vec<DrawCommand> = Vec::new();
        frame.push(DrawCommand::Clear);
        frame.push(centered(5, "Welcome to Dinorun"));
        frame.push(centered(8, "(P) Play Game"));
        frame.push(centered(9, "(Q) Quit Game"));
        assert(frame_view(frame@) =~= menu_screen());
        match input {
            Some(Input::Play) => {
                self.restart();
            },
            _ => {},
        }
        push_quit_request(&mut frame, input);
        frame
    }

    /// One tick on the screen that ends a run: shows the score and serves
    /// `Play`, `Restart` and `Quit`.
    pub fn dead(&mut self, input: Option<Input>) -> (frame: Vec<DrawCommand>)
        ensures
            old(self)@.end_ticked(final(self)@, frame_view(frame@), input),
            old(self)@.wf() ==> final(self)@.wf(),
    {
        let mut frame: Vec<DrawCommand> = Vec::new();
        frame.push(DrawCommand::Clear);
        frame.push(centered(5, "You are dead"));
        frame.push(
            DrawCommand::PrintCentered {
                row: 6,
                text: labelled("You earned ", self.score as u64, " points"),
            },
        );
        frame.push(centered(8, "(P) Play Again"));
        frame.push(centered(9, "(Q) Quit Game"));
        assert(frame_view(frame@) =~= end_screen(self@.score));
        match input {
            Some(Input::Play) | Some(Input::Restart) => {
                self.restart();
            },
            _ => {},
        }
        push_quit_request(&mut frame, input);
        frame
    }

    /// One tick of a paused run. It is served by the screen that ends a run:
    /// the run can be begun anew or quit, not taken up again.
    pub fn pause(&mut self, input: Option<Input>) -> (frame: Vec<DrawCommand>)
        ensures
            old(self)@.end_ticked(final(self)@, frame_view(frame@), input),
            old(self)@.wf() ==> final(self)@.wf(),
    {
        self.dead(input)
    }
}

/// In a well-formed session every obstacle can advance within the machine
/// integers, whether the runner has stepped or not.
proof fn lemma_advance_fits(field: ObstacleField, player_x: int, runner_x: int)
    requires
        all_wf(field@),
        in_play(field@, player_x),
        PLAYER_COLUMN <= player_x <= MAX_PLAYER_X,
        player_x <= runner_x <= player_x + 1,
    ensures
        all_can_advance(field@, runner_x),
{
    assert forall|i: int| 0 <= i < field@.len() implies (#[trigger] field@[i]).can_advance(
        runner_x,
    ) by {
        assert(field@[i].wf());
        assert(field@[i] == field.obstacles@[i]@);
        assert(0 <= whole_cells(field@[i].velocity) <= field@[i].velocity);
    }
}

/// What a playing tick leaves of a well-formed field is well formed, in play
/// and not empty.
proof fn lemma_field_stays_in_play(
    field: Seq<ObstacleModel>,
    runner_x: int,
    after: Seq<ObstacleModel>,
)
    requires
        all_wf(field),
        ({
            let staying = kept(advanced(field), runner_x, RETIRE_MARGIN as int);
            if wants_spawn(staying, runner_x) {
                &&& after.len() == staying.len() + 1
                &&& after.drop_last() == staying
                &&& after.last().wf()
                &&& runner_x + SCREEN_WIDTH <= after.last().x
            } else {
                after == staying
            }
        }),
    ensures
        all_wf(after),
        in_play(after, runner_x),
        after.len() > 0,
{
    let moved = advanced(field);
    let staying = kept(moved, runner_x, RETIRE_MARGIN as int);
    law_kept_and_retired(moved, runner_x, RETIRE_MARGIN as int);
    assert forall|i: int| 0 <= i < staying.len() implies (#[trigger] staying[i]).wf()
        && runner_x - RETIRE_MARGIN < staying[i].x by {
        let obstacle = staying[i];
        assert(staying.contains(obstacle));
        assert(moved.contains(obstacle));
        let j = choose|j: int| 0 <= j < moved.len() && moved[j] == obstacle;
        assert(field[j].wf());
        assert(!obstacle.passed(runner_x, RETIRE_MARGIN as int));
    }
    if wants_spawn(staying, runner_x) {
        assert forall|i: int| 0 <= i < after.len() implies (#[trigger] after[i]).wf() && runner_x
            - RETIRE_MARGIN < after[i].x by {
            if i < staying.len() {
                assert(after[i] == after.drop_last()[i]);
            } else {
                assert(after[i] == after.last());
            }
        }
    } else {
        let i = choose|i: int| 0 <= i < staying.len() && !(#[trigger] staying[i].x - runner_x
            < SPAWN_THRESHOLD);
        assert(0 <= i < staying.len());
    }
}

/// A fresh session is well formed: its one obstacle stands on the floor, at
/// least a screen width from the origin.
pub proof fn law_fresh_is_wf(session: SessionModel, mode: Mode)
    requires
        session.fresh(mode),
    ensures
        session.wf(),
        session.field[0].velocity == 0,
        session.field[0].y == FLOOR,
        SCREEN_WIDTH <= session.field[0].x < SCREEN_WIDTH + SPAWN_SPREAD,
{
}

} // verus!
