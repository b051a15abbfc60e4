//! The whole simulation: the menu, a run with its player, obstacles and
//! scoreboard, and the frame that drives them.
//!
//! A frame ticks the clock and the scoreboard, moves the player, steps the
//! obstacles in their order, and then looks for a collision. A collision ends
//! the run: the clock returns to zero, everything that the run created is
//! removed and the menu is shown again. A jump input counts at the end of a
//! frame that the player has survived.

use vstd::prelude::*;
use crate::collision::{overlap, overlaps, Bounds};
use crate::jump::{
    jump_spec,
    lemma_height_bounded,
    player_box,
    standing,
    tick_spec,
    Player,
    PlayerView,
};
use crate::menu::{
    button_color,
    color_of,
    next_state,
    state_after,
    ButtonColor,
    GameState,
    Interaction,
};
use crate::obstacle::{
    all_valid,
    delays,
    drawn_for,
    gate_before,
    obstacle_box,
    step_all,
    stepped,
    views,
    Obstacle,
    ObstacleView,
};
use crate::score::{padded, padded_text, score_of, score_text};
use crate::units::{PIXEL, WINDOW_RIGHT};

verus! {

/// What a game is, to a contract.
pub struct GameView {
    pub state: GameState,
    /// Milliseconds survived in the current run.
    pub elapsed_ms: nat,
    /// The spawn gate: whether a waiting obstacle may start.
    pub gate: bool,
    pub player: Option<PlayerView>,
    pub obstacles: Seq<ObstacleView>,
    /// The text of the scoreboard.
    pub scoreboard: Option<Seq<char>>,
    /// The colour of the start button.
    pub button: Option<ButtonColor>,
}

/// The simulation state.
pub struct Game {
    state: GameState,
    elapsed_ms: u64,
    gate: bool,
    player: Option<Player>,
    obstacles: Vec<Obstacle>,
    scoreboard: Option<String>,
    button: Option<ButtonColor>,
}

/// The wide, low obstacle of a run: 100 by 50 pixels, first started after
/// half a second, then after 0.5 to 3 seconds.
pub open spec fn low_obstacle() -> ObstacleView {
    ObstacleView {
        x: 690_000_000,
        half_width: 50_000_000,
        height: 50_000_000,
        moving: false,
        velocity: 300_000,
        delay_left: 500,
        delay_start: 500,
        delay_end: 3000,
    }
}

/// The narrow, tall obstacle of a run: 50 by 75 pixels, first started after
/// three seconds, then after 2 to 6 seconds.
pub open spec fn tall_obstacle() -> ObstacleView {
    ObstacleView {
        x: 665_000_000,
        half_width: 25_000_000,
        height: 75_000_000,
        moving: false,
        velocity: 300_000,
        delay_left: 3000,
        delay_start: 2000,
        delay_end: 6000,
    }
}

/// The menu: the clock at zero, nothing of a run, and an idle start button.
pub open spec fn menu_view(gate: bool) -> GameView {
    GameView {
        state: GameState::Menu,
        elapsed_ms: 0,
        gate,
        player: None,
        obstacles: Seq::empty(),
        scoreboard: None,
        button: Some(ButtonColor::Black),
    }
}

/// A run at its start: the spawn gate open, one standing player, the two obstacles
/// waiting beyond the right edge, and a scoreboard that shows zero.
pub open spec fn started() -> GameView {
    GameView {
        state: GameState::InGame,
        elapsed_ms: 0,
        gate: true,
        player: Some(standing()),
        obstacles: seq![low_obstacle(), tall_obstacle()],
        scoreboard: Some(padded(0)),
        button: None,
    }
}

/// A game is valid when it holds what its state calls for: in the menu a
/// button, the clock at zero and nothing of a run; in a run a valid player, valid obstacles and
/// a scoreboard that shows the score for the time survived.
pub open spec fn valid(g: GameView) -> bool {
    match g.state {
        GameState::Menu => g.button.is_some() && g == (GameView {
            button: g.button,
            ..menu_view(g.gate)
        }),
        GameState::InGame => {
            &&& g.player matches Some(p) && crate::jump::valid(p)
            &&& all_valid(g.obstacles)
            &&& g.scoreboard == Some(padded(score_of(g.elapsed_ms)))
            &&& g.button.is_none()
            &&& g.elapsed_ms <= u64::MAX
        },
    }
}

/// The game after an interaction with the start button. In the menu the
/// button takes the colour of the interaction, and a press starts a run.
/// During a run there is no button and nothing happens.
pub open spec fn interact_spec(g: GameView, interaction: Interaction) -> GameView {
    if g.state == GameState::InGame {
        g
    } else if state_after(g.state, interaction) == GameState::InGame {
        started()
    } else {
        GameView { button: Some(color_of(interaction)), ..g }
    }
}

/// The clock after a frame of `dt` milliseconds; it stops at the largest
/// value it can hold.
pub open spec fn clock_after(elapsed_ms: nat, dt: nat) -> nat {
    if elapsed_ms + dt >= u64::MAX {
        u64::MAX as nat
    } else {
        elapsed_ms + dt
    }
}

/// The moving part of a frame of `dt` milliseconds during a run: the clock
/// and the scoreboard go on, the player moves, and the obstacles make their
/// steps at the new time, with their delays from `draws`. The menu stands
/// still.
pub open spec fn advance_spec(g: GameView, dt: nat, draws: Seq<nat>) -> GameView {
    match (g.state, g.player) {
        (GameState::InGame, Some(p)) => {
            let now = clock_after(g.elapsed_ms, dt);
            GameView {
                elapsed_ms: now,
                gate: gate_before(g.obstacles, g.gate, dt, now, g.obstacles.len()),
                player: Some(tick_spec(p, dt)),
                obstacles: stepped(g.obstacles, g.gate, dt, now, draws),
                scoreboard: Some(padded(score_of(now))),
                ..g
            }
        },
        _ => g,
    }
}

/// The player's box overlaps that of an obstacle.
pub open spec fn collides(g: GameView) -> bool {
    g.player matches Some(p) && exists|i: int|
        0 <= i < g.obstacles.len() && overlap(player_box(p), obstacle_box(#[trigger] g.obstacles[i]))
}

/// The game after the look for a collision: a run in which the player
/// overlaps an obstacle ends in the menu, and nothing else changes.
pub open spec fn resolve_spec(g: GameView) -> GameView {
    if g.state == GameState::InGame && collides(g) {
        menu_view(g.gate)
    } else {
        g
    }
}

/// The game after a jump input, which only the player of a run takes.
pub open spec fn jump_input_spec(g: GameView, pressed: bool) -> GameView {
    match (g.state, g.player) {
        (GameState::InGame, Some(p)) => if pressed {
            GameView { player: Some(jump_spec(p)), ..g }
        } else {
            g
        },
        _ => g,
    }
}

/// A whole frame: the moving part, the look for a collision, and then the
/// jump input.
pub open spec fn frame_spec(g: GameView, dt: nat, jump_pressed: bool, draws: Seq<nat>) -> GameView {
    jump_input_spec(resolve_spec(advance_spec(g, dt, draws)), jump_pressed)
}

/// Whether the player's box overlaps the box of one of the obstacles.
pub fn hits_any(player: &Player, row: &Vec<Obstacle>) -> (hit: bool)
    ensures
        hit == exists|i: int|
            0 <= i < row@.len() && overlap(
                player_box(player@),
                obstacle_box(#[trigger] views(row@)[i]),
            ),
{
    let own: Bounds = player.bounds();
    let mut i: usize = 0;
    while i < row.len()
        invariant
            i <= row@.len(),
            own == player_box(player@),
            forall|j: int| 0 <= j < i ==> !overlap(own, obstacle_box(#[trigger] views(row@)[j])),
        decreases row@.len() - i,
    {
        let other: Bounds = row[i].bounds();
        assert(views(row@)[i as int] == row@[i as int]@);
        if overlaps(&own, &other) {
            return true;
        }
        i += 1;
    }
    false
}

impl View for Game {
    type V = GameView;

    closed spec fn view(&self) -> GameView {
        GameView {
            state: self.state,
            elapsed_ms: self.elapsed_ms as nat,
            gate: self.gate,
            player: match self.player {
                Some(p) => Some(p@),
                None => None,
            },
            obstacles: views(self.obstacles@),
            scoreboard: match self.scoreboard {
                Some(text) => Some(text@),
                None => None,
            },
            button: self.button,
        }
    }
}

impl Game {
    /// A game that shows the menu, with the spawn gate open.
    pub fn new() -> (game: Game)
        ensures
            game@ == menu_view(true),
            valid(game@),
    {
        let game = Game {
            state: GameState::Menu,
            elapsed_ms: 0,
            gate: true,
            player: None,
            obstacles: Vec::new(),
            scoreboard: None,
            button: Some(ButtonColor::Black),
        };
        assert(game@.obstacles =~= Seq::empty());
        game
    }

    /// Whether the menu is shown or a run is on.
    pub fn state(&self) -> (state: GameState)
        ensures
            state == self@.state,
    {
        self.state
    }

    /// Milliseconds survived in the current run.
    pub fn elapsed_ms(&self) -> (elapsed: u64)
        ensures
            elapsed == self@.elapsed_ms,
    {
        self.elapsed_ms
    }

    /// Whether the spawn gate is open.
    pub fn gate_open(&self) -> (open: bool)
        ensures
            open == self@.gate,
    {
        self.gate
    }

    /// The player of the run, if one is on.
    pub fn player(&self) -> (player: Option<Player>)
        ensures
            player.is_some() == self@.player.is_some(),
            player matches Some(p) ==> self@.player == Some(p@),
    {
        self.player
    }

    /// The number of obstacles.
    pub fn obstacle_count(&self) -> (count: usize)
        ensures
            count == self@.obstacles.len(),
    {
        self.obstacles.len()
    }

    /// The obstacle at `index`, if there is one.
    pub fn obstacle(&self, index: usize) -> (found: Option<Obstacle>)
        ensures
            found.is_some() <==> index < self@.obstacles.len(),
            found matches Some(o) ==> o@ == self@.obstacles[index as int],
    {
        if index < self.obstacles.len() {
            Some(self.obstacles[index])
        } else {
            None
        }
    }

    /// The text of the scoreboard, if a run is on.
    pub fn scoreboard(&self) -> (text: Option<String>)
        ensures
            text.is_some() == self@.scoreboard.is_some(),
            text matches Some(t) ==> self@.scoreboard == Some(t@),
    {
        match &self.scoreboard {
            Some(text) => Some(text.clone()),
            None => None,
        }
    }

    /// The colour of the start button, if the menu is shown.
    pub fn button(&self) -> (color: Option<ButtonColor>)
        ensures
            color == self@.button,
    {
        self.button
    }

    /// Takes an interaction with the start button.
    pub fn interact(&mut self, interaction: Interaction)
        requires
            valid(old(self)@),
        ensures
            final(self)@ == interact_spec(old(self)@, interaction),
            valid(final(self)@),
    {
        match (self.state, next_state(self.state, interaction)) {
            (GameState::InGame, _) => {},
            (GameState::Menu, GameState::InGame) => {
                self.start();
            },
            (GameState::Menu, GameState::Menu) => {
                self.button = Some(button_color(interaction));
            },
        }
    }

    /// Starts a run: whatever was there is replaced by a new player, the two
    /// obstacles and the scoreboard, the clock is at zero and the spawn gate open.
    fn start(&mut self)
        ensures
            final(self)@ == started(),
            valid(final(self)@),
    {
        let mut row: Vec<Obstacle> = Vec::new();
        let low = Obstacle::new(WINDOW_RIGHT + 50 * PIXEL, 50_000_000, 50_000_000, 500, 500, 3000);
        let tall = Obstacle::new(
            WINDOW_RIGHT + 25 * PIXEL,
            25_000_000,
            75_000_000,
            3000,
            2000,
            6000,
        );
        match (low, tall) {
            (Some(a), Some(b)) => {
                row.push(a);
                row.push(b);
            },
            _ => {},
        }
        self.state = GameState::InGame;
        self.elapsed_ms = 0;
        self.gate = true;
        self.player = Some(Player::new());
        self.obstacles = row;
        self.scoreboard = Some(padded_text(0));
        self.button = None;
        assert(self@.obstacles =~= seq![low_obstacle(), tall_obstacle()]);
    }

    /// The moving part of a frame of `dt` milliseconds. The delays of the
    /// obstacles that the frame set back are drawn at random, each from its
    /// obstacle's range, and are then found in the obstacles.
    pub fn advance(&mut self, dt: u32)
        requires
            valid(old(self)@),
        ensures
            final(self)@ == advance_spec(old(self)@, dt as nat, delays(final(self)@.obstacles)),
            drawn_for(delays(final(self)@.obstacles), old(self)@.obstacles),
            valid(final(self)@),
    {
        match (self.state, self.player) {
            (GameState::InGame, Some(mut p)) => {
                let now: u64 = if self.elapsed_ms >= u64::MAX - dt as u64 {
                    u64::MAX
                } else {
                    self.elapsed_ms + dt as u64
                };
                self.elapsed_ms = now;
                self.scoreboard = Some(score_text(now));
                p.tick(dt);
                self.player = Some(p);
                let mut gate: bool = self.gate;
                step_all(&mut self.obstacles, &mut gate, dt, now);
                self.gate = gate;
            },
            _ => {
                assert(self@.obstacles =~= Seq::<ObstacleView>::empty());
                assert(delays(self@.obstacles) =~= Seq::<nat>::empty());
            },
        }
    }

    /// Looks for a collision and, if there is one, ends the run. Says whether
    /// there was one.
    pub fn resolve(&mut self) -> (collided: bool)
        requires
            valid(old(self)@),
        ensures
            collided == (old(self)@.state == GameState::InGame && collides(old(self)@)),
            final(self)@ == resolve_spec(old(self)@),
            valid(final(self)@),
    {
        match (self.state, self.player) {
            (GameState::InGame, Some(p)) => {
                if hits_any(&p, &self.obstacles) {
                    self.state = GameState::Menu;
                    self.elapsed_ms = 0;
                    self.player = None;
                    self.obstacles = Vec::new();
                    self.scoreboard = None;
                    self.button = Some(ButtonColor::Black);
                    assert(self@.obstacles =~= Seq::empty());
                    true
                } else {
                    false
                }
            },
            _ => false,
        }
    }

    /// Takes a jump input if `pressed`.
    pub fn press_jump(&mut self, pressed: bool)
        requires
            valid(old(self)@),
        ensures
            final(self)@ == jump_input_spec(old(self)@, pressed),
            valid(final(self)@),
    {
        match (self.state, self.player) {
            (GameState::InGame, Some(mut p)) => {
                if pressed {
                    p.jump();
                    self.player = Some(p);
                }
            },
            _ => {},
        }
    }

    /// One frame of `dt` milliseconds with its jump input. Says whether the
    /// frame ended the run. The delays of the obstacles that the frame set
    /// back are drawn at random, each from its obstacle's range.
    pub fn frame(&mut self, dt: u32, jump_pressed: bool) -> (collided: bool)
        requires
            valid(old(self)@),
        ensures
            exists|draws: Seq<nat>| #[trigger]
                drawn_for(draws, old(self)@.obstacles) && final(self)@ == frame_spec(
                    old(self)@,
                    dt as nat,
                    jump_pressed,
                    draws,
                ) && collided == (old(self)@.state == GameState::InGame && collides(
                    advance_spec(old(self)@, dt as nat, draws),
                )),
            collided ==> final(self)@ == menu_view(final(self)@.gate),
            valid(final(self)@),
    {
        self.advance(dt);
        let ghost draws = delays(self@.obstacles);
        let collided: bool = self.resolve();
        self.press_jump(jump_pressed);
        assert(drawn_for(draws, old(self)@.obstacles));
        collided
    }
}

/// A run from its start to its end. A press in the menu starts a run that
/// holds exactly one player, two obstacles and one scoreboard, and no button.
/// When the player of a run overlaps an obstacle, the look for a collision
/// leaves the menu: the clock at zero and no player, obstacle or scoreboard.
pub proof fn lemma_run_starts_and_ends(menu: GameView, run: GameView)
    requires
        valid(menu),
        menu.state == GameState::Menu,
        valid(run),
        run.state == GameState::InGame,
        collides(run),
    ensures
        interact_spec(menu, Interaction::Pressed) == started(),
        valid(started()),
        started().state == GameState::InGame,
        started().player == Some(standing()),
        started().obstacles.len() == 2,
        started().scoreboard == Some(padded(0)),
        started().button.is_none(),
        resolve_spec(run).state == GameState::Menu,
        resolve_spec(run).elapsed_ms == 0,
        resolve_spec(run).player.is_none(),
        resolve_spec(run).obstacles.len() == 0,
        resolve_spec(run).scoreboard.is_none(),
        resolve_spec(run).button == Some(ButtonColor::Black),
        valid(resolve_spec(run)),
{
}

/// A frame never leaves a run without a collision, and a run that goes on
/// keeps its obstacles, counts its time and shows the score for it.
pub proof fn lemma_frame_keeps_run(g: GameView, dt: nat, jump_pressed: bool, draws: Seq<nat>)
    requires
        valid(g),
        g.state == GameState::InGame,
        draws.len() == g.obstacles.len(),
    ensures
        ({
            let moved = advance_spec(g, dt, draws);
            let after = frame_spec(g, dt, jump_pressed, draws);
            &&& after.state == GameState::Menu <==> collides(moved)
            &&& after.state == GameState::InGame ==> {
                &&& after.elapsed_ms == clock_after(g.elapsed_ms, dt)
                &&& after.elapsed_ms >= g.elapsed_ms
                &&& after.obstacles.len() == g.obstacles.len()
                &&& after.scoreboard == Some(padded(score_of(after.elapsed_ms)))
                &&& after.player.is_some()
            }
            &&& after.state == GameState::Menu ==> after.elapsed_ms == 0
        }),
{
}

/// Throughout a run the player is on the ground or above it, and never
/// higher than the apex of a jump.
pub proof fn lemma_player_stays_in_reach(g: GameView)
    requires
        valid(g),
        g.state == GameState::InGame,
    ensures
        g.player matches Some(p) && -250_000_000 <= p.y <= -250_000_000 + 225_000_000,
{
    lemma_height_bounded(g.player.unwrap());
}

} // verus!
