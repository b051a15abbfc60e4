//! The player's jump: a launch, exact constant-acceleration flight, and a
//! landing that never sinks below the ground.

use vstd::prelude::*;
use crate::collision::Bounds;
use crate::units::{
    ACCELERATION,
    GROUND,
    LAUNCH_VELOCITY,
    PLAYER_HALF_WIDTH,
    PLAYER_HEIGHT,
    PLAYER_X,
};

verus! {

/// Whether the player stands or flies. `Airborne` carries the upward speed in
/// milli-pixels per second; it is negative on the way down.
#[derive(Clone, Copy, Debug, PartialEq, Eq, Structural)]
pub enum JumpState {
    Grounded,
    Airborne(i64),
}

/// What a player is, to a contract: its height in micro-pixels and its state.
pub struct PlayerView {
    pub y: int,
    pub state: JumpState,
}

/// The player. Its horizontal position and its size are fixed.
#[derive(Clone, Copy, Debug)]
pub struct Player {
    y: i64,
    state: JumpState,
}

/// The player as it stands on the ground.
pub open spec fn standing() -> PlayerView {
    PlayerView { y: -250_000_000, state: JumpState::Grounded }
}

/// A player is valid when it stands on the ground, or flies at the height
/// that its speed determines: `1600 * (y - ground) == launch² - v²`.
pub open spec fn valid(p: PlayerView) -> bool {
    match p.state {
        JumpState::Grounded => p.y == -250_000_000,
        JumpState::Airborne(v) => {
            &&& -600_000 < v <= 600_000
            &&& 1600 * (p.y + 250_000_000) == 600_000 * 600_000 - v * v
        },
    }
}

/// The box that a player fills: 50 pixels wide and 100 high, at a fixed place
/// on the left of the field.
pub open spec fn player_box(p: PlayerView) -> Bounds {
    Bounds { x: PLAYER_X, y: p.y as i64, half_width: 25_000_000, height: 100_000_000 }
}

/// A jump input: a standing player takes off at the launch speed, a flying one
/// ignores it.
pub open spec fn jump_spec(p: PlayerView) -> PlayerView {
    match p.state {
        JumpState::Grounded => PlayerView { y: p.y, state: JumpState::Airborne(600_000) },
        JumpState::Airborne(_) => p,
    }
}

/// One frame of `dt` milliseconds. In flight the height changes by
/// `v·dt − ½·a·dt²` and the speed by `−a·dt`. Whoever is then at or below the
/// ground stands on it.
pub open spec fn tick_spec(p: PlayerView, dt: nat) -> PlayerView {
    let moved = match p.state {
        JumpState::Grounded => p,
        JumpState::Airborne(v) => PlayerView {
            y: p.y + v * dt - 400 * dt * dt,
            state: JumpState::Airborne((v - 800 * dt) as i64),
        },
    };
    if moved.y <= -250_000_000 {
        standing()
    } else {
        moved
    }
}

/// The player after the frames `dts`, in their order, with no jump input.
pub open spec fn after_ticks(p: PlayerView, dts: Seq<nat>) -> PlayerView
    decreases dts.len(),
{
    if dts.len() == 0 {
        p
    } else {
        after_ticks(tick_spec(p, dts[0]), dts.drop_first())
    }
}

/// The total duration of the frames `dts`.
pub open spec fn total(dts: Seq<nat>) -> nat
    decreases dts.len(),
{
    if dts.len() == 0 {
        0
    } else {
        dts[0] + total(dts.drop_first())
    }
}

impl View for Player {
    type V = PlayerView;

    closed spec fn view(&self) -> PlayerView {
        PlayerView { y: self.y as int, state: self.state }
    }
}

impl Player {
    /// A player on the ground.
    pub fn new() -> (player: Player)
        ensures
            player@ == standing(),
            valid(player@),
    {
        Player { y: GROUND, state: JumpState::Grounded }
    }

    /// The height of the player's feet.
    pub fn y(&self) -> (y: i64)
        ensures
            y == self@.y,
    {
        self.y
    }

    /// Whether the player stands or flies, and how fast.
    pub fn state(&self) -> (state: JumpState)
        ensures
            state == self@.state,
    {
        self.state
    }

    /// The box that the player fills.
    pub fn bounds(&self) -> (b: Bounds)
        ensures
            b == player_box(self@),
    {
        Bounds { x: PLAYER_X, y: self.y, half_width: PLAYER_HALF_WIDTH, height: PLAYER_HEIGHT }
    }

    /// Takes a jump input.
    pub fn jump(&mut self)
        requires
            valid(old(self)@),
        ensures
            final(self)@ == jump_spec(old(self)@),
            valid(final(self)@),
    {
        match self.state {
            JumpState::Grounded => {
                self.state = JumpState::Airborne(LAUNCH_VELOCITY);
            },
            JumpState::Airborne(_) => {},
        }
    }

    /// Moves the player through one frame of `dt` milliseconds.
    pub fn tick(&mut self, dt: u32)
        requires
            valid(old(self)@),
        ensures
            final(self)@ == tick_spec(old(self)@, dt as nat),
            valid(final(self)@),
    {
        proof {
            lemma_tick_valid(self@, dt as nat);
        }
        match self.state {
            JumpState::Grounded => {},
            JumpState::Airborne(v) => {
                let d: i128 = dt as i128;
                assert(-600_000 * 0x1_0000_0000 <= (v as int) * (d as int) <= 600_000
                    * 0x1_0000_0000) by (nonlinear_arith)
                    requires
                        0 <= d < 0x1_0000_0000,
                        -600_000 < v <= 600_000,
                ;
                let rise: i128 = (v as i128) * d;
                assert(0 <= (d as int) * (d as int) <= 0x1_0000_0000 * 0x1_0000_0000)
                    by (nonlinear_arith)
                    requires
                        0 <= d < 0x1_0000_0000,
                ;
                let dd: i128 = d * d;
                let fall: i128 = (ACCELERATION as i128 / 2) * dd;
                let y: i128 = (self.y as i128) + rise - fall;
                assert(y == self@.y + v * (dt as nat) - 400 * (dt as nat) * (dt as nat))
                    by (nonlinear_arith)
                    requires
                        y == self@.y + rise - fall,
                        rise == (v as int) * (d as int),
                        fall == 400 * dd,
                        dd == (d as int) * (d as int),
                        d == dt as nat,
                ;
                if y <= GROUND as i128 {
                    self.y = GROUND;
                    self.state = JumpState::Grounded;
                } else {
                    let speed: i128 = (v as i128) - (ACCELERATION as i128) * d;
                    self.y = y as i64;
                    self.state = JumpState::Airborne(speed as i64);
                }
            },
        }
    }
}

/// A frame keeps a valid player valid, and a flying player's speed stays
/// strictly between the landing speed and the launch speed.
pub proof fn lemma_tick_valid(p: PlayerView, dt: nat)
    requires
        valid(p),
    ensures
        valid(tick_spec(p, dt)),
        match p.state {
            JumpState::Grounded => true,
            JumpState::Airborne(v) => p.y + v * dt - 400 * dt * dt > -250_000_000 ==> {
                &&& -600_000 < v - 800 * dt <= 600_000
                &&& p.y + v * dt - 400 * dt * dt <= -250_000_000 + 225_000_000
            },
        },
{
    match p.state {
        JumpState::Grounded => {},
        JumpState::Airborne(v) => {
            let y2 = p.y + v * dt - 400 * dt * dt;
            let v2 = v - 800 * dt;
            assert(1600 * (y2 + 250_000_000) == 600_000 * 600_000 - v2 * v2) by (nonlinear_arith)
                requires
                    1600 * (p.y + 250_000_000) == 600_000 * 600_000 - v * v,
                    y2 == p.y + v * dt - 400 * dt * dt,
                    v2 == v - 800 * dt,
            ;
            if y2 > -250_000_000 {
                assert(-600_000 < v2 && v2 * v2 >= 0) by (nonlinear_arith)
                    requires
                        v2 * v2 < 600_000 * 600_000,
                        v2 <= 600_000,
                ;
            }
        },
    }
}

/// A valid player is never below the ground nor above the apex of a jump.
pub proof fn lemma_height_bounded(p: PlayerView)
    requires
        valid(p),
    ensures
        -250_000_000 <= p.y <= -250_000_000 + 225_000_000,
        p.y == -250_000_000 <==> (p.state == JumpState::Grounded || p.state
            == JumpState::Airborne(600_000)),
{
    match p.state {
        JumpState::Grounded => {},
        JumpState::Airborne(v) => {
            assert(0 <= v * v < 600_000 * 600_000 || v == 600_000) by (nonlinear_arith)
                requires
                    -600_000 < v <= 600_000,
            ;
        },
    }
}

/// Without a jump input a standing player stays where it is.
pub proof fn lemma_standing_rests(dts: Seq<nat>)
    ensures
        after_ticks(standing(), dts) == standing(),
    decreases dts.len(),
{
    if dts.len() > 0 {
        lemma_standing_rests(dts.drop_first());
    }
}

/// A flying player with upward speed `v` stands on the ground again once the
/// frames since then add up to `(v + launch) / a` seconds, however they are cut.
pub proof fn lemma_flight_ends(p: PlayerView, dts: Seq<nat>)
    requires
        valid(p),
        match p.state {
            JumpState::Grounded => true,
            JumpState::Airborne(v) => 800 * total(dts) >= v + 600_000,
        },
    ensures
        after_ticks(p, dts) == standing(),
    decreases dts.len(),
{
    match p.state {
        JumpState::Grounded => {
            lemma_standing_rests(dts);
        },
        JumpState::Airborne(v) => {
            if dts.len() > 0 {
                let d = dts[0];
                let next = tick_spec(p, d);
                lemma_tick_valid(p, d);
                lemma_flight_ends(next, dts.drop_first());
            }
        },
    }
}

/// Every jump ends: from the ground, a jump input followed by frames that
/// last `FLIGHT_MS` or more in total leaves the player standing exactly on
/// the ground, whatever the length of each frame.
pub proof fn lemma_jump_lands(dts: Seq<nat>)
    requires
        total(dts) >= 1500,
    ensures
        jump_spec(standing()).state == JumpState::Airborne(600_000),
        after_ticks(jump_spec(standing()), dts) == standing(),
{
    lemma_flight_ends(jump_spec(standing()), dts);
}

/// A first frame shorter than `FLIGHT_MS` leaves a jump in the air, at the
/// height `launch·dt − ½·a·dt²` above the ground.
pub proof fn lemma_jump_flies(dt: nat)
    requires
        0 < dt < 1500,
    ensures
        tick_spec(jump_spec(standing()), dt).state == JumpState::Airborne(
            (600_000 - 800 * dt) as i64,
        ),
        tick_spec(jump_spec(standing()), dt).y == -250_000_000 + 400 * dt * (1500 - dt),
        tick_spec(jump_spec(standing()), dt).y > -250_000_000,
{
    assert(600_000 * dt - 400 * dt * dt == 400 * dt * (1500 - dt) && 400 * dt * (1500 - dt) > 0)
        by (nonlinear_arith)
        requires
            0 < dt < 1500,
    ;
}

} // verus!
