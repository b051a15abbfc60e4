//! Obstacles: they cross the field from right to left, are set back beyond the
//! right edge when they have left it, wait for a delay drawn at random, and
//! start again at a speed that grows with the length of the run.
//!
//! One flag paces them, the spawn gate: an obstacle that moves in the left
//! half of the field opens it, one that moves in the right half closes it, and
//! a waiting obstacle starts only while it is open, closing it as it starts.

use vstd::prelude::*;
use rand::Rng;
use crate::collision::Bounds;
use crate::units::{
    BASE_VELOCITY,
    GROUND,
    LEVEL_MAX,
    SCALE_INTERVAL_MS,
    VELOCITY_CAP,
    WINDOW_LEFT,
    WINDOW_RIGHT,
};

verus! {

/// What an obstacle is, to a contract.
pub struct ObstacleView {
    /// Centre of the bottom edge, in micro-pixels.
    pub x: int,
    pub half_width: nat,
    pub height: nat,
    /// Whether it crosses the field or waits beyond the right edge.
    pub moving: bool,
    /// Speed to the left while moving, in milli-pixels per second.
    pub velocity: nat,
    /// Milliseconds that it still has to wait.
    pub delay_left: nat,
    /// A new delay is drawn from `delay_start` up to, not including, `delay_end`.
    pub delay_start: nat,
    pub delay_end: nat,
}

/// An obstacle.
#[derive(Clone, Copy, Debug)]
pub struct Obstacle {
    x: i64,
    half_width: u32,
    height: u32,
    moving: bool,
    velocity: u32,
    delay_left: u64,
    delay_start: u64,
    delay_end: u64,
}

/// An obstacle is valid when its delay range is not empty and its speed lies
/// between the base speed and the cap.
pub open spec fn valid(o: ObstacleView) -> bool {
    &&& o.delay_start < o.delay_end
    &&& 300_000 <= o.velocity <= 1_000_000_000
}

/// The box that an obstacle fills; it stands on the ground.
pub open spec fn obstacle_box(o: ObstacleView) -> Bounds {
    Bounds {
        x: o.x as i64,
        y: GROUND,
        half_width: o.half_width as u32,
        height: o.height as u32,
    }
}

/// The speed level after `elapsed_ms` milliseconds of survival: one level per
/// full interval, held at `LEVEL_MAX`.
pub open spec fn level_of(elapsed_ms: nat) -> nat {
    if elapsed_ms / 900 >= 65535 {
        65535
    } else {
        elapsed_ms / 900
    }
}

/// The base speed raised by one hundredth `level` times, each product rounded
/// down to a whole milli-pixel per second: the base speed times 1.01 to the
/// power `level`, in this crate's integers.
pub open spec fn ramp(level: nat) -> nat
    decreases level,
{
    if level == 0 {
        300_000
    } else {
        ramp((level - 1) as nat) * 101 / 100
    }
}

/// The speed at `level`: the ramp, held at the cap.
pub open spec fn velocity_at(level: nat) -> nat {
    if ramp(level) >= 1_000_000_000 {
        1_000_000_000
    } else {
        ramp(level)
    }
}

/// The obstacle moves and is wholly beyond the left edge.
pub open spec fn leaving(o: ObstacleView) -> bool {
    o.moving && o.x < -640_000_000 - o.half_width
}

/// The obstacle waits and its delay ends within `dt` milliseconds.
pub open spec fn due(o: ObstacleView, dt: nat) -> bool {
    !o.moving && o.delay_left <= dt
}

/// The spawn gate after a moving obstacle at `x` has been seen.
pub open spec fn gate_after(gate: bool, x: int) -> bool {
    if x < 0 {
        true
    } else if x < 640_000_000 {
        false
    } else {
        gate
    }
}

/// One frame of `dt` milliseconds for one obstacle, `elapsed_ms` into the
/// run, with the spawn gate as the obstacles before it have left it. `drawn` is the
/// delay that the obstacle gets if this frame sets it back.
///
/// A leaving obstacle is set back to just beyond the right edge and waits
/// for `drawn`. Any other moving obstacle sets the spawn gate by its place and
/// goes left by `velocity · dt`. A waiting one counts its delay down; when
/// the delay is over and the spawn gate is open, it starts at the speed of the
/// current level and closes the spawn gate.
pub open spec fn step_spec(o: ObstacleView, gate: bool, dt: nat, elapsed_ms: nat, drawn: nat) -> (
    ObstacleView,
    bool,
) {
    if leaving(o) {
        (
            ObstacleView {
                x: 640_000_000 + o.half_width as int,
                moving: false,
                delay_left: drawn,
                ..o
            },
            gate,
        )
    } else if o.moving {
        (ObstacleView { x: o.x - o.velocity * dt, ..o }, gate_after(gate, o.x))
    } else if due(o, dt) && gate {
        (
            ObstacleView {
                moving: true,
                velocity: velocity_at(level_of(elapsed_ms)),
                delay_left: 0,
                ..o
            },
            false,
        )
    } else {
        (
            ObstacleView {
                delay_left: if due(o, dt) {
                    0
                } else {
                    (o.delay_left - dt) as nat
                },
                ..o
            },
            gate,
        )
    }
}

/// Draws a delay with `rand::Rng::gen_range` on the thread's generator
/// (`rand::thread_rng`), over the half-open range from `low` to `high`. For
/// an integer range that is not empty the call returns a member of the range;
/// which one is left open. It panics on an empty range, which `requires`
/// excludes.
#[verifier::external_body]
fn draw_between(low: u64, high: u64) -> (drawn: u64)
    requires
        low < high,
    ensures
        low <= drawn < high,
{
    rand::thread_rng().gen_range(low..high)
}

/// The speed level after `elapsed_ms` milliseconds of survival.
pub fn speed_level(elapsed_ms: u64) -> (level: u16)
    ensures
        level as nat == level_of(elapsed_ms as nat),
{
    let intervals: u64 = elapsed_ms / SCALE_INTERVAL_MS;
    if intervals >= 65535 {
        LEVEL_MAX
    } else {
        intervals as u16
    }
}

/// The ramp never falls.
pub proof fn lemma_ramp_monotone(low: nat, high: nat)
    requires
        low <= high,
    ensures
        ramp(low) <= ramp(high),
    decreases high,
{
    if low < high {
        lemma_ramp_monotone(low, (high - 1) as nat);
    }
}

/// The speed of an obstacle that starts at `level`.
pub fn scaled_velocity(level: u16) -> (velocity: u32)
    ensures
        velocity as nat == velocity_at(level as nat),
        BASE_VELOCITY <= velocity <= VELOCITY_CAP,
{
    let mut v: u64 = BASE_VELOCITY as u64;
    let mut i: u16 = 0;
    while i < level && v < VELOCITY_CAP as u64
        invariant
            i <= level,
            v as nat == ramp(i as nat),
            300_000 <= v <= 1_010_000_000,
        decreases level - i,
    {
        v = v * 101 / 100;
        i += 1;
    }
    proof {
        lemma_ramp_monotone(i as nat, level as nat);
    }
    if v >= VELOCITY_CAP as u64 {
        VELOCITY_CAP
    } else {
        v as u32
    }
}

impl View for Obstacle {
    type V = ObstacleView;

    closed spec fn view(&self) -> ObstacleView {
        ObstacleView {
            x: self.x as int,
            half_width: self.half_width as nat,
            height: self.height as nat,
            moving: self.moving,
            velocity: self.velocity as nat,
            delay_left: self.delay_left as nat,
            delay_start: self.delay_start as nat,
            delay_end: self.delay_end as nat,
        }
    }
}

impl Obstacle {
    /// An obstacle that waits at `x` for `first_delay` milliseconds and, each
    /// time it has crossed the field, for a delay drawn from `delay_start` up
    /// to `delay_end`. There is none for an empty range.
    pub fn new(
        x: i64,
        half_width: u32,
        height: u32,
        first_delay: u64,
        delay_start: u64,
        delay_end: u64,
    ) -> (made: Option<Obstacle>)
        ensures
            made.is_some() <==> delay_start < delay_end,
            made matches Some(o) ==> valid(o@) && o@ == (ObstacleView {
                x: x as int,
                half_width: half_width as nat,
                height: height as nat,
                moving: false,
                velocity: 300_000,
                delay_left: first_delay as nat,
                delay_start: delay_start as nat,
                delay_end: delay_end as nat,
            }),
    {
        if delay_start < delay_end {
            Some(
                Obstacle {
                    x,
                    half_width,
                    height,
                    moving: false,
                    velocity: BASE_VELOCITY,
                    delay_left: first_delay,
                    delay_start,
                    delay_end,
                },
            )
        } else {
            None
        }
    }

    /// Centre of the bottom edge.
    pub fn x(&self) -> (x: i64)
        ensures
            x == self@.x,
    {
        self.x
    }

    /// Whether the obstacle crosses the field.
    pub fn moving(&self) -> (moving: bool)
        ensures
            moving == self@.moving,
    {
        self.moving
    }

    /// Speed to the left while moving.
    pub fn velocity(&self) -> (velocity: u32)
        ensures
            velocity == self@.velocity,
    {
        self.velocity
    }

    /// Milliseconds that the obstacle still has to wait.
    pub fn delay_left(&self) -> (left: u64)
        ensures
            left == self@.delay_left,
    {
        self.delay_left
    }

    /// The box that the obstacle fills.
    pub fn bounds(&self) -> (b: Bounds)
        ensures
            b == obstacle_box(self@),
    {
        Bounds { x: self.x, y: GROUND, half_width: self.half_width, height: self.height }
    }

    /// Whether the obstacle moves and is wholly beyond the left edge.
    pub fn is_leaving(&self) -> (gone: bool)
        ensures
            gone == leaving(self@),
    {
        self.moving && self.x < WINDOW_LEFT - self.half_width as i64
    }

    /// One frame, with the delay `drawn` for the case that the frame sets the
    /// obstacle back.
    pub fn step_with(&mut self, gate: &mut bool, dt: u32, elapsed_ms: u64, drawn: u64)
        requires
            valid(old(self)@),
        ensures
            (final(self)@, *final(gate)) == step_spec(
                old(self)@,
                *old(gate),
                dt as nat,
                elapsed_ms as nat,
                drawn as nat,
            ),
            valid(final(self)@),
    {
        if self.is_leaving() {
            self.x = WINDOW_RIGHT + self.half_width as i64;
            self.moving = false;
            self.delay_left = drawn;
        } else if self.moving {
            if self.x < 0 {
                *gate = true;
            } else if self.x < WINDOW_RIGHT {
                *gate = false;
            }
            assert(0 <= (self.velocity as int) * (dt as int) <= 1_000_000_000 * 0x1_0000_0000)
                by (nonlinear_arith)
                requires
                    0 <= self.velocity <= 1_000_000_000,
                    0 <= dt < 0x1_0000_0000,
            ;
            let way: i128 = (self.velocity as i128) * (dt as i128);
            self.x = (self.x as i128 - way) as i64;
        } else {
            let over: bool = self.delay_left <= dt as u64;
            if over && *gate {
                self.moving = true;
                self.velocity = scaled_velocity(speed_level(elapsed_ms));
                self.delay_left = 0;
                *gate = false;
            } else if over {
                self.delay_left = 0;
            } else {
                self.delay_left = self.delay_left - dt as u64;
            }
        }
    }

    /// One frame of `dt` milliseconds, `elapsed_ms` into the run. Where the
    /// frame sets the obstacle back, its new delay is drawn at random from
    /// its range and is then found in `delay_left`.
    pub fn step(&mut self, gate: &mut bool, dt: u32, elapsed_ms: u64)
        requires
            valid(old(self)@),
        ensures
            (final(self)@, *final(gate)) == step_spec(
                old(self)@,
                *old(gate),
                dt as nat,
                elapsed_ms as nat,
                final(self)@.delay_left,
            ),
            leaving(old(self)@) ==> old(self)@.delay_start <= final(self)@.delay_left < old(
                self,
            )@.delay_end,
            valid(final(self)@),
    {
        let drawn: u64 = if self.is_leaving() {
            draw_between(self.delay_start, self.delay_end)
        } else {
            self.delay_left
        };
        self.step_with(gate, dt, elapsed_ms, drawn);
    }
}

/// The views of a row of obstacles.
pub open spec fn views(row: Seq<Obstacle>) -> Seq<ObstacleView> {
    row.map_values(|o: Obstacle| o@)
}

/// The delays that a row of obstacles still has to wait.
pub open spec fn delays(row: Seq<ObstacleView>) -> Seq<nat> {
    row.map_values(|o: ObstacleView| o.delay_left)
}

/// Every obstacle of the row is valid.
pub open spec fn all_valid(row: Seq<ObstacleView>) -> bool {
    forall|i: int| 0 <= i < row.len() ==> valid(#[trigger] row[i])
}

/// `draws` holds, for each obstacle of the row, a delay from its range.
pub open spec fn drawn_for(draws: Seq<nat>, row: Seq<ObstacleView>) -> bool {
    &&& draws.len() == row.len()
    &&& forall|i: int|
        0 <= i < row.len() && leaving(#[trigger] row[i]) ==> row[i].delay_start <= draws[i]
            < row[i].delay_end
}

/// The spawn gate as the obstacle at `index` finds it in a frame: as the obstacles
/// before it in the row have left it, taken in their order from the spawn gate at
/// the start of the frame. With `index` the length of the row it is the spawn gate
/// at the end of the frame.
pub open spec fn gate_before(
    row: Seq<ObstacleView>,
    gate: bool,
    dt: nat,
    elapsed_ms: nat,
    index: nat,
) -> bool
    decreases index,
{
    if index == 0 || index > row.len() {
        gate
    } else {
        step_spec(
            row[index - 1],
            gate_before(row, gate, dt, elapsed_ms, (index - 1) as nat),
            dt,
            elapsed_ms,
            0,
        ).1
    }
}

/// The row after a frame: each obstacle has made its step with the spawn gate as it
/// found it, and with its delay from `draws` if the frame set it back.
pub open spec fn stepped(
    row: Seq<ObstacleView>,
    gate: bool,
    dt: nat,
    elapsed_ms: nat,
    draws: Seq<nat>,
) -> Seq<ObstacleView> {
    Seq::new(
        row.len(),
        |i: int|
            step_spec(row[i], gate_before(row, gate, dt, elapsed_ms, i as nat), dt, elapsed_ms, draws[i]).0,
    )
}

/// One frame for a row of obstacles, in their order. The delays of those that
/// the frame set back are drawn at random, each from its obstacle's range,
/// and are then found in the row.
pub fn step_all(row: &mut Vec<Obstacle>, gate: &mut bool, dt: u32, elapsed_ms: u64)
    requires
        all_valid(views(old(row)@)),
    ensures
        views(final(row)@) == stepped(
            views(old(row)@),
            *old(gate),
            dt as nat,
            elapsed_ms as nat,
            delays(views(final(row)@)),
        ),
        *final(gate) == gate_before(
            views(old(row)@),
            *old(gate),
            dt as nat,
            elapsed_ms as nat,
            old(row)@.len(),
        ),
        drawn_for(delays(views(final(row)@)), views(old(row)@)),
        all_valid(views(final(row)@)),
{
    let ghost before = views(row@);
    let ghost gate0 = *gate;
    let n: usize = row.len();
    let mut i: usize = 0;
    while i < n
        invariant
            i <= n,
            n == row@.len(),
            n == before.len(),
            all_valid(before),
            *gate == gate_before(before, gate0, dt as nat, elapsed_ms as nat, i as nat),
            forall|j: int|
                0 <= j < i ==> {
                    &&& (#[trigger] row@[j])@ == step_spec(
                        before[j],
                        gate_before(before, gate0, dt as nat, elapsed_ms as nat, j as nat),
                        dt as nat,
                        elapsed_ms as nat,
                        row@[j]@.delay_left,
                    ).0
                    &&& valid(row@[j]@)
                    &&& leaving(before[j]) ==> before[j].delay_start <= row@[j]@.delay_left
                        < before[j].delay_end
                },
            forall|j: int| i <= j < n ==> (#[trigger] row@[j])@ == before[j],
        decreases n - i,
    {
        let mut o: Obstacle = row[i];
        assert(valid(before[i as int]));
        o.step(gate, dt, elapsed_ms);
        row.set(i, o);
        i += 1;
    }
    proof {
        let after = views(row@);
        let draws = delays(after);
        assert(after =~= stepped(before, gate0, dt as nat, elapsed_ms as nat, draws));
        assert forall|j: int| 0 <= j < after.len() implies valid(#[trigger] after[j]) by {
            assert(valid(row@[j]@));
        }
        assert forall|j: int| 0 <= j < before.len() && leaving(#[trigger] before[j]) implies before[j].delay_start
            <= draws[j] < before[j].delay_end by {
            assert(valid(row@[j]@));
        }
    }
}

/// While an obstacle moves, every frame of positive length takes it strictly
/// to the left. The frame that finds it beyond the left edge sets it back to
/// the right edge plus half its width, where it waits for the delay drawn.
pub proof fn lemma_moving_goes_left(
    o: ObstacleView,
    gate: bool,
    dt: nat,
    elapsed_ms: nat,
    drawn: nat,
)
    requires
        valid(o),
        o.moving,
        dt > 0,
    ensures
        ({
            let after = step_spec(o, gate, dt, elapsed_ms, drawn).0;
            &&& after.moving <==> !leaving(o)
            &&& after.moving ==> after.x < o.x && after.x == o.x - o.velocity * dt
            &&& !after.moving ==> after.x == 640_000_000 + o.half_width && after.delay_left
                == drawn
        }),
{
    assert(o.velocity * dt > 0) by (nonlinear_arith)
        requires
            o.velocity >= 300_000,
            dt > 0,
    ;
}

/// A waiting obstacle starts in the very frame in which its delay is over and
/// the spawn gate is open, and in no other; as it starts it closes the spawn gate and
/// takes the speed of the current level.
pub proof fn lemma_starts_when_due(
    o: ObstacleView,
    gate: bool,
    dt: nat,
    elapsed_ms: nat,
    drawn: nat,
)
    requires
        valid(o),
        !o.moving,
    ensures
        ({
            let (after, gate_then) = step_spec(o, gate, dt, elapsed_ms, drawn);
            &&& after.moving <==> o.delay_left <= dt && gate
            &&& after.moving ==> !gate_then && after.velocity == velocity_at(level_of(elapsed_ms))
            &&& !after.moving ==> gate_then == gate && after.velocity == o.velocity
            &&& after.x == o.x
        }),
{
}

/// The speed does not change within an interval, and is the base speed raised
/// by one hundredth, rounded down, once for each full interval survived. So
/// it is the base speed before the first interval is over and 1.01 times the
/// base speed during the second.
pub proof fn lemma_velocity_steps(elapsed_ms: nat)
    ensures
        elapsed_ms < 900 ==> velocity_at(level_of(elapsed_ms)) == 300_000,
        900 <= elapsed_ms < 1800 ==> velocity_at(level_of(elapsed_ms)) == 303_000,
        level_of(elapsed_ms) < 65535 ==> velocity_at(level_of(elapsed_ms + 900)) == velocity_at(
            level_of(elapsed_ms) + 1,
        ),
        ramp(level_of(elapsed_ms) + 1) == ramp(level_of(elapsed_ms)) * 101 / 100,
{
    reveal_with_fuel(ramp, 3);
}

/// The obstacle moves in the left half of the field, where it opens the
/// spawn gate.
pub open spec fn opens_gate(o: ObstacleView) -> bool {
    o.moving && !leaving(o) && o.x < 0
}

/// A closed spawn gate stays closed along the row as far as no obstacle moves
/// in the left half of the field.
pub proof fn lemma_gate_stays_closed(
    row: Seq<ObstacleView>,
    gate: bool,
    dt: nat,
    elapsed_ms: nat,
    from: nat,
    to: nat,
)
    requires
        from <= to <= row.len(),
        !gate_before(row, gate, dt, elapsed_ms, from),
        forall|i: int| from <= i < to ==> !opens_gate(#[trigger] row[i]),
    ensures
        !gate_before(row, gate, dt, elapsed_ms, to),
    decreases to,
{
    if from < to {
        lemma_gate_stays_closed(row, gate, dt, elapsed_ms, from, (to - 1) as nat);
        assert(!opens_gate(row[to - 1]));
    }
}

/// The spawn gate paces the starts: when a frame starts the obstacle at
/// `first`, it starts no waiting obstacle after it in the row unless one
/// between the two moves in the left half of the field. In a row of two, a
/// frame therefore starts one obstacle at most.
pub proof fn lemma_starts_are_paced(
    row: Seq<ObstacleView>,
    gate: bool,
    dt: nat,
    elapsed_ms: nat,
    draws: Seq<nat>,
    first: int,
    second: int,
)
    requires
        0 <= first < second < row.len(),
        draws.len() == row.len(),
        !row[first].moving,
        stepped(row, gate, dt, elapsed_ms, draws)[first].moving,
        !row[second].moving,
        forall|i: int| first < i < second ==> !opens_gate(#[trigger] row[i]),
    ensures
        !stepped(row, gate, dt, elapsed_ms, draws)[second].moving,
        stepped(row, gate, dt, elapsed_ms, draws)[second].x == row[second].x,
{
    assert(!gate_before(row, gate, dt, elapsed_ms, (first + 1) as nat));
    lemma_gate_stays_closed(row, gate, dt, elapsed_ms, (first + 1) as nat, second as nat);
}

/// `base` to the power `exponent`.
pub open spec fn power(base: nat, exponent: nat) -> nat
    decreases exponent,
{
    if exponent == 0 {
        1
    } else {
        base * power(base, (exponent - 1) as nat)
    }
}

/// The ramp follows the base speed times 1.01 to the power of the level. It
/// never passes that product, `300000 · 101^level / 100^level`, and the
/// rounding at each level costs it less than `100 · (1.01^level − 1)` in all,
/// which is less than one part in 3000.
pub proof fn lemma_ramp_tracks_power(level: nat)
    ensures
        ramp(level) * power(100, level) <= 300_000 * power(101, level),
        299_900 * power(101, level) + 100 * power(100, level) <= ramp(level) * power(100, level),
    decreases level,
{
    if level > 0 {
        let k = (level - 1) as nat;
        lemma_ramp_tracks_power(k);
        let r = ramp(k);
        let r2 = ramp(level);
        let p = power(100, k);
        let q = power(101, k);
        assert(power(100, level) == 100 * p);
        assert(power(101, level) == 101 * q);
        assert(r2 * 100 <= r * 101 && r * 101 - 99 <= r2 * 100);
        assert((r2 * 100) * p <= (r * 101) * p && (r * 101 - 99) * p <= (r2 * 100) * p)
            by (nonlinear_arith)
            requires
                r2 * 100 <= r * 101,
                r * 101 - 99 <= r2 * 100,
                p >= 0,
        ;
        assert((r * 101) * p == 101 * (r * p) && (r2 * 100) * p == r2 * (100 * p) && (r * 101
            - 99) * p == 101 * (r * p) - 99 * p) by (nonlinear_arith);
    }
}

} // verus!
