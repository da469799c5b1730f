use crate::position::Position;
use crate::random::{draw_rolls, Rolls};
use vstd::prelude::*;

verus! {

/// Numerator of the 5-in-10000 chance that bare or charred ground changes:
/// dormant ground spawns vegetation, dead remains clear to dormant ground.
pub const SPAWN_CHANCE: u32 = 5;

/// A lightning strike smolders for this many ticks before the cell burns.
pub const FUSE_TICKS: i32 = 3;

/// A burning cell stays on fire for this many ticks before it dies.
pub const BURN_TICKS: i32 = 5;

/// An alive cell at least this old is subject to the senescence rule.
pub const SENESCENCE_AGE: i32 = 2000;

/// A dead cell must have decayed for more than this many ticks to regrow.
pub const DECAY_TICKS: i32 = 500;

/// Width of one age band of the alive color scale, and the unit in which
/// age raises the chance that fire spreads to a cell.
pub const AGE_BAND: i32 = 10000;

/// An RGBA color, one byte per channel.
#[derive(Clone, Copy, Debug, PartialEq, Eq, Structural)]
pub struct Color {
    pub r: u8,
    pub g: u8,
    pub b: u8,
    pub a: u8,
}

impl Color {
    pub fn new(r: u8, g: u8, b: u8, a: u8) -> (c: Color)
        ensures
            c == (Color { r, g, b, a }),
    {
        Color { r, g, b, a }
    }
}

/// The state of one cell; the counters record ticks spent in the state,
/// starting at 0.
#[derive(Clone, Copy, Debug, PartialEq, Eq, Structural)]
pub enum TreeState {
    /// Vegetation present; eligible to ignite.
    Alive,
    /// Actively on fire.
    Burning(i32),
    /// Burnt remains.
    Dead(i32),
    /// A strike in progress; the cell will catch fire when the fuse runs out.
    Lightning(i32),
    /// No vegetation; eligible to spawn some.
    Dormant,
}

/// One cell of the grid.  `age` counts ticks since the cell last became
/// alive (reset to 0 on regrowth); it is distinct from the per-state
/// counters of `TreeState`.
#[derive(Clone, Copy, Debug, PartialEq, Eq, Structural)]
pub struct Tree {
    pub age: i32,
    pub position: Position,
    pub state: TreeState,
}

/// Whether the first `n` of the given neighbors hold a lightning strike.
pub open spec fn lightning_upto(neighbors: Seq<Tree>, n: int) -> bool
    decreases n,
{
    if n <= 0 {
        false
    } else {
        lightning_upto(neighbors, n - 1) || neighbors[n - 1].state is Lightning
    }
}

/// Whether any neighbor holds a lightning strike.
pub open spec fn has_lightning(neighbors: Seq<Tree>) -> bool {
    lightning_upto(neighbors, neighbors.len() as int)
}

/// How many of the first `n` of the given neighbors are on fire.
pub open spec fn burning_upto(neighbors: Seq<Tree>, n: int) -> int
    decreases n,
{
    if n <= 0 {
        0
    } else {
        burning_upto(neighbors, n - 1) + if neighbors[n - 1].state is Burning {
            1int
        } else {
            0int
        }
    }
}

/// How many of the given neighbors are on fire.
pub open spec fn burning_count(neighbors: Seq<Tree>) -> int {
    burning_upto(neighbors, neighbors.len() as int)
}

/// The percent chance that fire spreads to an alive cell:
/// (100 / 8) * (burning neighbor count + 2 per full age band), rounded down.
pub open spec fn spread_chance(burning: int, age: int) -> int {
    25 * (burning + 2 * (age / (AGE_BAND as int))) / 2
}

/// Whether a decayed dead cell regrows, given a uniform roll in [0, 100).
///
/// The regrowth chance is 1 - clamp(ln(age / 100), 0, 1): the cell regrows
/// exactly when roll / 100 exceeds ln(age / 100).  Here ln is written with
/// the first two terms of its atanh series,
/// ln(x) = 2 * (z + z^3 / 3 + ...) with z = (x - 1) / (x + 1),
/// cleared of denominators.  The comparison is exact at the clamped
/// extremes: below age 100 the log is negative and every roll regrows;
/// from age 272 on it exceeds 1 and no roll does.
pub open spec fn regrows(age: int, roll: int) -> bool {
    if age < 100 {
        true
    } else if age >= 272 {
        false
    } else {
        let d = age - 100;
        let s = age + 100;
        3 * roll * s * s * s > 600 * d * s * s + 200 * d * d * d
    }
}

/// One tick of age, saturating at the machine limit.
pub open spec fn bump_age(age: i32) -> i32 {
    if age == i32::MAX {
        age
    } else {
        (age + 1) as i32
    }
}

/// The transition function of the cell state machine: the cell after one
/// tick, as a function of the cell, the snapshot of its neighbors taken
/// from the current generation, and the tick's random draws.
///
/// The rules, in the order they are tried:
/// - A lightning strike counts up and turns to fire once `FUSE_TICKS`
///   ticks have passed in the struck state.
/// - A burning cell counts up and dies once `BURN_TICKS` ticks have
///   passed on fire.
/// - A dead cell clears to dormant on a `SPAWN_CHANCE`-in-10000 draw;
///   otherwise, once it has decayed for more than `DECAY_TICKS` ticks, it
///   may regrow (see `regrows`), resetting its age; otherwise it decays
///   one more tick.
/// - An alive cell next to a lightning strike catches fire at once, its
///   age untouched.  Otherwise it ages one tick; with more than one
///   burning neighbor it catches fire when the spread roll falls below
///   `spread_chance`.  Senescence (from `SENESCENCE_AGE` on) kills with
///   chance 1 - clamp(ln(age / 100), 0, 1), which is 0 for every such
///   age, so it never fires.
/// - Dormant ground spawns vegetation of age 0 on a
///   `SPAWN_CHANCE`-in-10000 draw.
pub open spec fn spec_step(t: Tree, neighbors: Seq<Tree>, rolls: Rolls) -> Tree {
    match t.state {
        TreeState::Lightning(v) => if v >= FUSE_TICKS - 1 {
            Tree { age: t.age, position: t.position, state: TreeState::Burning(0) }
        } else {
            Tree { age: t.age, position: t.position, state: TreeState::Lightning((v + 1) as i32) }
        },
        TreeState::Burning(v) => if v >= BURN_TICKS - 1 {
            Tree { age: t.age, position: t.position, state: TreeState::Dead(0) }
        } else {
            Tree { age: t.age, position: t.position, state: TreeState::Burning((v + 1) as i32) }
        },
        TreeState::Dead(d) => if rolls.spawn < SPAWN_CHANCE {
            Tree { age: t.age, position: t.position, state: TreeState::Dormant }
        } else if d > DECAY_TICKS {
            if regrows(t.age as int, rolls.regrow as int) {
                Tree { age: 0, position: t.position, state: TreeState::Alive }
            } else {
                t
            }
        } else {
            Tree { age: t.age, position: t.position, state: TreeState::Dead((d + 1) as i32) }
        },
        TreeState::Alive => if has_lightning(neighbors) {
            Tree { age: t.age, position: t.position, state: TreeState::Burning(0) }
        } else {
            let burning = burning_count(neighbors);
            if burning > 1 && rolls.spread < spread_chance(burning, t.age as int) {
                Tree { age: bump_age(t.age), position: t.position, state: TreeState::Burning(0) }
            } else {
                Tree { age: bump_age(t.age), position: t.position, state: TreeState::Alive }
            }
        },
        TreeState::Dormant => if rolls.spawn < SPAWN_CHANCE {
            Tree { age: 0, position: t.position, state: TreeState::Alive }
        } else {
            t
        },
    }
}

/// Whether a decayed dead cell of the given age regrows on the given roll;
/// see `regrows`.
fn regrow_check(age: i32, roll: u32) -> (b: bool)
    requires
        0 <= age,
        roll < 100,
    ensures
        b == regrows(age as int, roll as int),
{
    if age < 100 {
        true
    } else if age >= 272 {
        false
    } else {
        let a = age as i64;
        let r = roll as i64;
        let d = a - 100;
        let s = a + 100;
        proof {
            assert(0 <= 3 * r * s <= 3 * 99 * 371 && 0 <= 3 * r * s * s <= 3 * 99 * 371 * 371 && 0
                <= 3 * r * s * s * s <= 3 * 99 * 371 * 371 * 371) by (nonlinear_arith)
                requires
                    0 <= r <= 99,
                    200 <= s <= 371,
            ;
            assert(0 <= 600 * d * s <= 600 * 171 * 371 && 0 <= 600 * d * s * s <= 600 * 171 * 371
                * 371) by (nonlinear_arith)
                requires
                    0 <= d <= 171,
                    200 <= s <= 371,
            ;
            assert(0 <= 200 * d * d <= 200 * 171 * 171 && 0 <= 200 * d * d * d <= 200 * 171 * 171
                * 171) by (nonlinear_arith)
                requires
                    0 <= d <= 171,
            ;
        }
        3 * r * s * s * s > 600 * d * s * s + 200 * d * d * d
    }
}

impl TreeState {
    /// A state drawn uniformly from the four plain states, counters at 0.
    pub fn _random() -> (s: TreeState)
        ensures
            s is Alive || s == TreeState::Burning(0) || s == TreeState::Dead(0) || s is Dormant,
    {
        let n = crate::random::roll_below(4);
        if n == 0 {
            TreeState::Alive
        } else if n == 1 {
            TreeState::Burning(0)
        } else if n == 2 {
            TreeState::Dead(0)
        } else {
            TreeState::Dormant
        }
    }
}

impl Tree {
    /// A cell's fields are well formed: its age and the tick counter of
    /// its state are not negative.
    pub open spec fn wf(self) -> bool {
        0 <= self.age && match self.state {
            TreeState::Burning(v) => 0 <= v,
            TreeState::Lightning(v) => 0 <= v,
            TreeState::Dead(d) => 0 <= d,
            _ => true,
        }
    }

    /// A dormant cell of age 0 at the origin.
    pub fn _new() -> (t: Tree)
        ensures
            t == (Tree {
                age: 0,
                position: Position { x: 0, y: 0 },
                state: TreeState::Dormant,
            }),
    {
        Tree { age: 0, position: Position::new(0, 0), state: TreeState::Dormant }
    }

    /// Whether the cell is on fire.
    pub fn is_ignited(&self) -> (b: bool)
        ensures
            b == (self.state is Burning),
    {
        matches!(self.state, TreeState::Burning(_))
    }

    /// The color of the cell: alive greens darken by age band, fire is
    /// tan, remains are dark, bare ground near black, a strike bright
    /// blue.  The mapping is cosmetic and has no effect on the simulation.
    pub open spec fn color(self) -> Color {
        match self.state {
            TreeState::Alive => if self.age < AGE_BAND {
                Color { r: 25, g: 160, b: 40, a: 255 }
            } else if self.age < 2 * AGE_BAND {
                Color { r: 35, g: 110, b: 40, a: 255 }
            } else if self.age < 3 * AGE_BAND {
                Color { r: 55, g: 80, b: 40, a: 255 }
            } else {
                Color { r: 65, g: 75, b: 25, a: 255 }
            },
            TreeState::Burning(_) => Color { r: 180, g: 120, b: 70, a: 255 },
            TreeState::Dead(_) => Color { r: 40, g: 40, b: 35, a: 255 },
            TreeState::Dormant => Color { r: 15, g: 30, b: 15, a: 255 },
            TreeState::Lightning(_) => Color { r: 0, g: 121, b: 241, a: 255 },
        }
    }

    /// The cell's color; see `color`.
    pub fn draw(&self) -> (c: Color)
        ensures
            c == self.color(),
    {
        match self.state {
            TreeState::Alive => if self.age < AGE_BAND {
                Color::new(25, 160, 40, 255)
            } else if self.age < 2 * AGE_BAND {
                Color::new(35, 110, 40, 255)
            } else if self.age < 3 * AGE_BAND {
                Color::new(55, 80, 40, 255)
            } else {
                Color::new(65, 75, 25, 255)
            },
            TreeState::Burning(_) => Color::new(180, 120, 70, 255),
            TreeState::Dead(_) => Color::new(40, 40, 35, 255),
            TreeState::Dormant => Color::new(15, 30, 15, 255),
            TreeState::Lightning(_) => Color::new(0, 121, 241, 255),
        }
    }

    /// Advance the cell one tick, all random draws supplied by the caller;
    /// the result is exactly `spec_step`.
    pub fn step(self, neighbors: &Vec<Tree>, rolls: &Rolls) -> (t: Tree)
        requires
            self.wf(),
            rolls.wf(),
            neighbors@.len() <= 8,
        ensures
            t == spec_step(self, neighbors@, *rolls),
            t.wf(),
            t.position == self.position,
    {
        match self.state {
            TreeState::Lightning(v) => if v >= FUSE_TICKS - 1 {
                Tree { age: self.age, position: self.position, state: TreeState::Burning(0) }
            } else {
                Tree { age: self.age, position: self.position, state: TreeState::Lightning(v + 1) }
            },
            TreeState::Burning(v) => if v >= BURN_TICKS - 1 {
                Tree { age: self.age, position: self.position, state: TreeState::Dead(0) }
            } else {
                Tree { age: self.age, position: self.position, state: TreeState::Burning(v + 1) }
            },
            TreeState::Dead(d) => if rolls.spawn < SPAWN_CHANCE {
                Tree { age: self.age, position: self.position, state: TreeState::Dormant }
            } else if d > DECAY_TICKS {
                if regrow_check(self.age, rolls.regrow) {
                    Tree { age: 0, position: self.position, state: TreeState::Alive }
                } else {
                    self
                }
            } else {
                Tree { age: self.age, position: self.position, state: TreeState::Dead(d + 1) }
            },
            TreeState::Alive => {
                let (lightning, burning) = survey_neighbors(neighbors);
                if lightning {
                    Tree { age: self.age, position: self.position, state: TreeState::Burning(0) }
                } else {
                    let new_age: i32 = if self.age == i32::MAX {
                        self.age
                    } else {
                        self.age + 1
                    };
                    let chance: i64 = 25 * (burning as i64 + 2 * (self.age as i64 / (
                    AGE_BAND as i64))) / 2;
                    if burning > 1 && (rolls.spread as i64) < chance {
                        Tree { age: new_age, position: self.position, state: TreeState::Burning(0) }
                    } else {
                        Tree { age: new_age, position: self.position, state: TreeState::Alive }
                    }
                }
            },
            TreeState::Dormant => if rolls.spawn < SPAWN_CHANCE {
                Tree { age: 0, position: self.position, state: TreeState::Alive }
            } else {
                self
            },
        }
    }

    /// Advance the cell one tick, drawing the randomness itself.  Every
    /// outcome is one tick of the state machine under some well-formed
    /// draws.
    pub fn update(self, neighbors: &Vec<Tree>) -> (t: Tree)
        requires
            self.wf(),
            neighbors@.len() <= 8,
        ensures
            exists|r: Rolls| r.wf() && t == #[trigger] spec_step(self, neighbors@, r),
            t.wf(),
            t.position == self.position,
    {
        let rolls = draw_rolls();
        let t = self.step(neighbors, &rolls);
        proof {
            assert(rolls.wf() && t == spec_step(self, neighbors@, rolls));
        }
        t
    }
}

/// Whether any neighbor holds a lightning strike, and how many are on fire.
fn survey_neighbors(neighbors: &Vec<Tree>) -> (r: (bool, usize))
    ensures
        r.0 == has_lightning(neighbors@),
        r.1 == burning_count(neighbors@),
        r.1 <= neighbors@.len(),
{
    let mut lightning = false;
    let mut burning: usize = 0;
    let mut k: usize = 0;
    while k < neighbors.len()
        invariant
            k <= neighbors@.len(),
            lightning == lightning_upto(neighbors@, k as int),
            burning == burning_upto(neighbors@, k as int),
            burning <= k,
        decreases neighbors@.len() - k,
    {
        let t = &neighbors[k];
        if matches!(t.state, TreeState::Lightning(_)) {
            lightning = true;
        }
        if matches!(t.state, TreeState::Burning(_)) {
            burning = burning + 1;
        }
        k = k + 1;
    }
    (lightning, burning)
}

/// A struck cell burns after exactly `FUSE_TICKS` ticks: whatever its
/// neighbors and whatever the draws, a cell in `Lightning(0)` passes
/// through `Lightning(1)` and `Lightning(2)` and is `Burning(0)` on the
/// third tick.
pub proof fn lemma_deterministic_fuse(
    t: Tree,
    n0: Seq<Tree>,
    r0: Rolls,
    n1: Seq<Tree>,
    r1: Rolls,
    n2: Seq<Tree>,
    r2: Rolls,
)
    requires
        t.state == TreeState::Lightning(0),
    ensures
        ({
            let t1 = spec_step(t, n0, r0);
            let t2 = spec_step(t1, n1, r1);
            let t3 = spec_step(t2, n2, r2);
            t1.state == TreeState::Lightning(1) && t2.state == TreeState::Lightning(2)
                && t3.state == TreeState::Burning(0) && t3.age == t.age
        }),
{
}

/// A burning cell dies after exactly `BURN_TICKS` ticks: whatever its
/// neighbors and whatever the draws, a cell in `Burning(0)` counts up
/// through `Burning(4)` and is `Dead(0)` on the fifth tick.
pub proof fn lemma_deterministic_burn(
    t: Tree,
    n0: Seq<Tree>,
    r0: Rolls,
    n1: Seq<Tree>,
    r1: Rolls,
    n2: Seq<Tree>,
    r2: Rolls,
    n3: Seq<Tree>,
    r3: Rolls,
    n4: Seq<Tree>,
    r4: Rolls,
)
    requires
        t.state == TreeState::Burning(0),
    ensures
        ({
            let t1 = spec_step(t, n0, r0);
            let t2 = spec_step(t1, n1, r1);
            let t3 = spec_step(t2, n2, r2);
            let t4 = spec_step(t3, n3, r3);
            let t5 = spec_step(t4, n4, r4);
            t1.state == TreeState::Burning(1) && t2.state == TreeState::Burning(2)
                && t3.state == TreeState::Burning(3) && t4.state == TreeState::Burning(4)
                && t5.state == TreeState::Dead(0) && t5.age == t.age
        }),
{
}

/// Senescence never fires: an alive cell can only stay alive or catch
/// fire, for its death chance 1 - clamp(ln(age / 100), 0, 1) is 0
/// wherever the guard age >= `SENESCENCE_AGE` holds.
pub proof fn lemma_alive_never_dies(t: Tree, neighbors: Seq<Tree>, rolls: Rolls)
    requires
        t.state is Alive,
    ensures
        !(spec_step(t, neighbors, rolls).state is Dead),
        !(spec_step(t, neighbors, rolls).state is Dormant),
        !(spec_step(t, neighbors, rolls).state is Lightning),
{
}

/// A dead cell that has not decayed for more than `DECAY_TICKS` ticks
/// cannot regrow, whatever the draws.
pub proof fn lemma_young_dead_cannot_regrow(t: Tree, neighbors: Seq<Tree>, rolls: Rolls)
    requires
        t.state matches TreeState::Dead(d) && d <= DECAY_TICKS,
    ensures
        !(spec_step(t, neighbors, rolls).state is Alive),
{
}

} // verus!
