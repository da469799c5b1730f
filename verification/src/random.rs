use vstd::prelude::*;

verus! {

/// One tick's worth of random draws for a single cell.
///
/// Every probabilistic transition rule is a deterministic function of the
/// cell, its neighbor snapshot, and these draws, so the whole state machine
/// can be replayed exactly by supplying a fixed sequence of draws.
#[derive(Clone, Copy, Debug, PartialEq, Eq, Structural)]
pub struct Rolls {
    /// Uniform draw in [0, 10000); decides spontaneous regrowth and decay.
    pub spawn: u32,
    /// Uniform draw in [0, 100); decides whether fire spreads from neighbors.
    pub spread: u32,
    /// Uniform draw in [0, 100); decides regrowth of long-dead ground.
    pub regrow: u32,
}

impl Rolls {
    pub open spec fn wf(self) -> bool {
        self.spawn < 10000 && self.spread < 100 && self.regrow < 100
    }
}

/// Relies on rand::Rng::gen_range on the thread-local generator: a uniform
/// draw in [0, bound).  The call panics on an empty range, which the
/// precondition rules out.
#[verifier::external_body]
pub fn roll_below(bound: u32) -> (r: u32)
    requires
        1 <= bound,
    ensures
        r < bound,
{
    rand::Rng::gen_range(&mut rand::thread_rng(), 0..bound)
}

/// Draw the three uniform rolls that one cell consumes in one tick.
pub fn draw_rolls() -> (r: Rolls)
    ensures
        r.wf(),
{
    Rolls { spawn: roll_below(10000), spread: roll_below(100), regrow: roll_below(100) }
}

} // verus!
