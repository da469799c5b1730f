use crate::position::Position;
use crate::tree::{Tree, TreeState};
use vstd::prelude::*;

verus! {

/// Builds a `Tree` field by field, starting from a dormant cell of age 0
/// at the origin.
pub struct TreeBuilder {
    pub age: i32,
    pub position: Position,
    pub state: TreeState,
}

impl TreeBuilder {
    /// What `build` would currently return.
    pub open spec fn tree(self) -> Tree {
        Tree { age: self.age, position: self.position, state: self.state }
    }

    pub fn new() -> (b: TreeBuilder)
        ensures
            b.tree() == (Tree {
                age: 0,
                position: Position { x: 0, y: 0 },
                state: TreeState::Dormant,
            }),
    {
        TreeBuilder { age: 0, position: Position::new(0, 0), state: TreeState::Dormant }
    }

    pub fn with_age(self, age: i32) -> (b: TreeBuilder)
        ensures
            b.tree() == (Tree { age, ..self.tree() }),
    {
        TreeBuilder { age, position: self.position, state: self.state }
    }

    pub fn with_position(self, x: i32, y: i32) -> (b: TreeBuilder)
        ensures
            b.tree() == (Tree { position: Position { x, y }, ..self.tree() }),
    {
        TreeBuilder { age: self.age, position: Position::new(x, y), state: self.state }
    }

    pub fn with_state(self, state: TreeState) -> (b: TreeBuilder)
        ensures
            b.tree() == (Tree { state, ..self.tree() }),
    {
        TreeBuilder { age: self.age, position: self.position, state }
    }

    pub fn build(self) -> (t: Tree)
        ensures
            t == self.tree(),
    {
        Tree { age: self.age, position: self.position, state: self.state }
    }
}

} // verus!
