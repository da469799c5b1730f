use crate::random::{roll_below, Rolls};
use crate::tree::{spec_step, Tree, TreeState};
use vstd::arithmetic::div_mod::{lemma_fundamental_div_mod, lemma_fundamental_div_mod_converse};
use vstd::prelude::*;

verus! {

/// The flat index of (row, col) as a one-cell sequence if it lies on the
/// grid, the empty sequence if clipped away at an edge.
pub open spec fn maybe_index(row: int, col: int, width: int, height: int) -> Seq<int> {
    if 0 <= row < height && 0 <= col < width {
        seq![row * width + col]
    } else {
        Seq::<int>::empty()
    }
}

/// The row a flat index lies in.
pub open spec fn row_of(idx: int, width: int) -> int {
    idx / width
}

/// The column a flat index lies in.
pub open spec fn col_of(idx: int, width: int) -> int {
    idx % width
}

/// The flat indices of the Moore neighborhood of `idx`: the up to eight
/// cells one step away horizontally, vertically or diagonally, clipped at
/// the grid edges with no wraparound, in row-major order.
pub open spec fn neighbor_indices(idx: int, width: int, height: int) -> Seq<int> {
    let row = row_of(idx, width);
    let col = col_of(idx, width);
    maybe_index(row - 1, col - 1, width, height) + maybe_index(row - 1, col, width, height)
        + maybe_index(row - 1, col + 1, width, height) + maybe_index(row, col - 1, width, height)
        + maybe_index(row, col + 1, width, height) + maybe_index(row + 1, col - 1, width, height)
        + maybe_index(row + 1, col, width, height) + maybe_index(
        row + 1,
        col + 1,
        width,
        height,
    )
}

/// The neighbor cells of `idx`, read from a row-major cell sequence.
pub open spec fn neighbor_trees_of(trees: Seq<Tree>, idx: int, width: int, height: int) -> Seq<
    Tree,
> {
    neighbor_indices(idx, width, height).map_values(|j: int| trees[j])
}

/// A cell index within the grid splits into a row below `height` and a
/// column below `width`, and every such pair is a cell index.
proof fn lemma_row_col(idx: int, width: int, height: int)
    requires
        1 <= width,
        1 <= height,
        0 <= idx < width * height,
    ensures
        0 <= row_of(idx, width) < height,
        0 <= col_of(idx, width) < width,
        idx == row_of(idx, width) * width + col_of(idx, width),
{
    lemma_fundamental_div_mod(idx, width);
    assert(idx == width * (idx / width) + idx % width);
    assert(width * (idx / width) == (idx / width) * width) by (nonlinear_arith);
    assert(0 <= idx % width < width);
    assert(0 <= idx / width) by (nonlinear_arith)
        requires
            0 <= idx,
            1 <= width,
    ;
    assert(idx / width < height) by (nonlinear_arith)
        requires
            idx < width * height,
            idx == width * (idx / width) + idx % width,
            0 <= idx % width,
            1 <= width,
    ;
}

/// A row below `height` and a column below `width` give a flat index
/// within the grid.
proof fn lemma_cell_index_in_range(row: int, col: int, width: int, height: int)
    requires
        0 <= row < height,
        0 <= col < width,
    ensures
        0 <= row * width + col < width * height,
        row * width + width <= width * height,
{
    assert(0 <= row * width + col && row * width + width <= width * height) by (nonlinear_arith)
        requires
            0 <= row < height,
            0 <= col < width,
    ;
}

/// Every Moore neighbor of a grid cell is itself a grid cell.
pub proof fn lemma_neighbor_indices_in_range(idx: int, width: int, height: int)
    requires
        1 <= width,
        1 <= height,
        0 <= idx < width * height,
    ensures
        neighbor_indices(idx, width, height).len() <= 8,
        forall|k: int|
            0 <= k < neighbor_indices(idx, width, height).len() ==> 0 <= #[trigger] neighbor_indices(
                idx,
                width,
                height,
            )[k] < width * height,
{
    let row = row_of(idx, width);
    let col = col_of(idx, width);
    lemma_row_col(idx, width, height);
    assert forall|k: int| 0 <= k < neighbor_indices(idx, width, height).len() implies 0
        <= #[trigger] neighbor_indices(idx, width, height)[k] < width * height by {
        if 0 <= row - 1 {
            if 0 <= col - 1 {
                lemma_cell_index_in_range(row - 1, col - 1, width, height);
            }
            lemma_cell_index_in_range(row - 1, col, width, height);
            if col + 1 < width {
                lemma_cell_index_in_range(row - 1, col + 1, width, height);
            }
        }
        if 0 <= col - 1 {
            lemma_cell_index_in_range(row, col - 1, width, height);
        }
        if col + 1 < width {
            lemma_cell_index_in_range(row, col + 1, width, height);
        }
        if row + 1 < height {
            if 0 <= col - 1 {
                lemma_cell_index_in_range(row + 1, col - 1, width, height);
            }
            lemma_cell_index_in_range(row + 1, col, width, height);
            if col + 1 < width {
                lemma_cell_index_in_range(row + 1, col + 1, width, height);
            }
        }
    }
}

/// The Moore neighborhood indices of `idx`, clipped at the grid edges.
#[verifier::rlimit(60)]
pub fn get_neighbors(width: usize, height: usize, idx: usize) -> (r: Vec<usize>)
    requires
        1 <= width,
        1 <= height,
        (width as int) * (height as int) <= usize::MAX,
        (idx as int) < (width as int) * (height as int),
    ensures
        r@.len() == neighbor_indices(idx as int, width as int, height as int).len(),
        forall|k: int|
            0 <= k < r@.len() ==> r@[k] == neighbor_indices(
                idx as int,
                width as int,
                height as int,
            )[k],
{
    let row = idx / width;
    let col = idx % width;
    proof {
        lemma_row_col(idx as int, width as int, height as int);
        if row >= 1 {
            lemma_cell_index_in_range(row as int - 1, col as int, width as int, height as int);
        }
        lemma_cell_index_in_range(row as int, col as int, width as int, height as int);
        if row as int + 1 < height as int {
            lemma_cell_index_in_range(row as int + 1, col as int, width as int, height as int);
        }
    }
    let mut v: Vec<usize> = Vec::new();
    if row > 0 {
        let base = (row - 1) * width;
        if col > 0 {
            v.push(base + col - 1);
        }
        v.push(base + col);
        if col + 1 < width {
            v.push(base + col + 1);
        }
    }
    if col > 0 {
        v.push(row * width + col - 1);
    }
    if col + 1 < width {
        v.push(row * width + col + 1);
    }
    if row + 1 < height {
        let base = (row + 1) * width;
        if col > 0 {
            v.push(base + col - 1);
        }
        v.push(base + col);
        if col + 1 < width {
            v.push(base + col + 1);
        }
    }
    v
}

/// The neighbor cells of `idx`, copied out of a fully populated row-major
/// cell buffer.
pub fn neighboring_trees(trees: &Vec<Tree>, idx: usize, width: usize, height: usize) -> (r: Vec<
    Tree,
>)
    requires
        1 <= width,
        1 <= height,
        (width as int) * (height as int) <= usize::MAX,
        trees@.len() == (width as int) * (height as int),
        (idx as int) < (width as int) * (height as int),
    ensures
        r@ == neighbor_trees_of(trees@, idx as int, width as int, height as int),
        r@.len() <= 8,
{
    proof {
        lemma_neighbor_indices_in_range(idx as int, width as int, height as int);
    }
    let ids = get_neighbors(width, height, idx);
    let mut out: Vec<Tree> = Vec::new();
    let ghost target = neighbor_trees_of(trees@, idx as int, width as int, height as int);
    let mut k: usize = 0;
    while k < ids.len()
        invariant
            k <= ids@.len(),
            out@.len() == k,
            1 <= width,
            1 <= height,
            trees@.len() == (width as int) * (height as int),
            0 <= (idx as int) < (width as int) * (height as int),
            target == neighbor_trees_of(trees@, idx as int, width as int, height as int),
            ids@.len() == neighbor_indices(idx as int, width as int, height as int).len(),
            forall|j: int|
                0 <= j < ids@.len() ==> ids@[j] == neighbor_indices(
                    idx as int,
                    width as int,
                    height as int,
                )[j],
            forall|j: int| 0 <= j < k ==> out@[j] == target[j],
        decreases ids@.len() - k,
    {
        proof {
            lemma_neighbor_indices_in_range(idx as int, width as int, height as int);
        }
        let j = ids[k];
        out.push(trees[j]);
        k = k + 1;
    }
    proof {
        assert(out@ =~= target);
    }
    out
}

/// Whether `cell` is one tick of the state machine applied to the cell at
/// `idx` of the previous generation, its neighbors read from that same
/// generation, under some well-formed random draws.
pub open spec fn stepped(prev: Seq<Tree>, cell: Tree, idx: int, width: int, height: int) -> bool {
    exists|r: Rolls|
        r.wf() && cell == #[trigger] spec_step(
            prev[idx],
            neighbor_trees_of(prev, idx, width, height),
            r,
        )
}

/// The grid engine: two equally sized cell buffers, one holding the
/// current generation and one receiving the next, their roles swapped by
/// `ping_pong` after every pass.
pub struct Forest {
    pub ping_pong: bool,
    pub trees_one: Vec<Tree>,
    pub trees_two: Vec<Tree>,
    pub width: i32,
    pub height: i32,
}

impl Forest {
    /// The current generation.
    pub open spec fn current(self) -> Seq<Tree> {
        if !self.ping_pong {
            self.trees_one@
        } else {
            self.trees_two@
        }
    }

    /// The buffer the next generation will be written into.
    pub open spec fn scratch(self) -> Seq<Tree> {
        if !self.ping_pong {
            self.trees_two@
        } else {
            self.trees_one@
        }
    }

    /// The grid's structural invariant: positive dimensions whose pixel
    /// buffer fits the machine, two buffers of one length holding at most
    /// one cell per grid position, every cell well formed, its position on
    /// the grid, and both buffers agreeing pointwise on positions.
    pub open spec fn wf(self) -> bool {
        &&& 1 <= self.width
        &&& 1 <= self.height
        &&& (self.width as int) * (self.height as int) * 4 <= i32::MAX
        &&& self.trees_one@.len() == self.trees_two@.len()
        &&& self.trees_one@.len() <= (self.width as int) * (self.height as int)
        &&& forall|i: int|
            0 <= i < self.trees_one@.len() ==> {
                &&& (#[trigger] self.trees_one@[i]).wf()
                &&& 0 <= self.trees_one@[i].position.x < self.width
                &&& 0 <= self.trees_one@[i].position.y < self.height
            }
        &&& forall|i: int|
            0 <= i < self.trees_two@.len() ==> {
                &&& (#[trigger] self.trees_two@[i]).wf()
                &&& self.trees_two@[i].position == self.trees_one@[i].position
            }
    }

    /// Whether the grid holds its full complement of width * height cells.
    pub open spec fn populated(self) -> bool {
        self.current().len() == (self.width as int) * (self.height as int)
    }

    /// Whether the grid is fully populated in row-major order: cell `i`
    /// sits at column i % width of row i / width, so every grid position
    /// is covered exactly once.
    pub open spec fn fully_populated(self) -> bool {
        &&& self.populated()
        &&& forall|i: int|
            0 <= i < self.current().len() ==> {
                &&& (#[trigger] self.current()[i]).position.x == col_of(i, self.width as int)
                &&& self.current()[i].position.y == row_of(i, self.width as int)
            }
    }

    /// An empty grid of the given dimensions, with room reserved for
    /// width * height cells in both buffers.
    pub fn new(width: i32, height: i32) -> (f: Forest)
        requires
            1 <= width,
            1 <= height,
            (width as int) * (height as int) * 4 <= i32::MAX,
        ensures
            f.wf(),
            f.width == width,
            f.height == height,
            f.current() == Seq::<Tree>::empty(),
            f.scratch() == Seq::<Tree>::empty(),
    {
        Forest {
            ping_pong: false,
            trees_one: Vec::with_capacity((width * height) as usize),
            trees_two: Vec::with_capacity((width * height) as usize),
            width,
            height,
        }
    }

    /// Append one cell to both buffers, keeping them describing the same
    /// set of positions.  Called once per grid position at population
    /// time.
    pub fn add_tree(&mut self, tree: Tree)
        requires
            old(self).wf(),
            tree.wf(),
            0 <= tree.position.x < old(self).width,
            0 <= tree.position.y < old(self).height,
            old(self).current().len() < (old(self).width as int) * (old(self).height as int),
        ensures
            final(self).wf(),
            final(self).width == old(self).width,
            final(self).height == old(self).height,
            final(self).ping_pong == old(self).ping_pong,
            final(self).current() == old(self).current().push(tree),
            final(self).scratch() == old(self).scratch().push(tree),
    {
        self.trees_one.push(tree);
        self.trees_two.push(tree);
    }

    /// One full generation advance over a populated buffer: for every
    /// index, read the cell and its neighbor snapshot from `cur` alone,
    /// advance it one tick, and write the result into `next` at the same
    /// index.  No write is read back within the pass.
    fn update_pass(cur: &Vec<Tree>, next: &mut Vec<Tree>, width: usize, height: usize)
        requires
            1 <= width,
            1 <= height,
            (width as int) * (height as int) <= usize::MAX,
            cur@.len() == (width as int) * (height as int),
            old(next)@.len() == cur@.len(),
            forall|i: int| 0 <= i < cur@.len() ==> (#[trigger] cur@[i]).wf(),
        ensures
            final(next)@.len() == cur@.len(),
            forall|i: int|
                0 <= i < cur@.len() ==> {
                    &&& stepped(cur@, #[trigger] final(next)@[i], i, width as int, height as int)
                    &&& final(next)@[i].position == cur@[i].position
                    &&& final(next)@[i].wf()
                },
    {
        let n = cur.len();
        let mut idx: usize = 0;
        while idx < n
            invariant
                idx <= n,
                n == cur@.len(),
                1 <= width,
                1 <= height,
                (width as int) * (height as int) <= usize::MAX,
                cur@.len() == (width as int) * (height as int),
                next@.len() == cur@.len(),
                forall|i: int| 0 <= i < cur@.len() ==> (#[trigger] cur@[i]).wf(),
                forall|i: int|
                    0 <= i < idx ==> {
                        &&& stepped(cur@, #[trigger] next@[i], i, width as int, height as int)
                        &&& next@[i].position == cur@[i].position
                        &&& next@[i].wf()
                    },
            decreases n - idx,
        {
            let neighbors = neighboring_trees(cur, idx, width, height);
            let cell = cur[idx];
            let t = cell.update(&neighbors);
            proof {
                let r = choose|r: Rolls| r.wf() && t == #[trigger] spec_step(cell, neighbors@, r);
                assert(t == spec_step(
                    cur@[idx as int],
                    neighbor_trees_of(cur@, idx as int, width as int, height as int),
                    r,
                ));
            }
            next.set(idx, t);
            idx = idx + 1;
        }
    }

    /// Advance the whole grid one generation: every cell of the current
    /// buffer is advanced one tick against a neighbor snapshot taken from
    /// the current buffer alone, the results land in the other buffer,
    /// and the roles swap.  Cell count and positions never change, so a
    /// fully populated grid stays fully populated.
    pub fn update(&mut self)
        requires
            old(self).wf(),
            old(self).populated(),
        ensures
            final(self).wf(),
            final(self).populated(),
            final(self).width == old(self).width,
            final(self).height == old(self).height,
            final(self).current().len() == old(self).current().len(),
            final(self).scratch() == old(self).current(),
            forall|i: int|
                0 <= i < old(self).current().len() ==> {
                    &&& stepped(
                        old(self).current(),
                        #[trigger] final(self).current()[i],
                        i,
                        old(self).width as int,
                        old(self).height as int,
                    )
                    &&& final(self).current()[i].position == old(self).current()[i].position
                },
            old(self).fully_populated() ==> final(self).fully_populated(),
    {
        let width = self.width as usize;
        let height = self.height as usize;
        if !self.ping_pong {
            Self::update_pass(&self.trees_one, &mut self.trees_two, width, height);
        } else {
            Self::update_pass(&self.trees_two, &mut self.trees_one, width, height);
        }
        self.ping_pong = !self.ping_pong;
    }

    /// Force the cell at `idx` into a fresh lightning strike, leaving its
    /// age, its position and every other cell untouched.
    fn strike(buf: &mut Vec<Tree>, idx: usize)
        requires
            idx < old(buf)@.len(),
        ensures
            final(buf)@ == old(buf)@.update(
                idx as int,
                (Tree {
                    age: old(buf)@[idx as int].age,
                    position: old(buf)@[idx as int].position,
                    state: TreeState::Lightning(0),
                }),
            ),
    {
        let t = buf[idx];
        buf.set(idx, Tree { age: t.age, position: t.position, state: TreeState::Lightning(0) });
    }

    /// A lightning strike: pick one cell uniformly among the alive cells
    /// of the current generation and force it into `Lightning(0)`.
    /// Returns the index struck, or `None` — and changes nothing — when
    /// no cell is alive.  A strike never lands on a cell that was not
    /// alive.
    pub fn ignite_random_tree(&mut self) -> (struck: Option<usize>)
        requires
            old(self).wf(),
        ensures
            final(self).wf(),
            final(self).width == old(self).width,
            final(self).height == old(self).height,
            final(self).ping_pong == old(self).ping_pong,
            final(self).scratch() == old(self).scratch(),
            match struck {
                Some(idx) => {
                    &&& idx < old(self).current().len()
                    &&& old(self).current()[idx as int].state is Alive
                    &&& final(self).current() == old(self).current().update(
                        idx as int,
                        (Tree {
                            age: old(self).current()[idx as int].age,
                            position: old(self).current()[idx as int].position,
                            state: TreeState::Lightning(0),
                        }),
                    )
                },
                None => {
                    &&& *final(self) == *old(self)
                    &&& forall|i: int|
                        0 <= i < old(self).current().len() ==> !((#[trigger] old(
                            self,
                        ).current()[i]).state is Alive)
                },
            },
            old(self).fully_populated() ==> final(self).fully_populated(),
    {
        let cur = if !self.ping_pong {
            &self.trees_one
        } else {
            &self.trees_two
        };
        let n = cur.len();
        let mut alive: Vec<usize> = Vec::new();
        let mut i: usize = 0;
        while i < n
            invariant
                i <= n,
                n == cur@.len(),
                alive@.len() <= i,
                cur@ == old(self).current(),
                forall|k: int|
                    0 <= k < alive@.len() ==> (#[trigger] alive@[k]) < i && cur@[alive@[k] as int].state
                        is Alive,
                forall|j: int|
                    0 <= j < i && (#[trigger] cur@[j]).state is Alive ==> exists|k: int|
                        0 <= k < alive@.len() && alive@[k] == j,
            decreases n - i,
        {
            let ghost alive0 = alive@;
            if matches!(cur[i].state, TreeState::Alive) {
                alive.push(i);
            }
            i = i + 1;
            proof {
                assert forall|j: int| 0 <= j < i && (#[trigger] cur@[j]).state is Alive implies
                    exists|k: int| 0 <= k < alive@.len() && alive@[k] == j by {
                    if j < i - 1 {
                        let k0 = choose|k: int| 0 <= k < alive0.len() && alive0[k] == j;
                        assert(alive@[k0] == j);
                    } else {
                        assert(alive@[alive0.len() as int] == j);
                    }
                }
            }
        }
        if alive.len() == 0 {
            return None;
        }
        let pick = roll_below(alive.len() as u32) as usize;
        let idx = alive[pick];
        if !self.ping_pong {
            Self::strike(&mut self.trees_one, idx);
        } else {
            Self::strike(&mut self.trees_two, idx);
        }
        Some(idx)
    }

    /// Serialize the current generation to an RGBA byte array of
    /// width * height pixels: on a fully populated grid the four bytes
    /// from 4 * i on are exactly cell i's color.  A cell whose computed
    /// byte index would fall outside the array is skipped, which the grid
    /// invariant rules out.
    pub fn draw(&self) -> (pixels: Vec<u8>)
        requires
            self.wf(),
        ensures
            pixels@.len() == (self.width as int) * (self.height as int) * 4,
            self.fully_populated() ==> forall|i: int|
                0 <= i < self.current().len() ==> pixels@.subrange(4 * i, 4 * i + 4)
                    == color_bytes(#[trigger] self.current()[i]),
    {
        let total = (self.width * self.height * 4) as usize;
        let mut pixels: Vec<u8> = Vec::new();
        let mut z: usize = 0;
        while z < total
            invariant
                pixels@.len() == z,
                z <= total,
            decreases total - z,
        {
            pixels.push(0);
            z = z + 1;
        }
        let cur = if !self.ping_pong {
            &self.trees_one
        } else {
            &self.trees_two
        };
        let mut k: usize = 0;
        while k < cur.len()
            invariant
                self.wf(),
                cur@ == self.current(),
                k <= cur@.len(),
                pixels@.len() == (self.width as int) * (self.height as int) * 4,
                self.fully_populated() ==> forall|i: int|
                    0 <= i < k ==> pixels@.subrange(4 * i, 4 * i + 4) == color_bytes(
                        #[trigger] cur@[i],
                    ),
            decreases cur@.len() - k,
        {
            let t = cur[k];
            let c = t.draw();
            let x = t.position.x;
            let y = t.position.y;
            proof {
                lemma_cell_index_in_range(
                    y as int,
                    x as int,
                    self.width as int,
                    self.height as int,
                );
            }
            let index = ((y * self.width + x) * 4) as usize;
            if index + 3 < pixels.len() {
                let ghost before = pixels@;
                pixels.set(index, c.r);
                pixels.set(index + 1, c.g);
                pixels.set(index + 2, c.b);
                pixels.set(index + 3, c.a);
                proof {
                    if self.fully_populated() {
                        lemma_row_col(k as int, self.width as int, self.height as int);
                        assert(index as int == 4 * (k as int));
                        assert(pixels@.subrange(4 * (k as int), 4 * (k as int) + 4) =~= color_bytes(
                            cur@[k as int],
                        ));
                        assert forall|i: int|
                            0 <= i < k + 1 implies pixels@.subrange(4 * i, 4 * i + 4)
                            == color_bytes(#[trigger] cur@[i]) by {
                            if i < k {
                                assert(pixels@.subrange(4 * i, 4 * i + 4) =~= before.subrange(
                                    4 * i,
                                    4 * i + 4,
                                ));
                            }
                        }
                    }
                }
            }
            k = k + 1;
        }
        pixels
    }

    /// The current generation and the buffer the next generation will be
    /// written into, in that order.
    pub fn trees_and_buffer(&mut self) -> (r: (&Vec<Tree>, &mut Vec<Tree>))
        ensures
            r.0@ == old(self).current(),
            r.1@ == old(self).scratch(),
            final(self).ping_pong == old(self).ping_pong,
            final(self).width == old(self).width,
            final(self).height == old(self).height,
            final(self).current() == old(self).current(),
            final(self).scratch() == final(r.1)@,
    {
        if !self.ping_pong {
            (&self.trees_one, &mut self.trees_two)
        } else {
            (&self.trees_two, &mut self.trees_one)
        }
    }

    /// Mutable access to the current generation's buffer.
    pub fn trees_mut(&mut self) -> (r: &mut Vec<Tree>)
        ensures
            r@ == old(self).current(),
            final(self).ping_pong == old(self).ping_pong,
            final(self).width == old(self).width,
            final(self).height == old(self).height,
            final(self).current() == final(r)@,
            final(self).scratch() == old(self).scratch(),
    {
        if !self.ping_pong {
            &mut self.trees_one
        } else {
            &mut self.trees_two
        }
    }
}

/// The four RGBA bytes of a cell's color.
pub open spec fn color_bytes(t: Tree) -> Seq<u8> {
    seq![t.color().r, t.color().g, t.color().b, t.color().a]
}

/// Moore neighborhoods have the expected sizes: a corner cell has exactly
/// 3 neighbors, an edge cell that is not a corner exactly 5, and an
/// interior cell exactly 8.
pub proof fn lemma_neighbor_cardinality(idx: int, width: int, height: int)
    requires
        2 <= width,
        2 <= height,
        0 <= idx < width * height,
    ensures
        (row_of(idx, width) == 0 || row_of(idx, width) == height - 1) && (col_of(idx, width) == 0
            || col_of(idx, width) == width - 1) ==> neighbor_indices(idx, width, height).len()
            == 3,
        ((row_of(idx, width) == 0 || row_of(idx, width) == height - 1) != (col_of(idx, width) == 0
            || col_of(idx, width) == width - 1)) ==> neighbor_indices(idx, width, height).len()
            == 5,
        0 < row_of(idx, width) < height - 1 && 0 < col_of(idx, width) < width - 1
            ==> neighbor_indices(idx, width, height).len() == 8,
{
    lemma_row_col(idx, width, height);
}

/// Clipping at the edges never wraps around: every neighbor of the
/// top-left cell lies in the first two rows and first two columns, so on
/// a grid at least 3 wide and 3 high none lies in the last row or column.
pub proof fn lemma_no_wraparound(width: int, height: int)
    requires
        2 <= width,
        2 <= height,
    ensures
        forall|k: int|
            0 <= k < neighbor_indices(0, width, height).len() ==> row_of(
                #[trigger] neighbor_indices(0, width, height)[k],
                width,
            ) <= 1 && col_of(neighbor_indices(0, width, height)[k], width) <= 1,
        3 <= height ==> forall|k: int|
            0 <= k < neighbor_indices(0, width, height).len() ==> row_of(
                #[trigger] neighbor_indices(0, width, height)[k],
                width,
            ) < height - 1,
        3 <= width ==> forall|k: int|
            0 <= k < neighbor_indices(0, width, height).len() ==> col_of(
                #[trigger] neighbor_indices(0, width, height)[k],
                width,
            ) < width - 1,
{
    lemma_fundamental_div_mod_converse(0, width, 0, 0);
    lemma_fundamental_div_mod_converse(1, width, 0, 1);
    lemma_fundamental_div_mod_converse(width, width, 1, 0);
    lemma_fundamental_div_mod_converse(width + 1, width, 1, 1);
    assert(neighbor_indices(0, width, height) =~= seq![1, width, width + 1]);
}

/// On a fully populated grid, distinct cells occupy distinct positions:
/// the buffer covers every grid position exactly once.  Since `update`
/// and `ignite_random_tree` keep the cell count and every position, the
/// population never changes once the grid is filled.
pub proof fn lemma_positions_distinct(f: Forest, i: int, j: int)
    requires
        f.wf(),
        f.fully_populated(),
        0 <= i < f.current().len(),
        0 <= j < f.current().len(),
        i != j,
    ensures
        f.current()[i].position != f.current()[j].position,
{
    lemma_row_col(i, f.width as int, f.height as int);
    lemma_row_col(j, f.width as int, f.height as int);
}

} // verus!
