use vstd::prelude::*;

verus! {

/// The value that marks an empty cell.
pub const EMPTY_CELL: u32 = 0xFFFF_FFFF;

/// The abstract grid: its size and one word per cell, row-major.
pub struct GridView {
    pub width: u32,
    pub height: u32,
    pub cells: Seq<u32>,
}

impl GridView {
    pub open spec fn wf(self) -> bool {
        &&& self.width > 0
        &&& self.height > 0
        &&& self.cells.len() == self.width * self.height
    }

    pub open spec fn in_bounds(self, x: int, y: int) -> bool {
        0 <= x < self.width && 0 <= y < self.height
    }

    pub open spec fn index(self, x: int, y: int) -> int {
        y * self.width + x
    }

    /// The entity id held at `(x, y)`; `None` out of bounds or when empty.
    pub open spec fn occupant(self, x: int, y: int) -> Option<u32> {
        if self.in_bounds(x, y) && self.cells[self.index(x, y)] != EMPTY_CELL {
            Some(self.cells[self.index(x, y)])
        } else {
            None
        }
    }

    /// Whether `(x, y)` counts as taken: out of bounds, or occupied.
    pub open spec fn occupied(self, x: int, y: int) -> bool {
        !self.in_bounds(x, y) || self.cells[self.index(x, y)] != EMPTY_CELL
    }

    /// The number of taken cells among the eight around `(x, y)`.
    pub open spec fn neighbor_count(self, x: int, y: int) -> nat {
        bit(self.occupied(x - 1, y - 1)) + bit(self.occupied(x, y - 1)) + bit(
            self.occupied(x + 1, y - 1),
        ) + bit(self.occupied(x - 1, y)) + bit(self.occupied(x + 1, y)) + bit(
            self.occupied(x - 1, y + 1),
        ) + bit(self.occupied(x, y + 1)) + bit(self.occupied(x + 1, y + 1))
    }

    /// The grid with `(x, y)` holding `id`.
    pub open spec fn set(self, x: int, y: int, id: u32) -> GridView {
        GridView { cells: self.cells.update(self.index(x, y), id), ..self }
    }

    /// The grid with `(x, y)` empty.
    pub open spec fn clear(self, x: int, y: int) -> GridView {
        self.set(x, y, EMPTY_CELL)
    }
}

pub open spec fn bit(b: bool) -> nat {
    if b {
        1
    } else {
        0
    }
}

/// Distinct in-bounds cells have distinct indices, each inside the cell
/// sequence.
pub proof fn lemma_index(g: GridView, x: int, y: int, x2: int, y2: int)
    requires
        g.wf(),
        g.in_bounds(x, y),
    ensures
        0 <= g.index(x, y) < g.cells.len(),
        g.in_bounds(x2, y2) && (x2 != x || y2 != y) ==> g.index(x2, y2) != g.index(x, y),
{
    let w = g.width as int;
    let h = g.height as int;
    assert(0 <= y * w + x < w * h) by (nonlinear_arith)
        requires
            0 <= x < w,
            0 <= y < h,
    ;
    if g.in_bounds(x2, y2) && (x2 != x || y2 != y) {
        assert(y2 * w + x2 != y * w + x) by (nonlinear_arith)
            requires
                0 <= x < w,
                0 <= x2 < w,
                x2 != x || y2 != y,
        ;
    }
}

/// Writing one in-bounds cell changes that cell only.
pub proof fn lemma_set(g: GridView, x: int, y: int, id: u32)
    requires
        g.wf(),
        g.in_bounds(x, y),
    ensures
        g.set(x, y, id).wf(),
        forall|x2: int, y2: int|
            #![trigger g.set(x, y, id).occupied(x2, y2)]
            #![trigger g.set(x, y, id).occupant(x2, y2)]
            (x2 != x || y2 != y) ==> g.set(x, y, id).occupied(x2, y2) == g.occupied(x2, y2)
                && g.set(x, y, id).occupant(x2, y2) == g.occupant(x2, y2),
        g.set(x, y, id).occupied(x, y) == (id != EMPTY_CELL),
        g.set(x, y, id).occupant(x, y) == (if id != EMPTY_CELL {
            Some(id)
        } else {
            None
        }),
{
    lemma_index(g, x, y, x, y);
    assert forall|x2: int, y2: int| (x2 != x || y2 != y) implies g.set(x, y, id).occupied(x2, y2)
        == g.occupied(x2, y2) && g.set(x, y, id).occupant(x2, y2) == g.occupant(x2, y2) by {
        lemma_index(g, x, y, x2, y2);
        if g.in_bounds(x2, y2) {
            lemma_index(g, x2, y2, x2, y2);
        }
    }
}

/// A bounded two-dimensional map from cells to entity ids, with one word
/// per cell and `EMPTY_CELL` for no entity.
pub struct Grid {
    width: u32,
    height: u32,
    cells: Vec<u32>,
}

impl View for Grid {
    type V = GridView;

    closed spec fn view(&self) -> GridView {
        GridView { width: self.width, height: self.height, cells: self.cells@ }
    }
}

impl Grid {
    pub open spec fn wf(&self) -> bool {
        self@.wf()
    }

    /// An empty grid of `width * height` cells.
    pub fn new(width: u32, height: u32) -> (r: Grid)
        requires
            width > 0,
            height > 0,
            width * height <= usize::MAX,
        ensures
            r.wf(),
            r@.width == width,
            r@.height == height,
            forall|x: int, y: int| #[trigger] r@.occupant(x, y) == None::<u32>,
    {
        let n: usize = width as usize * height as usize;
        let cells = vec![EMPTY_CELL; n];
        let r = Grid { width, height, cells };
        assert forall|x: int, y: int| #[trigger] r@.occupant(x, y) == None::<u32> by {
            if r@.in_bounds(x, y) {
                lemma_index(r@, x, y, x, y);
            }
        }
        r
    }

    pub fn width(&self) -> (r: u32)
        ensures
            r == self@.width,
    {
        self.width
    }

    pub fn height(&self) -> (r: u32)
        ensures
            r == self@.height,
    {
        self.height
    }

    fn linear(&self, x: u32, y: u32) -> (r: usize)
        requires
            self.wf(),
            self@.in_bounds(x as int, y as int),
        ensures
            r == self@.index(x as int, y as int),
            r < self.cells@.len(),
    {
        proof {
            lemma_index(self@, x as int, y as int, x as int, y as int);
            assert(self.cells@.len() == self.cells.len());
            assert(0 <= (y as int) * (self.width as int) <= (y as int) * (self.width as int) + x)
                by (nonlinear_arith)
                requires
                    0 <= x,
                    0 <= y,
                    0 <= self.width,
            ;
        }
        y as usize * self.width as usize + x as usize
    }

    /// Whether `(x, y)` is taken; a cell outside the grid counts as taken.
    pub fn get(&self, x: u32, y: u32) -> (r: bool)
        requires
            self.wf(),
        ensures
            r == self@.occupied(x as int, y as int),
    {
        if x >= self.width || y >= self.height {
            return true;
        }
        let i = self.linear(x, y);
        self.cells[i] != EMPTY_CELL
    }

    /// The id held at `(x, y)`, if the cell lies inside the grid and is taken.
    pub fn lookup(&self, x: u32, y: u32) -> (r: Option<u32>)
        requires
            self.wf(),
        ensures
            r == self@.occupant(x as int, y as int),
    {
        if x >= self.width || y >= self.height {
            return None;
        }
        let i = self.linear(x, y);
        let v = self.cells[i];
        if v == EMPTY_CELL {
            None
        } else {
            Some(v)
        }
    }

    /// Writes `id` into the in-bounds cell `(x, y)`.
    pub fn set(&mut self, id: u32, x: u32, y: u32)
        requires
            old(self).wf(),
            old(self)@.in_bounds(x as int, y as int),
        ensures
            final(self).wf(),
            final(self)@ == old(self)@.set(x as int, y as int, id),
    {
        let i = self.linear(x, y);
        self.cells.set(i, id);
    }

    /// Marks the in-bounds cell `(x, y)` empty.
    pub fn clear(&mut self, x: u32, y: u32)
        requires
            old(self).wf(),
            old(self)@.in_bounds(x as int, y as int),
        ensures
            final(self).wf(),
            final(self)@ == old(self)@.clear(x as int, y as int),
    {
        self.set(EMPTY_CELL, x, y);
    }

    fn probe(&self, x: i64, y: i64) -> (r: bool)
        requires
            self.wf(),
        ensures
            r == self@.occupied(x as int, y as int),
    {
        if x < 0 || y < 0 || x >= self.width as i64 || y >= self.height as i64 {
            true
        } else {
            self.get(x as u32, y as u32)
        }
    }

    /// The number of taken cells among the eight around `(x, y)`, cells
    /// outside the grid counting as taken.
    pub fn neighbor_count(&self, x: u32, y: u32) -> (r: usize)
        requires
            self.wf(),
        ensures
            r == self@.neighbor_count(x as int, y as int),
            r <= 8,
    {
        let cx = x as i64;
        let cy = y as i64;
        let mut count: usize = 0;
        if self.probe(cx - 1, cy - 1) {
            count += 1;
        }
        if self.probe(cx, cy - 1) {
            count += 1;
        }
        if self.probe(cx + 1, cy - 1) {
            count += 1;
        }
        if self.probe(cx - 1, cy) {
            count += 1;
        }
        if self.probe(cx + 1, cy) {
            count += 1;
        }
        if self.probe(cx - 1, cy + 1) {
            count += 1;
        }
        if self.probe(cx, cy + 1) {
            count += 1;
        }
        if self.probe(cx + 1, cy + 1) {
            count += 1;
        }
        count
    }
}

/// At a corner of a grid of at least two by two cells, the five cells
/// around it that lie outside the grid count as taken, and the three inside
/// count as they are.
pub proof fn lemma_corner_count(g: GridView, x: int, y: int)
    requires
        g.wf(),
        g.width >= 2,
        g.height >= 2,
        x == 0 || x == g.width - 1,
        y == 0 || y == g.height - 1,
    ensures
        ({
            let dx = if x == 0 {
                1int
            } else {
                -1int
            };
            let dy = if y == 0 {
                1int
            } else {
                -1int
            };
            g.neighbor_count(x, y) == 5 + bit(g.occupied(x + dx, y)) + bit(g.occupied(x, y + dy))
                + bit(g.occupied(x + dx, y + dy))
        }),
{
}

} // verus!
