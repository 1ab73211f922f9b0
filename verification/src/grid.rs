use vstd::prelude::*;
use crate::rng;
use crate::types::Coord;

verus! {

/// Cell tag of an unoccupied cell.
pub const EMPTY_CELL: u16 = 0;

/// Cell tag of a barrier cell.
pub const BARRIER_CELL: u16 = 0xffff;

/// A dense two-dimensional field of 16-bit cell tags: `EMPTY_CELL`,
/// `BARRIER_CELL`, or a 1-based occupant index into the population.
/// Cells are stored column by column.
pub struct Grid {
    pub width: u16,
    pub height: u16,
    pub data: Vec<u16>,
    pub barrier_locations: Vec<Coord>,
    pub barrier_centers: Vec<Coord>,
}

/// A well-formed grid: positive dimensions that fit a signed 16-bit
/// coordinate, and one stored tag per cell.
pub open spec fn grid_wf(g: Grid) -> bool {
    &&& 1 <= g.width <= 0x7fff
    &&& 1 <= g.height <= 0x7fff
    &&& g.data@.len() == g.width as int * g.height as int
}

/// Whether a location lies on the grid.
pub open spec fn spec_in_bounds(g: Grid, location: Coord) -> bool {
    0 <= location.0 < g.width && 0 <= location.1 < g.height
}

/// The tag stored at a cell.
pub open spec fn spec_at(g: Grid, x: int, y: int) -> u16 {
    g.data@[x * g.height as int + y]
}

/// A cell's place in the stored column-by-column order lies inside the
/// storage.
pub(crate) proof fn lemma_cell_index(width: int, height: int, x: int, y: int)
    by (nonlinear_arith)
    requires
        0 <= x < width,
        0 <= y < height,
    ensures
        0 <= x * height + y < width * height,
{
}

/// How many cells of a tag sequence are empty.
pub open spec fn count_empty_cells(s: Seq<u16>) -> nat
    decreases s.len(),
{
    if s.len() == 0 {
        0
    } else {
        count_empty_cells(s.drop_last()) + if s.last() == EMPTY_CELL { 1nat } else { 0nat }
    }
}

/// Extending a prefix of the tags extends the empty count by that
/// cell's contribution.
pub(crate) proof fn lemma_count_empty_take_step(s: Seq<u16>, i: int)
    requires
        0 <= i < s.len(),
    ensures
        count_empty_cells(s.take(i + 1))
            == count_empty_cells(s.take(i)) + if s[i] == EMPTY_CELL { 1int } else { 0int },
        count_empty_cells(s.take(i)) <= i,
    decreases i,
{
    assert(s.take(i + 1).drop_last() =~= s.take(i));
    assert(s.take(i + 1).last() == s[i]);
    if i > 0 {
        lemma_count_empty_take_step(s, i - 1);
    } else {
        assert(s.take(0) =~= Seq::<u16>::empty());
    }
}

/// A sequence of empty cells counts all of itself.
pub(crate) proof fn lemma_count_empty_full(s: Seq<u16>)
    requires
        forall|j: int| 0 <= j < s.len() ==> s[j] == EMPTY_CELL,
    ensures
        count_empty_cells(s) == s.len(),
    decreases s.len(),
{
    if s.len() > 0 {
        lemma_count_empty_full(s.drop_last());
    }
}

/// Filling one empty cell lowers the empty count by one.
pub(crate) proof fn lemma_count_empty_update(s: Seq<u16>, i: int, v: u16)
    requires
        0 <= i < s.len(),
        s[i] == EMPTY_CELL,
        v != EMPTY_CELL,
    ensures
        count_empty_cells(s.update(i, v)) == count_empty_cells(s) - 1,
    decreases s.len(),
{
    if i == s.len() - 1 {
        assert(s.update(i, v).drop_last() =~= s.drop_last());
        assert(s.update(i, v).last() == v);
    } else {
        lemma_count_empty_update(s.drop_last(), i, v);
        assert(s.update(i, v).drop_last() =~= s.drop_last().update(i, v));
        assert(s.update(i, v).last() == s.last());
    }
}

impl Grid {
    /// A grid of the given dimensions with every cell empty.
    pub fn new(width: u16, height: u16) -> (g: Grid)
        requires
            1 <= width <= 0x7fff,
            1 <= height <= 0x7fff,
        ensures
            grid_wf(g),
            g.width == width,
            g.height == height,
            forall|x: int, y: int| 0 <= x < width && 0 <= y < height ==> spec_at(g, x, y) == EMPTY_CELL,
            forall|j: int| 0 <= j < g.data@.len() ==> g.data@[j] == EMPTY_CELL,
            count_empty_cells(g.data@) == g.data@.len(),
            g.barrier_locations@.len() == 0,
            g.barrier_centers@.len() == 0,
    {
        proof {
            assert((width as int) * (height as int) < 0x40000000) by (nonlinear_arith)
                requires
                    width <= 0x7fff,
                    height <= 0x7fff,
            ;
        }
        let size: usize = (width as usize) * (height as usize);
        let mut data: Vec<u16> = Vec::new();
        let mut i: usize = 0;
        while i < size
            invariant
                i <= size,
                data@.len() == i,
                forall|j: int| 0 <= j < i ==> data@[j] == EMPTY_CELL,
            decreases size - i,
        {
            data.push(EMPTY_CELL);
            i = i + 1;
        }
        let g = Grid { width, height, data, barrier_locations: Vec::new(), barrier_centers: Vec::new() };
        proof {
            lemma_count_empty_full(g.data@);
            assert forall|x: int, y: int| 0 <= x < width && 0 <= y < height implies spec_at(
                g,
                x,
                y,
            ) == EMPTY_CELL by {
                lemma_cell_index(width as int, height as int, x, y);
            }
        }
        g
    }

    /// The tag at a cell given by its two coordinates.
    pub fn at(&self, x: u16, y: u16) -> (r: u16)
        requires
            grid_wf(*self),
            x < self.width,
            y < self.height,
        ensures
            r == spec_at(*self, x as int, y as int),
    {
        let n = self.data.len();
        proof {
            lemma_cell_index(self.width as int, self.height as int, x as int, y as int);
        }
        self.data[(x as usize) * (self.height as usize) + (y as usize)]
    }

    /// The tag at a location.
    pub fn at_coord(&self, location: Coord) -> (r: u16)
        requires
            grid_wf(*self),
            spec_in_bounds(*self, location),
        ensures
            r == spec_at(*self, location.0 as int, location.1 as int),
    {
        self.at(location.0 as u16, location.1 as u16)
    }

    /// Stores a tag at a cell given by its two coordinates; every other
    /// cell keeps its tag.
    pub fn set_at(&mut self, x: u16, y: u16, value: u16)
        requires
            grid_wf(*old(self)),
            x < old(self).width,
            y < old(self).height,
        ensures
            grid_wf(*final(self)),
            final(self).width == old(self).width,
            final(self).height == old(self).height,
            final(self).barrier_locations == old(self).barrier_locations,
            final(self).barrier_centers == old(self).barrier_centers,
            spec_at(*final(self), x as int, y as int) == value,
            final(self).data@ == old(self).data@.update(
                x as int * old(self).height as int + y as int,
                value,
            ),
            forall|a: int, b: int| 0 <= a < old(self).width && 0 <= b < old(self).height
                && !(a == x as int && b == y as int)
                ==> spec_at(*final(self), a, b) == spec_at(*old(self), a, b),
    {
        let n = self.data.len();
        proof {
            lemma_cell_index(self.width as int, self.height as int, x as int, y as int);
        }
        let idx: usize = (x as usize) * (self.height as usize) + (y as usize);
        self.data[idx] = value;
        proof {
            assert forall|a: int, b: int| 0 <= a < old(self).width && 0 <= b < old(self).height
                && !(a == x as int && b == y as int) implies spec_at(*self, a, b) == spec_at(
                *old(self),
                a,
                b,
            ) by {
                lemma_cell_index(self.width as int, self.height as int, a, b);
                let w = old(self).width as int;
                let h = old(self).height as int;
                let xi = x as int;
                let yi = y as int;
                // Distinct cells use distinct places in the storage.
                assert(a * h + b != xi * h + yi) by (nonlinear_arith)
                    requires
                        0 <= a < w,
                        0 <= b < h,
                        0 <= xi < w,
                        0 <= yi < h,
                        !(a == xi && b == yi),
                        h >= 1,
                ;
            }
        }
    }

    /// Stores a tag at a location; every other cell keeps its tag.
    pub fn set_at_coord(&mut self, location: Coord, value: u16)
        requires
            grid_wf(*old(self)),
            spec_in_bounds(*old(self), location),
        ensures
            grid_wf(*final(self)),
            final(self).width == old(self).width,
            final(self).height == old(self).height,
            final(self).barrier_locations == old(self).barrier_locations,
            final(self).barrier_centers == old(self).barrier_centers,
            spec_at(*final(self), location.0 as int, location.1 as int) == value,
            final(self).data@ == old(self).data@.update(
                location.0 as int * old(self).height as int + location.1 as int,
                value,
            ),
            forall|a: int, b: int| 0 <= a < old(self).width && 0 <= b < old(self).height
                && !(a == location.0 as int && b == location.1 as int)
                ==> spec_at(*final(self), a, b) == spec_at(*old(self), a, b),
    {
        self.set_at(location.0 as u16, location.1 as u16, value)
    }

    /// Whether a location lies on the grid, checking both the lower and
    /// the upper bound of each component.
    pub fn is_in_bounds(&self, location: Coord) -> (r: bool)
        requires
            grid_wf(*self),
        ensures
            r == spec_in_bounds(*self, location),
    {
        location.0 >= 0 && location.0 < self.width as i16 && location.1 >= 0
            && location.1 < self.height as i16
    }

    /// Whether the cell at a location is empty.
    pub fn is_empty_at(&self, location: Coord) -> (r: bool)
        requires
            grid_wf(*self),
            spec_in_bounds(*self, location),
        ensures
            r == (spec_at(*self, location.0 as int, location.1 as int) == EMPTY_CELL),
    {
        self.at_coord(location) == EMPTY_CELL
    }

    /// Whether the cell at a location is a barrier.
    pub fn is_barrier_at(&self, location: Coord) -> (r: bool)
        requires
            grid_wf(*self),
            spec_in_bounds(*self, location),
        ensures
            r == (spec_at(*self, location.0 as int, location.1 as int) == BARRIER_CELL),
    {
        self.at_coord(location) == BARRIER_CELL
    }

    /// Whether the cell at a location holds an occupant index.
    pub fn is_occupied_at(&self, location: Coord) -> (r: bool)
        requires
            grid_wf(*self),
            spec_in_bounds(*self, location),
        ensures
            r == (spec_at(*self, location.0 as int, location.1 as int) != EMPTY_CELL
                && spec_at(*self, location.0 as int, location.1 as int) != BARRIER_CELL),
    {
        !(self.is_empty_at(location) || self.is_barrier_at(location))
    }

    /// Whether a location lies on the outermost ring of the grid.
    pub fn is_border_at(&self, location: Coord) -> (r: bool)
        requires
            grid_wf(*self),
            spec_in_bounds(*self, location),
        ensures
            r == (location.0 == 0 || location.0 == self.width - 1 || location.1 == 0
                || location.1 == self.height - 1),
    {
        location.0 == 0 || location.0 == self.width as i16 - 1 || location.1 == 0
            || location.1 == self.height as i16 - 1
    }

    /// Sets every cell to empty; dimensions stay as they are.
    pub fn zero_fill(&mut self)
        requires
            grid_wf(*old(self)),
        ensures
            grid_wf(*final(self)),
            final(self).width == old(self).width,
            final(self).height == old(self).height,
            final(self).barrier_locations == old(self).barrier_locations,
            final(self).barrier_centers == old(self).barrier_centers,
            forall|x: int, y: int| 0 <= x < old(self).width && 0 <= y < old(self).height
                ==> spec_at(*final(self), x, y) == EMPTY_CELL,
            count_empty_cells(final(self).data@) == final(self).data@.len(),
    {
        let width = self.width;
        let height = self.height;
        let fresh = Grid::new(width, height);
        let ghost fresh_view = fresh;
        self.data = fresh.data;
        proof {
            assert forall|x: int, y: int| 0 <= x < old(self).width && 0 <= y < old(self).height
                implies spec_at(*self, x, y) == EMPTY_CELL by {
                assert(spec_at(*self, x, y) == spec_at(fresh_view, x, y));
            }
        }
    }

    /// How many cells are empty.
    pub fn count_empty(&self) -> (r: usize)
        requires
            grid_wf(*self),
        ensures
            r == count_empty_cells(self.data@),
    {
        let mut count: usize = 0;
        let mut i: usize = 0;
        proof {
            assert(self.data@.take(0) =~= Seq::<u16>::empty());
            assert(count_empty_cells(Seq::<u16>::empty()) == 0);
        }
        while i < self.data.len()
            invariant
                i <= self.data@.len(),
                count == count_empty_cells(self.data@.take(i as int)),
                count <= i,
            decreases self.data@.len() - i,
        {
            proof {
                lemma_count_empty_take_step(self.data@, i as int);
            }
            if self.data[i] == EMPTY_CELL {
                count = count + 1;
            }
            i = i + 1;
        }
        proof {
            assert(self.data@.take(self.data@.len() as int) =~= self.data@);
        }
        count
    }

    /// A uniformly random empty cell: one empty cell is drawn by rank
    /// among all empty cells.
    pub fn find_random_empty_location(&self) -> (r: Coord)
        requires
            grid_wf(*self),
            count_empty_cells(self.data@) > 0,
        ensures
            spec_in_bounds(*self, r),
            spec_at(*self, r.0 as int, r.1 as int) == EMPTY_CELL,
    {
        let total = self.count_empty();
        proof {
            let n = self.data@.len() as int;
            lemma_count_empty_take_step(self.data@, n - 1);
            assert(self.data@.take(n) =~= self.data@);
            assert((self.width as int) * (self.height as int) < 0x40000000) by (nonlinear_arith)
                requires
                    self.width <= 0x7fff,
                    self.height <= 0x7fff,
            ;
        }
        let rank: usize = rng::random_below(total as u32) as usize;
        let mut seen: usize = 0;
        let mut i: usize = 0;
        proof {
            assert(self.data@.take(0) =~= Seq::<u16>::empty());
            assert(count_empty_cells(Seq::<u16>::empty()) == 0);
        }
        while i < self.data.len()
            invariant
                grid_wf(*self),
                i <= self.data@.len(),
                seen == count_empty_cells(self.data@.take(i as int)),
                seen <= rank,
                rank < count_empty_cells(self.data@),
            decreases self.data@.len() - i,
        {
            proof {
                lemma_count_empty_take_step(self.data@, i as int);
            }
            if self.data[i] == EMPTY_CELL {
                if seen == rank {
                    let x: usize = i / (self.height as usize);
                    let y: usize = i % (self.height as usize);
                    proof {
                        vstd::arithmetic::div_mod::lemma_fundamental_div_mod(
                            i as int,
                            self.height as int,
                        );
                        vstd::arithmetic::div_mod::lemma_mod_pos_bound(i as int, self.height as int);
                        assert(x as int * self.height as int + y as int == i as int
                            && x < self.width as int && y < self.height as int) by (nonlinear_arith)
                            requires
                                i as int == self.height as int * (x as int) + (y as int),
                                0 <= (y as int) && (y as int) < self.height as int,
                                (i as int) < self.width as int * self.height as int,
                                0 <= (i as int),
                                1 <= self.height as int,
                        ;
                    }
                    return Coord(x as i16, y as i16);
                }
                seen = seen + 1;
            }
            i = i + 1;
        }
        proof {
            assert(self.data@.take(self.data@.len() as int) =~= self.data@);
            assert(false);
        }
        Coord(0, 0)
    }

    /// Every location of the axis-aligned square of the given radius
    /// around a location that lies on the grid, each exactly once.
    pub fn apply_neighborhood_to_f(&self, location: Coord, radius: i16) -> (r: Vec<Coord>)
        requires
            grid_wf(*self),
            0 <= radius,
        ensures
            forall|k: int| 0 <= k < r@.len() ==> spec_in_bounds(*self, #[trigger] r@[k])
                && location.0 - radius <= r@[k].0 <= location.0 + radius
                && location.1 - radius <= r@[k].1 <= location.1 + radius,
            forall|c: Coord| spec_in_bounds(*self, c)
                && location.0 - radius <= c.0 <= location.0 + radius
                && location.1 - radius <= c.1 <= location.1 + radius
                ==> r@.contains(c),
            forall|k1: int, k2: int| 0 <= k1 < k2 < r@.len() ==> r@[k1] != r@[k2],
    {
        let mut result: Vec<Coord> = Vec::new();
        let x_lo: i32 = location.0 as i32 - radius as i32;
        let x_hi: i32 = location.0 as i32 + radius as i32;
        let mut x: i32 = x_lo;
        while x <= x_hi
            invariant
                grid_wf(*self),
                x_lo == location.0 - radius,
                x_hi == location.0 + radius,
                x_lo <= x <= x_hi + 1,
                forall|k: int| 0 <= k < result@.len() ==> spec_in_bounds(*self, #[trigger] result@[k])
                    && location.0 - radius <= result@[k].0 <= location.0 + radius
                    && location.1 - radius <= result@[k].1 <= location.1 + radius
                    && result@[k].0 < x,
                forall|c: Coord| spec_in_bounds(*self, c)
                    && location.0 - radius <= c.0 <= location.0 + radius && c.0 < x
                    && location.1 - radius <= c.1 <= location.1 + radius
                    ==> result@.contains(c),
                forall|k1: int, k2: int| 0 <= k1 < k2 < result@.len() ==> result@[k1] != result@[k2],
            decreases x_hi - x + 1,
        {
            let y_lo: i32 = location.1 as i32 - radius as i32;
            let y_hi: i32 = location.1 as i32 + radius as i32;
            let mut y: i32 = y_lo;
            while y <= y_hi
                invariant
                    grid_wf(*self),
                    x_lo == location.0 - radius,
                    x_hi == location.0 + radius,
                    x_lo <= x <= x_hi,
                    y_lo == location.1 - radius,
                    y_hi == location.1 + radius,
                    y_lo <= y <= y_hi + 1,
                    forall|k: int| 0 <= k < result@.len() ==> spec_in_bounds(*self, #[trigger] result@[k])
                        && location.0 - radius <= result@[k].0 <= location.0 + radius
                        && location.1 - radius <= result@[k].1 <= location.1 + radius
                        && (result@[k].0 < x || (result@[k].0 == x && result@[k].1 < y)),
                    forall|c: Coord| spec_in_bounds(*self, c)
                        && location.0 - radius <= c.0 <= location.0 + radius
                        && location.1 - radius <= c.1 <= location.1 + radius
                        && (c.0 < x || (c.0 == x && c.1 < y))
                        ==> result@.contains(c),
                    forall|k1: int, k2: int| 0 <= k1 < k2 < result@.len() ==> result@[k1] != result@[k2],
                decreases y_hi - y + 1,
            {
                if x >= 0 && x < self.width as i32 && y >= 0 && y < self.height as i32 {
                    let ghost pre = result@;
                    result.push(Coord(x as i16, y as i16));
                    proof {
                        assert forall|c: Coord| spec_in_bounds(*self, c)
                            && location.0 - radius <= c.0 <= location.0 + radius
                            && location.1 - radius <= c.1 <= location.1 + radius
                            && (c.0 < x || (c.0 == x && c.1 < y + 1)) implies result@.contains(c) by {
                            if c.0 == x as i16 && c.1 == y as i16 {
                                assert(result@[result@.len() - 1] == c);
                            } else {
                                assert(pre.contains(c));
                                let k = choose|k: int| 0 <= k < pre.len() && pre[k] == c;
                                assert(result@[k] == c);
                            }
                        }
                    }
                }
                y = y + 1;
            }
            x = x + 1;
        }
        result
    }
}

} // verus!
