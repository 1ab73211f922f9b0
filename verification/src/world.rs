use vstd::prelude::*;
use crate::grid::{self, Grid};
use crate::types::Coord;

verus! {

/// The simulated world: the occupancy grid the agents live on.
pub struct World {
    pub grid: Grid,
}

impl World {
    /// A world of the given dimensions with every cell empty.
    pub fn new(width: u16, height: u16) -> (w: World)
        requires
            1 <= width <= 0x7fff,
            1 <= height <= 0x7fff,
        ensures
            grid::grid_wf(w.grid),
            w.grid.width == width,
            w.grid.height == height,
            forall|x: int, y: int| 0 <= x < width && 0 <= y < height
                ==> grid::spec_at(w.grid, x, y) == grid::EMPTY_CELL,
    {
        World { grid: Grid::new(width, height) }
    }

    /// Whether a location lies on the grid.
    pub fn is_in_bounds(&self, location: Coord) -> (r: bool)
        requires
            grid::grid_wf(self.grid),
        ensures
            r == grid::spec_in_bounds(self.grid, location),
    {
        self.grid.is_in_bounds(location)
    }

    /// The tag at a location.
    pub fn at_coord(&self, location: Coord) -> (r: u16)
        requires
            grid::grid_wf(self.grid),
            grid::spec_in_bounds(self.grid, location),
        ensures
            r == grid::spec_at(self.grid, location.0 as int, location.1 as int),
    {
        self.grid.at_coord(location)
    }

    /// Stores a tag at a location; every other cell keeps its tag.
    pub fn set_at_coord(&mut self, location: Coord, value: u16)
        requires
            grid::grid_wf(old(self).grid),
            grid::spec_in_bounds(old(self).grid, location),
        ensures
            grid::grid_wf(final(self).grid),
            final(self).grid.width == old(self).grid.width,
            final(self).grid.height == old(self).grid.height,
            grid::spec_at(final(self).grid, location.0 as int, location.1 as int) == value,
            final(self).grid.data@ == old(self).grid.data@.update(
                location.0 as int * old(self).grid.height as int + location.1 as int,
                value,
            ),
            forall|a: int, b: int| 0 <= a < old(self).grid.width && 0 <= b < old(self).grid.height
                && !(a == location.0 as int && b == location.1 as int)
                ==> grid::spec_at(final(self).grid, a, b) == grid::spec_at(old(self).grid, a, b),
    {
        self.grid.set_at_coord(location, value)
    }

    /// Whether the cell at a location is empty.
    pub fn is_empty_at(&self, location: Coord) -> (r: bool)
        requires
            grid::grid_wf(self.grid),
            grid::spec_in_bounds(self.grid, location),
        ensures
            r == (grid::spec_at(self.grid, location.0 as int, location.1 as int)
                == grid::EMPTY_CELL),
    {
        self.grid.is_empty_at(location)
    }

    /// Whether the cell at a location is a barrier.
    pub fn is_barrier_at(&self, location: Coord) -> (r: bool)
        requires
            grid::grid_wf(self.grid),
            grid::spec_in_bounds(self.grid, location),
        ensures
            r == (grid::spec_at(self.grid, location.0 as int, location.1 as int)
                == grid::BARRIER_CELL),
    {
        self.grid.is_barrier_at(location)
    }

    /// Whether the cell at a location holds an occupant index.
    pub fn is_occupied_at(&self, location: Coord) -> (r: bool)
        requires
            grid::grid_wf(self.grid),
            grid::spec_in_bounds(self.grid, location),
        ensures
            r == (grid::spec_at(self.grid, location.0 as int, location.1 as int)
                != grid::EMPTY_CELL
                && grid::spec_at(self.grid, location.0 as int, location.1 as int)
                    != grid::BARRIER_CELL),
    {
        self.grid.is_occupied_at(location)
    }

    /// Sets every cell to empty; dimensions stay as they are.
    pub fn zero_fill(&mut self)
        requires
            grid::grid_wf(old(self).grid),
        ensures
            grid::grid_wf(final(self).grid),
            final(self).grid.width == old(self).grid.width,
            final(self).grid.height == old(self).grid.height,
            forall|x: int, y: int| 0 <= x < old(self).grid.width && 0 <= y < old(self).grid.height
                ==> grid::spec_at(final(self).grid, x, y) == grid::EMPTY_CELL,
            grid::count_empty_cells(final(self).grid.data@) == final(self).grid.data@.len(),
    {
        self.grid.zero_fill()
    }

    /// A uniformly random empty cell.
    pub fn find_random_empty_location(&self) -> (r: Coord)
        requires
            grid::grid_wf(self.grid),
            grid::count_empty_cells(self.grid.data@) > 0,
        ensures
            grid::spec_in_bounds(self.grid, r),
            grid::spec_at(self.grid, r.0 as int, r.1 as int) == grid::EMPTY_CELL,
    {
        self.grid.find_random_empty_location()
    }
}

} // verus!
