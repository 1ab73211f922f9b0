use vstd::prelude::*;
use crate::grid::{self, Grid};
use crate::types::Coord;

verus! {

/// The pheromone-like signal layers: one grid of 16-bit strengths per
/// layer.
pub struct Signals {
    pub layers: Vec<Grid>,
}

/// Well-formed signal layers: each layer a well-formed grid of the same
/// dimensions.
pub open spec fn signals_wf(s: Signals, width: u16, height: u16) -> bool {
    forall|k: int| 0 <= k < s.layers@.len() ==> {
        let layer = #[trigger] s.layers@[k];
        &&& grid::grid_wf(layer)
        &&& layer.width == width
        &&& layer.height == height
    }
}

impl Signals {
    /// Signal layers of the given count and dimensions, all zero.
    pub fn new(num_layers: u16, width: u16, height: u16) -> (s: Signals)
        requires
            1 <= width <= 0x7fff,
            1 <= height <= 0x7fff,
        ensures
            s.layers@.len() == num_layers,
            signals_wf(s, width, height),
    {
        let mut layers: Vec<Grid> = Vec::new();
        let mut i: usize = 0;
        while i < num_layers as usize
            invariant
                i <= num_layers as usize,
                layers@.len() == i,
                1 <= width <= 0x7fff,
                1 <= height <= 0x7fff,
                forall|k: int| 0 <= k < i ==> {
                    let layer = #[trigger] layers@[k];
                    &&& grid::grid_wf(layer)
                    &&& layer.width == width
                    &&& layer.height == height
                },
            decreases num_layers as usize - i,
        {
            layers.push(Grid::new(width, height));
            i = i + 1;
        }
        Signals { layers }
    }

    /// The signal strength of one layer at a location.
    pub fn get(&self, layer: usize, location: Coord) -> (r: u16)
        requires
            layer < self.layers@.len(),
            grid::grid_wf(self.layers@[layer as int]),
            grid::spec_in_bounds(self.layers@[layer as int], location),
        ensures
            r == grid::spec_at(self.layers@[layer as int], location.0 as int, location.1 as int),
    {
        self.layers[layer].at_coord(location)
    }

    /// Stores a signal strength in one layer at a location; every other
    /// cell of every layer keeps its strength.
    pub fn set(&mut self, layer: usize, location: Coord, value: u16)
        requires
            layer < old(self).layers@.len(),
            grid::grid_wf(old(self).layers@[layer as int]),
            grid::spec_in_bounds(old(self).layers@[layer as int], location),
        ensures
            final(self).layers@.len() == old(self).layers@.len(),
            forall|k: int| 0 <= k < old(self).layers@.len() && k != layer
                ==> #[trigger] final(self).layers@[k] == old(self).layers@[k],
            grid::grid_wf(final(self).layers@[layer as int]),
            final(self).layers@[layer as int].width == old(self).layers@[layer as int].width,
            final(self).layers@[layer as int].height == old(self).layers@[layer as int].height,
            grid::spec_at(
                final(self).layers@[layer as int],
                location.0 as int,
                location.1 as int,
            ) == value,
            forall|a: int, b: int| 0 <= a < old(self).layers@[layer as int].width
                && 0 <= b < old(self).layers@[layer as int].height
                && !(a == location.0 as int && b == location.1 as int)
                ==> grid::spec_at(final(self).layers@[layer as int], a, b)
                    == grid::spec_at(old(self).layers@[layer as int], a, b),
    {
        let layer_grid = &mut self.layers[layer];
        layer_grid.set_at_coord(location, value);
    }
}

} // verus!
