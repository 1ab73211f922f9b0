use vstd::prelude::*;
use crate::individual::Individual;
use crate::parameters::Parameters;
use crate::signals::Signals;
use crate::world::World;

verus! {

/// The survival challenges a generation can be filtered by.
#[derive(Debug, Clone, Copy, PartialEq, Eq, Structural)]
pub enum Challenges {
    Circle,
}

/// Whether an agent passes the circle challenge: it is alive and its
/// squared distance from the world's centre lies below the radius
/// argument.
pub open spec fn spec_circle_survives(ind: Individual, width: u16, height: u16, radius: int) -> bool {
    let cx = width as int / 2;
    let cy = height as int / 2;
    let dx = cx - ind.location.0 as int;
    let dy = cy - ind.location.1 as int;
    ind.alive && dx * dx + dy * dy < radius
}

/// The circle challenge: an agent survives the generation exactly when
/// it is alive and stands within the given squared distance of the
/// world's centre.
pub fn circle_challenge(
    individual: &Individual,
    world: &World,
    _signals: &Signals,
    _parameters: &Parameters,
    arguments: Vec<i16>,
) -> (r: bool)
    requires
        arguments@.len() >= 1,
    ensures
        r == spec_circle_survives(
            *individual,
            world.grid.width,
            world.grid.height,
            arguments@[0] as int,
        ),
{
    if !individual.alive {
        return false;
    }
    let radius = arguments[0];
    let center_x: i64 = (world.grid.width / 2) as i64;
    let center_y: i64 = (world.grid.height / 2) as i64;
    let dx: i64 = center_x - individual.location.0 as i64;
    let dy: i64 = center_y - individual.location.1 as i64;
    proof {
        assert(dx * dx + dy * dy <= 4 * 0x10000 * 0x10000 && dx * dx >= 0 && dy * dy >= 0)
            by (nonlinear_arith)
            requires
                -0x10000 <= dx <= 0x10000,
                -0x10000 <= dy <= 0x10000,
        ;
    }
    let distance_from_center: i64 = dx * dx + dy * dy;
    distance_from_center < radius as i64
}

} // verus!
