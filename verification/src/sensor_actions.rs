use vstd::prelude::*;
use vstd::string::StringExecFns;
use crate::grid::{self, Grid};
use crate::types::{spec_coord_of_dir, Coord, Dir};
use crate::world::World;

verus! {

/// How many sensors a brain can read.
pub const NUM_SENSORS: u8 = 21;

/// How many actions a brain can drive.
pub const NUM_ACTIONS: u8 = 16;

/// The inputs a brain can read.  Each sensor measures one aspect of the
/// agent or of the world around it.
#[derive(Debug, Clone, Copy, PartialEq, Eq, Structural)]
pub enum Sensor {
    LocX,
    LocY,
    BoundaryDistX,
    BoundaryDist,
    BoundaryDistY,
    GeneticSimFwd,
    LastMoveDirX,
    LastMoveDirY,
    LongProbePopFwd,
    LongProbeBarFwd,
    Population,
    PopulationFwd,
    PopulationLR,
    Osc1,
    Age,
    BarrierFwd,
    BarrierLR,
    Rnd,
    Signal0,
    Signal0Fwd,
    Signal0LR,
}

/// The effects a brain output can trigger: movement urges and changes to
/// the agent's own state.
#[derive(Debug, Clone, Copy, PartialEq, Eq, Structural)]
pub enum Action {
    MoveX,
    MoveY,
    MoveForward,
    MoveRL,
    MoveRandom,
    SetOscillatorPeriod,
    SetLongProbeDist,
    SetResponsiveness,
    EmitSignal0,
    MoveEast,
    MoveWest,
    MoveNorth,
    MoveSouth,
    MoveLeft,
    MoveRight,
    MoveReverse,
    KillForward,
}

/// The sensor that a renumbered source index selects.
pub open spec fn spec_sensor_of_index(i: int) -> Sensor {
    if i == 0 { Sensor::LocX }
    else if i == 1 { Sensor::LocY }
    else if i == 2 { Sensor::BoundaryDistX }
    else if i == 3 { Sensor::BoundaryDist }
    else if i == 4 { Sensor::BoundaryDistY }
    else if i == 5 { Sensor::GeneticSimFwd }
    else if i == 6 { Sensor::LastMoveDirX }
    else if i == 7 { Sensor::LastMoveDirY }
    else if i == 8 { Sensor::LongProbePopFwd }
    else if i == 9 { Sensor::LongProbeBarFwd }
    else if i == 10 { Sensor::Population }
    else if i == 11 { Sensor::PopulationFwd }
    else if i == 12 { Sensor::PopulationLR }
    else if i == 13 { Sensor::Osc1 }
    else if i == 14 { Sensor::Age }
    else if i == 15 { Sensor::BarrierFwd }
    else if i == 16 { Sensor::BarrierLR }
    else if i == 17 { Sensor::Rnd }
    else if i == 18 { Sensor::Signal0 }
    else if i == 19 { Sensor::Signal0Fwd }
    else { Sensor::Signal0LR }
}

/// The action that a renumbered sink index selects.
pub open spec fn spec_action_of_index(i: int) -> Action {
    if i == 0 { Action::MoveX }
    else if i == 1 { Action::MoveY }
    else if i == 2 { Action::MoveForward }
    else if i == 3 { Action::MoveRL }
    else if i == 4 { Action::MoveRandom }
    else if i == 5 { Action::SetOscillatorPeriod }
    else if i == 6 { Action::SetLongProbeDist }
    else if i == 7 { Action::SetResponsiveness }
    else if i == 8 { Action::EmitSignal0 }
    else if i == 9 { Action::MoveEast }
    else if i == 10 { Action::MoveWest }
    else if i == 11 { Action::MoveNorth }
    else if i == 12 { Action::MoveSouth }
    else if i == 13 { Action::MoveLeft }
    else if i == 14 { Action::MoveRight }
    else { Action::MoveReverse }
}

/// The sensor of an index below `NUM_SENSORS`, in the enabled order.
pub fn sensor_of_index(i: u8) -> (r: Sensor)
    requires
        i < NUM_SENSORS,
    ensures
        r == spec_sensor_of_index(i as int),
{
    if i == 0 { Sensor::LocX }
    else if i == 1 { Sensor::LocY }
    else if i == 2 { Sensor::BoundaryDistX }
    else if i == 3 { Sensor::BoundaryDist }
    else if i == 4 { Sensor::BoundaryDistY }
    else if i == 5 { Sensor::GeneticSimFwd }
    else if i == 6 { Sensor::LastMoveDirX }
    else if i == 7 { Sensor::LastMoveDirY }
    else if i == 8 { Sensor::LongProbePopFwd }
    else if i == 9 { Sensor::LongProbeBarFwd }
    else if i == 10 { Sensor::Population }
    else if i == 11 { Sensor::PopulationFwd }
    else if i == 12 { Sensor::PopulationLR }
    else if i == 13 { Sensor::Osc1 }
    else if i == 14 { Sensor::Age }
    else if i == 15 { Sensor::BarrierFwd }
    else if i == 16 { Sensor::BarrierLR }
    else if i == 17 { Sensor::Rnd }
    else if i == 18 { Sensor::Signal0 }
    else if i == 19 { Sensor::Signal0Fwd }
    else { Sensor::Signal0LR }
}

/// The action of an index below `NUM_ACTIONS`, in the enabled order.
pub fn action_of_index(i: u8) -> (r: Action)
    requires
        i < NUM_ACTIONS,
    ensures
        r == spec_action_of_index(i as int),
{
    if i == 0 { Action::MoveX }
    else if i == 1 { Action::MoveY }
    else if i == 2 { Action::MoveForward }
    else if i == 3 { Action::MoveRL }
    else if i == 4 { Action::MoveRandom }
    else if i == 5 { Action::SetOscillatorPeriod }
    else if i == 6 { Action::SetLongProbeDist }
    else if i == 7 { Action::SetResponsiveness }
    else if i == 8 { Action::EmitSignal0 }
    else if i == 9 { Action::MoveEast }
    else if i == 10 { Action::MoveWest }
    else if i == 11 { Action::MoveNorth }
    else if i == 12 { Action::MoveSouth }
    else if i == 13 { Action::MoveLeft }
    else if i == 14 { Action::MoveRight }
    else { Action::MoveReverse }
}

/// The descriptive name of a sensor.
pub open spec fn spec_sensor_name(s: Sensor) -> Seq<char> {
    match s {
        Sensor::LocX => "loc X"@,
        Sensor::LocY => "loc Y"@,
        Sensor::BoundaryDistX => "boundary dist X"@,
        Sensor::BoundaryDist => "boundary dist"@,
        Sensor::BoundaryDistY => "boundary dist Y"@,
        Sensor::GeneticSimFwd => "genetic simimlarity fwd"@,
        Sensor::LastMoveDirX => "last move dir X"@,
        Sensor::LastMoveDirY => "last move dir Y"@,
        Sensor::LongProbePopFwd => "long probe population fwd"@,
        Sensor::LongProbeBarFwd => "long probe barrier fwd"@,
        Sensor::Population => "population"@,
        Sensor::PopulationFwd => "population fwd"@,
        Sensor::PopulationLR => "population left-right"@,
        Sensor::Osc1 => "oscillator 1"@,
        Sensor::Age => "age"@,
        Sensor::BarrierFwd => "barrier fwd"@,
        Sensor::BarrierLR => "barrier left-right"@,
        Sensor::Rnd => "random"@,
        Sensor::Signal0 => "signal 0"@,
        Sensor::Signal0Fwd => "signal 0 fwd"@,
        Sensor::Signal0LR => "signal 0 left-right"@,
    }
}

/// The descriptive name of an action.
pub open spec fn spec_action_name(a: Action) -> Seq<char> {
    match a {
        Action::MoveX => "move X"@,
        Action::MoveY => "move Y"@,
        Action::MoveForward => "move forward"@,
        Action::MoveRL => "move R-L"@,
        Action::MoveRandom => "move random"@,
        Action::SetOscillatorPeriod => "set oscillator period"@,
        Action::SetLongProbeDist => "set long probe dist"@,
        Action::SetResponsiveness => "set responsiveness"@,
        Action::EmitSignal0 => "emit signal 0"@,
        Action::MoveEast => "move east"@,
        Action::MoveWest => "move west"@,
        Action::MoveNorth => "move north"@,
        Action::MoveSouth => "move south"@,
        Action::MoveLeft => "move left"@,
        Action::MoveRight => "move right"@,
        Action::MoveReverse => "move reverse"@,
        Action::KillForward => "kill forward"@,
    }
}

/// The short code of a sensor, used when a net is rendered.
pub open spec fn spec_sensor_short_name(s: Sensor) -> Seq<char> {
    match s {
        Sensor::LocX => "Lx"@,
        Sensor::LocY => "Ly"@,
        Sensor::BoundaryDistX => "EDx"@,
        Sensor::BoundaryDist => "ED"@,
        Sensor::BoundaryDistY => "EDy"@,
        Sensor::GeneticSimFwd => "Gen"@,
        Sensor::LastMoveDirX => "LMx"@,
        Sensor::LastMoveDirY => "LMy"@,
        Sensor::LongProbePopFwd => "LPf"@,
        Sensor::LongProbeBarFwd => "LPb"@,
        Sensor::Population => "Pop"@,
        Sensor::PopulationFwd => "Pfd"@,
        Sensor::PopulationLR => "Plr"@,
        Sensor::Osc1 => "Osc"@,
        Sensor::Age => "Age"@,
        Sensor::BarrierFwd => "Bfd"@,
        Sensor::BarrierLR => "Blr"@,
        Sensor::Rnd => "Rnd"@,
        Sensor::Signal0 => "Sg"@,
        Sensor::Signal0Fwd => "Sfd"@,
        Sensor::Signal0LR => "Slr"@,
    }
}

/// The short code of an action, used when a net is rendered.
pub open spec fn spec_action_short_name(a: Action) -> Seq<char> {
    match a {
        Action::MoveX => "MvX"@,
        Action::MoveY => "MvY"@,
        Action::MoveForward => "MvF"@,
        Action::MoveRL => "MRL"@,
        Action::MoveRandom => "Mrn"@,
        Action::SetOscillatorPeriod => "OSC"@,
        Action::SetLongProbeDist => "LPD"@,
        Action::SetResponsiveness => "Res"@,
        Action::EmitSignal0 => "SG"@,
        Action::MoveEast => "MvE"@,
        Action::MoveWest => "MvW"@,
        Action::MoveNorth => "MvN"@,
        Action::MoveSouth => "MvS"@,
        Action::MoveLeft => "MvL"@,
        Action::MoveRight => "MvR"@,
        Action::MoveReverse => "Mrv"@,
        Action::KillForward => "Klf"@,
    }
}

impl Sensor {
    /// The descriptive name of this sensor.
    pub fn get_name(&self) -> (r: String)
        ensures
            r@ == spec_sensor_name(*self),
    {
        match self {
            Sensor::LocX => String::from_str("loc X"),
            Sensor::LocY => String::from_str("loc Y"),
            Sensor::BoundaryDistX => String::from_str("boundary dist X"),
            Sensor::BoundaryDist => String::from_str("boundary dist"),
            Sensor::BoundaryDistY => String::from_str("boundary dist Y"),
            Sensor::GeneticSimFwd => String::from_str("genetic simimlarity fwd"),
            Sensor::LastMoveDirX => String::from_str("last move dir X"),
            Sensor::LastMoveDirY => String::from_str("last move dir Y"),
            Sensor::LongProbePopFwd => String::from_str("long probe population fwd"),
            Sensor::LongProbeBarFwd => String::from_str("long probe barrier fwd"),
            Sensor::Population => String::from_str("population"),
            Sensor::PopulationFwd => String::from_str("population fwd"),
            Sensor::PopulationLR => String::from_str("population left-right"),
            Sensor::Osc1 => String::from_str("oscillator 1"),
            Sensor::Age => String::from_str("age"),
            Sensor::BarrierFwd => String::from_str("barrier fwd"),
            Sensor::BarrierLR => String::from_str("barrier left-right"),
            Sensor::Rnd => String::from_str("random"),
            Sensor::Signal0 => String::from_str("signal 0"),
            Sensor::Signal0Fwd => String::from_str("signal 0 fwd"),
            Sensor::Signal0LR => String::from_str("signal 0 left-right"),
        }
    }

    /// The short code of this sensor.
    pub fn to_text(&self) -> (r: String)
        ensures
            r@ == spec_sensor_short_name(*self),
    {
        match self {
            Sensor::LocX => String::from_str("Lx"),
            Sensor::LocY => String::from_str("Ly"),
            Sensor::BoundaryDistX => String::from_str("EDx"),
            Sensor::BoundaryDist => String::from_str("ED"),
            Sensor::BoundaryDistY => String::from_str("EDy"),
            Sensor::GeneticSimFwd => String::from_str("Gen"),
            Sensor::LastMoveDirX => String::from_str("LMx"),
            Sensor::LastMoveDirY => String::from_str("LMy"),
            Sensor::LongProbePopFwd => String::from_str("LPf"),
            Sensor::LongProbeBarFwd => String::from_str("LPb"),
            Sensor::Population => String::from_str("Pop"),
            Sensor::PopulationFwd => String::from_str("Pfd"),
            Sensor::PopulationLR => String::from_str("Plr"),
            Sensor::Osc1 => String::from_str("Osc"),
            Sensor::Age => String::from_str("Age"),
            Sensor::BarrierFwd => String::from_str("Bfd"),
            Sensor::BarrierLR => String::from_str("Blr"),
            Sensor::Rnd => String::from_str("Rnd"),
            Sensor::Signal0 => String::from_str("Sg"),
            Sensor::Signal0Fwd => String::from_str("Sfd"),
            Sensor::Signal0LR => String::from_str("Slr"),
        }
    }
}

impl Action {
    /// The short code of this action.
    pub fn to_text(&self) -> (r: String)
        ensures
            r@ == spec_action_short_name(*self),
    {
        match self {
            Action::MoveX => String::from_str("MvX"),
            Action::MoveY => String::from_str("MvY"),
            Action::MoveForward => String::from_str("MvF"),
            Action::MoveRL => String::from_str("MRL"),
            Action::MoveRandom => String::from_str("Mrn"),
            Action::SetOscillatorPeriod => String::from_str("OSC"),
            Action::SetLongProbeDist => String::from_str("LPD"),
            Action::SetResponsiveness => String::from_str("Res"),
            Action::EmitSignal0 => String::from_str("SG"),
            Action::MoveEast => String::from_str("MvE"),
            Action::MoveWest => String::from_str("MvW"),
            Action::MoveNorth => String::from_str("MvN"),
            Action::MoveSouth => String::from_str("MvS"),
            Action::MoveLeft => String::from_str("MvL"),
            Action::MoveRight => String::from_str("MvR"),
            Action::MoveReverse => String::from_str("Mrv"),
            Action::KillForward => String::from_str("Klf"),
        }
    }

    /// The descriptive name of this action.
    pub fn get_name(&self) -> (r: String)
        ensures
            r@ == spec_action_name(*self),
    {
        match self {
            Action::MoveX => String::from_str("move X"),
            Action::MoveY => String::from_str("move Y"),
            Action::MoveForward => String::from_str("move forward"),
            Action::MoveRL => String::from_str("move R-L"),
            Action::MoveRandom => String::from_str("move random"),
            Action::SetOscillatorPeriod => String::from_str("set oscillator period"),
            Action::SetLongProbeDist => String::from_str("set long probe dist"),
            Action::SetResponsiveness => String::from_str("set responsiveness"),
            Action::EmitSignal0 => String::from_str("emit signal 0"),
            Action::MoveEast => String::from_str("move east"),
            Action::MoveWest => String::from_str("move west"),
            Action::MoveNorth => String::from_str("move north"),
            Action::MoveSouth => String::from_str("move south"),
            Action::MoveLeft => String::from_str("move left"),
            Action::MoveRight => String::from_str("move right"),
            Action::MoveReverse => String::from_str("move reverse"),
            Action::KillForward => String::from_str("kill forward"),
        }
    }
}

/// One probing step away from a location.
pub open spec fn spec_probe_step(loc: Coord, step: Coord) -> Coord {
    Coord((loc.0 + step.0) as i16, (loc.1 + step.1) as i16)
}

/// The population probe: how many empty cells lie under the scan before
/// it meets an occupant, counting from `range - remaining` and walking
/// by `step`; a scan that runs off the grid, meets a barrier, or runs
/// out of range reports the full range.
pub open spec fn spec_probe_population(g: Grid, loc: Coord, step: Coord, remaining: nat, range: nat) -> nat
    decreases remaining,
{
    if remaining == 0 {
        range
    } else if !grid::spec_in_bounds(g, loc) {
        range
    } else if grid::spec_at(g, loc.0 as int, loc.1 as int) != grid::EMPTY_CELL {
        if grid::spec_at(g, loc.0 as int, loc.1 as int) == grid::BARRIER_CELL {
            range
        } else {
            (range - remaining) as nat
        }
    } else {
        spec_probe_population(g, spec_probe_step(loc, step), step, (remaining - 1) as nat, range)
    }
}

/// The barrier probe: how many passable cells lie under the scan before
/// it meets a barrier, counting from `range - remaining` and walking by
/// `step`; a scan that runs off the grid or out of range reports the
/// full range.
pub open spec fn spec_probe_barrier(g: Grid, loc: Coord, step: Coord, remaining: nat, range: nat) -> nat
    decreases remaining,
{
    if remaining == 0 {
        range
    } else if !grid::spec_in_bounds(g, loc) {
        range
    } else if grid::spec_at(g, loc.0 as int, loc.1 as int) == grid::BARRIER_CELL {
        (range - remaining) as nat
    } else {
        spec_probe_barrier(g, spec_probe_step(loc, step), step, (remaining - 1) as nat, range)
    }
}

/// Scans from a starting cell along a heading, up to `range` cells, and
/// reports how many empty cells pass before the first occupant; the full
/// range when the scan runs off the grid, meets a barrier, or exhausts
/// its range first.
pub fn long_probe_population_forward_sensor(start_location: Coord, direction: Dir, range: u32, world: &World) -> (r: u32)
    requires
        grid::grid_wf(world.grid),
    ensures
        r == spec_probe_population(
            world.grid,
            start_location,
            spec_coord_of_dir(direction),
            range as nat,
            range as nat,
        ),
        r <= range,
{
    let step: Coord = Coord::from(direction);
    let mut location = start_location;
    let mut count: u32 = 0;
    while count < range && world.is_in_bounds(location) && world.is_empty_at(location)
        invariant
            grid::grid_wf(world.grid),
            count <= range,
            step == spec_coord_of_dir(direction),
            spec_probe_population(world.grid, start_location, step, range as nat, range as nat)
                == spec_probe_population(
                world.grid,
                location,
                step,
                (range - count) as nat,
                range as nat,
            ),
        decreases range - count,
    {
        location = location.add(step);
        count = count + 1;
    }
    if !world.is_in_bounds(location) || world.is_barrier_at(location) {
        range
    } else {
        count
    }
}

/// Scans from a starting cell along a heading, up to `range` cells, and
/// reports how many passable cells pass before the first barrier; the
/// full range when the scan runs off the grid or exhausts its range
/// first.
pub fn long_probe_barrier_forward_sensor(start_location: Coord, direction: Dir, range: u32, world: &World) -> (r: u32)
    requires
        grid::grid_wf(world.grid),
    ensures
        r == spec_probe_barrier(
            world.grid,
            start_location,
            spec_coord_of_dir(direction),
            range as nat,
            range as nat,
        ),
        r <= range,
{
    let step: Coord = Coord::from(direction);
    probe_barrier_from(start_location, step, range, world)
}

/// The barrier scan from a cell by an explicit unit step.
fn probe_barrier_from(start_location: Coord, step: Coord, range: u32, world: &World) -> (r: u32)
    requires
        grid::grid_wf(world.grid),
        -1 <= step.0 <= 1,
        -1 <= step.1 <= 1,
    ensures
        r == spec_probe_barrier(world.grid, start_location, step, range as nat, range as nat),
        r <= range,
{
    let mut location = start_location;
    let mut count: u32 = 0;
    while count < range && world.is_in_bounds(location) && !world.is_barrier_at(location)
        invariant
            grid::grid_wf(world.grid),
            count <= range,
            -1 <= step.0 <= 1,
            -1 <= step.1 <= 1,
            spec_probe_barrier(world.grid, start_location, step, range as nat, range as nat)
                == spec_probe_barrier(
                world.grid,
                location,
                step,
                (range - count) as nat,
                range as nat,
            ),
        decreases range - count,
    {
        location = location.add(step);
        count = count + 1;
    }
    if !world.is_in_bounds(location) {
        range
    } else {
        count
    }
}

/// The two barrier scans of the short probe: one cell beyond the agent
/// along the heading and one cell beyond it against the heading, each up
/// to `range` cells.
pub fn short_probe_barrier_counts(location: Coord, dir: Dir, range: u32, world: &World) -> (r: (u32, u32))
    requires
        grid::grid_wf(world.grid),
        i16::MIN < location.0 < i16::MAX,
        i16::MIN < location.1 < i16::MAX,
    ensures
        r.0 == spec_probe_barrier(
            world.grid,
            spec_probe_step(location, spec_coord_of_dir(dir)),
            spec_coord_of_dir(dir),
            range as nat,
            range as nat,
        ),
        r.1 == spec_probe_barrier(
            world.grid,
            spec_probe_step(location, Coord((-spec_coord_of_dir(dir).0) as i16, (-spec_coord_of_dir(dir).1) as i16)),
            Coord((-spec_coord_of_dir(dir).0) as i16, (-spec_coord_of_dir(dir).1) as i16),
            range as nat,
            range as nat,
        ),
        r.0 <= range,
        r.1 <= range,
{
    let step: Coord = Coord::from(dir);
    let back: Coord = Coord(-step.0, -step.1);
    let forward = probe_barrier_from(location.add(step), step, range, world);
    let backward = probe_barrier_from(location.add(back), back, range, world);
    (forward, backward)
}

/// How many cells of the axis-aligned square around a location lie on
/// the grid, and how many of those hold an occupant.  The agent's own
/// cell counts too, as an occupied one.
pub fn count_occupied_in_neighborhood(world: &World, location: Coord, radius: u16) -> (r: (usize, usize))
    requires
        grid::grid_wf(world.grid),
        radius <= 0x3fff,
    ensures
        r.0 == spec_checked_rect(
            world.grid,
            location.0 - radius,
            location.0 + radius + 1,
            location.1 - radius,
            location.1 + radius + 1,
        ),
        r.1 == spec_occupied_rect(
            world.grid,
            location.0 - radius,
            location.0 + radius + 1,
            location.1 - radius,
            location.1 + radius + 1,
        ),
{
    let x_lo: i32 = location.0 as i32 - radius as i32;
    let x_hi: i32 = location.0 as i32 + radius as i32 + 1;
    let y_lo: i32 = location.1 as i32 - radius as i32;
    let y_hi: i32 = location.1 as i32 + radius as i32 + 1;
    let mut checked: usize = 0;
    let mut occupied: usize = 0;
    let mut x: i32 = x_lo;
    proof {
        lemma_rect_counts_bounded(world.grid, x_lo as int, x_hi as int, y_lo as int, y_hi as int);
    }
    while x < x_hi
        invariant
            grid::grid_wf(world.grid),
            x_lo <= x <= x_hi,
            x_hi - x_lo <= 0x8000,
            y_lo < y_hi,
            y_hi - y_lo <= 0x8000,
            checked == spec_checked_rect(world.grid, x_lo as int, x as int, y_lo as int, y_hi as int),
            occupied == spec_occupied_rect(world.grid, x_lo as int, x as int, y_lo as int, y_hi as int),
            occupied <= checked,
            checked <= (x - x_lo) * (y_hi - y_lo),
        decreases x_hi - x,
    {
        let mut y: i32 = y_lo;
        let ghost checked_row_start = checked as int;
        let ghost occupied_row_start = occupied as int;
        while y < y_hi
            invariant
                grid::grid_wf(world.grid),
                x_lo <= x < x_hi,
                x_hi - x_lo <= 0x8000,
                y_lo <= y <= y_hi,
                y_lo < y_hi,
                y_hi - y_lo <= 0x8000,
                checked == checked_row_start + spec_checked_col(world.grid, x as int, y_lo as int, y as int),
                occupied == occupied_row_start + spec_occupied_col(world.grid, x as int, y_lo as int, y as int),
                checked_row_start == spec_checked_rect(world.grid, x_lo as int, x as int, y_lo as int, y_hi as int),
                occupied_row_start == spec_occupied_rect(world.grid, x_lo as int, x as int, y_lo as int, y_hi as int),
                occupied <= checked,
                checked <= (x - x_lo) * (y_hi - y_lo) + (y - y_lo),
            decreases y_hi - y,
        {
            proof {
                lemma_col_counts_bounded(world.grid, x as int, y_lo as int, y as int);
            }
            proof {
                assert((x - x_lo) * (y_hi - y_lo) <= 0x8000 * 0x8000) by (nonlinear_arith)
                    requires
                        0 <= x - x_lo <= 0x8000,
                        0 < y_hi - y_lo <= 0x8000,
                ;
            }
            if x >= 0 && x < world.grid.width as i32 && y >= 0 && y < world.grid.height as i32 {
                let c = Coord(x as i16, y as i16);
                checked = checked + 1;
                if world.is_occupied_at(c) {
                    occupied = occupied + 1;
                }
            }
            proof {
                assert((x - x_lo) * (y_hi - y_lo) + (y + 1 - y_lo)
                    <= (x_hi - x_lo) * (y_hi - y_lo) + (y_hi - y_lo)) by (nonlinear_arith)
                    requires
                        x_lo <= x < x_hi,
                        y_lo <= y < y_hi,
                ;
            }
            y = y + 1;
        }
        proof {
            assert((x + 1 - x_lo) * (y_hi - y_lo) == (x - x_lo) * (y_hi - y_lo) + (y_hi - y_lo))
                by (nonlinear_arith);
        }
        x = x + 1;
    }
    (checked, occupied)
}

/// Whether a cell lies on the grid, over unbounded coordinates.
pub open spec fn spec_cell_on_grid(g: Grid, x: int, y: int) -> bool {
    0 <= x < g.width && 0 <= y < g.height
}

/// Whether a cell lies on the grid and holds an occupant.
pub open spec fn spec_cell_occupied(g: Grid, x: int, y: int) -> bool {
    spec_cell_on_grid(g, x, y) && grid::spec_at(g, x, y) != grid::EMPTY_CELL
        && grid::spec_at(g, x, y) != grid::BARRIER_CELL
}

/// How many cells of one column stripe lie on the grid.
pub open spec fn spec_checked_col(g: Grid, x: int, y_lo: int, y_hi: int) -> nat
    decreases y_hi - y_lo,
{
    if y_hi <= y_lo {
        0
    } else {
        spec_checked_col(g, x, y_lo, y_hi - 1) + if spec_cell_on_grid(g, x, y_hi - 1) { 1nat } else { 0nat }
    }
}

/// How many cells of one column stripe hold an occupant.
pub open spec fn spec_occupied_col(g: Grid, x: int, y_lo: int, y_hi: int) -> nat
    decreases y_hi - y_lo,
{
    if y_hi <= y_lo {
        0
    } else {
        spec_occupied_col(g, x, y_lo, y_hi - 1) + if spec_cell_occupied(g, x, y_hi - 1) { 1nat } else { 0nat }
    }
}

/// How many cells of a rectangle lie on the grid.
pub open spec fn spec_checked_rect(g: Grid, x_lo: int, x_hi: int, y_lo: int, y_hi: int) -> nat
    decreases x_hi - x_lo,
{
    if x_hi <= x_lo {
        0
    } else {
        spec_checked_rect(g, x_lo, x_hi - 1, y_lo, y_hi) + spec_checked_col(g, x_hi - 1, y_lo, y_hi)
    }
}

/// How many cells of a rectangle hold an occupant.
pub open spec fn spec_occupied_rect(g: Grid, x_lo: int, x_hi: int, y_lo: int, y_hi: int) -> nat
    decreases x_hi - x_lo,
{
    if x_hi <= x_lo {
        0
    } else {
        spec_occupied_rect(g, x_lo, x_hi - 1, y_lo, y_hi) + spec_occupied_col(g, x_hi - 1, y_lo, y_hi)
    }
}

/// Column counts never exceed the height of the stripe.
proof fn lemma_col_counts_bounded(g: Grid, x: int, y_lo: int, y_hi: int)
    ensures
        spec_occupied_col(g, x, y_lo, y_hi) <= spec_checked_col(g, x, y_lo, y_hi),
        spec_checked_col(g, x, y_lo, y_hi) <= (if y_hi >= y_lo { y_hi - y_lo } else { 0int }),
    decreases y_hi - y_lo,
{
    if y_hi > y_lo {
        lemma_col_counts_bounded(g, x, y_lo, y_hi - 1);
    }
}

/// Rectangle counts never exceed the area of the rectangle.
proof fn lemma_rect_counts_bounded(g: Grid, x_lo: int, x_hi: int, y_lo: int, y_hi: int)
    ensures
        spec_occupied_rect(g, x_lo, x_hi, y_lo, y_hi) <= spec_checked_rect(g, x_lo, x_hi, y_lo, y_hi),
        spec_checked_rect(g, x_lo, x_hi, y_lo, y_hi)
            <= (if x_hi >= x_lo && y_hi >= y_lo { (x_hi - x_lo) * (y_hi - y_lo) } else { 0int }),
    decreases x_hi - x_lo,
{
    if x_hi > x_lo {
        lemma_rect_counts_bounded(g, x_lo, x_hi - 1, y_lo, y_hi);
        lemma_col_counts_bounded(g, x_hi - 1, y_lo, y_hi);
        if y_hi >= y_lo {
            assert((x_hi - 1 - x_lo) * (y_hi - y_lo) + (y_hi - y_lo) == (x_hi - x_lo) * (y_hi - y_lo))
                by (nonlinear_arith);
        }
    }
}

} // verus!
