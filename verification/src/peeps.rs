use vstd::prelude::*;
use crate::gene::Gene;
use crate::genome::{make_random_genome, Genome};
use crate::grid::{self, count_empty_cells, EMPTY_CELL, BARRIER_CELL};
use crate::individual::Individual;
use crate::mutations::breed_from_parents;
use crate::parameters::{params_valid, Parameters};
use crate::rng;
use crate::signals::Signals;
use crate::survival_criteria::{circle_challenge, spec_circle_survives};
use crate::types::{spec_dir_of_coord, Coord, Dir};
use crate::world::World;

verus! {

/// The agents marked to die at the end of the step, in the order they
/// were marked.
pub type DeathQueue = Vec<u16>;

/// The squared distance below which the circle challenge lets an agent
/// survive the generation.
pub const CIRCLE_CHALLENGE_RADIUS: i16 = 50;

/// The population and everything it lives in: the world grid, the signal
/// layers, the agents (slot zero is a sentinel that is never alive, so
/// that grid tag zero always means empty), the per-step death queue, and
/// the configuration.
pub struct Peeps {
    pub world: World,
    pub signals: Signals,
    pub population: Vec<Individual>,
    pub death_queue: DeathQueue,
    pub parameters: Parameters,
}

/// The standing invariant of a population (grid occupancy): valid
/// parameters; a grid of the configured dimensions; one agent per index
/// with the sentinel dead in slot zero; every genome within the clamp;
/// every live agent standing on the grid with its own index in its cell;
/// every cell empty, a barrier, or the index of the live agent standing
/// there; and every queued death a real agent index.
pub open spec fn peeps_wf(p: Peeps) -> bool {
    &&& params_valid(p.parameters)
    &&& grid::grid_wf(p.world.grid)
    &&& p.world.grid.width == p.parameters.size_x
    &&& p.world.grid.height == p.parameters.size_y
    &&& p.population@.len() == p.parameters.population as int + 1
    &&& !p.population@[0].alive
    &&& forall|i: int| 0 <= i < p.population@.len() ==> (#[trigger] p.population@[i]).index == i
    &&& forall|i: int| 0 <= i < p.population@.len() ==> {
        let ind = #[trigger] p.population@[i];
        1 <= ind.genome@.len() <= p.parameters.max_genome_length
    }
    &&& forall|i: int| 0 <= i < p.population@.len() ==> {
        let ind = #[trigger] p.population@[i];
        ind.alive ==> grid::spec_in_bounds(p.world.grid, ind.location)
            && grid::spec_at(p.world.grid, ind.location.0 as int, ind.location.1 as int) == i
    }
    &&& forall|x: int, y: int| 0 <= x < p.world.grid.width && 0 <= y < p.world.grid.height ==> {
        let t = #[trigger] grid::spec_at(p.world.grid, x, y);
        ||| t == EMPTY_CELL
        ||| t == BARRIER_CELL
        ||| (1 <= t < p.population@.len() && p.population@[t as int].alive
            && p.population@[t as int].location == Coord(x as i16, y as i16))
    }
    &&& forall|k: int| 0 <= k < p.death_queue@.len()
        ==> 1 <= #[trigger] p.death_queue@[k] < p.population@.len()
}

/// How many agents of a population are alive.
pub open spec fn count_alive(pop: Seq<Individual>) -> nat
    decreases pop.len(),
{
    if pop.len() == 0 {
        0
    } else {
        count_alive(pop.drop_last()) + if pop.last().alive { 1nat } else { 0nat }
    }
}

/// The genomes of the agents that pass the circle challenge, in
/// population order.
pub open spec fn spec_survivor_genomes(pop: Seq<Individual>, width: u16, height: u16, radius: int) -> Seq<Seq<Gene>>
    decreases pop.len(),
{
    if pop.len() == 0 {
        Seq::empty()
    } else if spec_circle_survives(pop.last(), width, height, radius) {
        spec_survivor_genomes(pop.drop_last(), width, height, radius).push(pop.last().genome@)
    } else {
        spec_survivor_genomes(pop.drop_last(), width, height, radius)
    }
}

/// An exact copy of a genome.
fn clone_genome(genome: &Genome) -> (r: Genome)
    ensures
        r@ == genome@,
{
    let mut copy: Genome = Vec::new();
    let mut i: usize = 0;
    while i < genome.len()
        invariant
            i <= genome@.len(),
            copy@ == genome@.take(i as int),
        decreases genome@.len() - i,
    {
        copy.push(genome[i]);
        proof {
            assert(copy@ =~= genome@.take(i + 1));
        }
        i = i + 1;
    }
    proof {
        assert(genome@.take(genome@.len() as int) =~= genome@);
    }
    copy
}

impl Peeps {
    /// A fresh population: a world of the configured size, the sentinel,
    /// and one newborn agent with a random genome on a random empty cell
    /// for each index up to the configured population.
    pub fn new(p: &Parameters) -> (peeps: Peeps)
        requires
            params_valid(*p),
        ensures
            peeps_wf(peeps),
            peeps.parameters == *p,
            forall|i: int| 1 <= i < peeps.population@.len() ==> (#[trigger] peeps.population@[i]).alive,
            forall|i: int| 1 <= i < peeps.population@.len()
                ==> crate::individual::spec_newborn(#[trigger] peeps.population@[i], *p),
            count_alive(peeps.population@) == p.population as int,
    {
        let world = World::new(p.size_x, p.size_y);
        let signals = Signals::new(p.signal_layers as u16, p.size_x, p.size_y);
        let mut peeps = Peeps {
            world,
            signals,
            population: Vec::new(),
            death_queue: Vec::new(),
            parameters: *p,
        };
        let empty_pool: Vec<Genome> = Vec::new();
        peeps.new_generation(&empty_pool);
        peeps
    }

    /// Marks an agent to die when the step's death queue drains.
    pub fn queue_for_death(&mut self, id: u16)
        requires
            peeps_wf(*old(self)),
            1 <= id < old(self).population@.len(),
        ensures
            peeps_wf(*final(self)),
            final(self).death_queue@ == old(self).death_queue@.push(id),
            final(self).population == old(self).population,
            final(self).world == old(self).world,
            final(self).signals == old(self).signals,
            final(self).parameters == old(self).parameters,
    {
        self.death_queue.push(id);
    }

    /// Marks every queued agent dead, clears its cell, and empties the
    /// queue.  The number of live agents never grows.
    pub fn drain_death_queue(&mut self)
        requires
            peeps_wf(*old(self)),
        ensures
            peeps_wf(*final(self)),
            final(self).death_queue@.len() == 0,
            final(self).parameters == old(self).parameters,
            final(self).signals == old(self).signals,
            final(self).population@.len() == old(self).population@.len(),
            forall|i: int| 0 <= i < old(self).population@.len() ==> {
                let before = old(self).population@[i];
                let after = #[trigger] final(self).population@[i];
                if old(self).death_queue@.contains(i as u16) {
                    after == (Individual { alive: false, ..before })
                } else {
                    after == before
                }
            },
            forall|i: int| 0 <= i < old(self).population@.len()
                && (#[trigger] final(self).population@[i]).alive
                ==> old(self).population@[i].alive,
            final(self).world.grid.width == old(self).world.grid.width,
            final(self).world.grid.height == old(self).world.grid.height,
            forall|x: int, y: int| 0 <= x < old(self).world.grid.width
                && 0 <= y < old(self).world.grid.height ==> {
                let t = #[trigger] grid::spec_at(old(self).world.grid, x, y);
                if 1 <= t < old(self).population@.len() && old(self).population@[t as int].alive
                    && old(self).death_queue@.contains(t) {
                    grid::spec_at(final(self).world.grid, x, y) == EMPTY_CELL
                } else {
                    grid::spec_at(final(self).world.grid, x, y) == t
                }
            },
    {
        let ghost q = self.death_queue@;
        let ghost pop0 = self.population@;
        let mut k: usize = 0;
        while k < self.death_queue.len()
            invariant
                peeps_wf(*self),
                self.death_queue@ == q,
                k <= q.len(),
                self.parameters == old(self).parameters,
                self.signals == old(self).signals,
                self.population@.len() == pop0.len(),
                pop0 == old(self).population@,
                forall|i: int| 0 <= i < pop0.len() ==> {
                    let before = pop0[i];
                    let after = #[trigger] self.population@[i];
                    if exists|j: int| 0 <= j < k && #[trigger] q[j] == i as u16 {
                        after == (Individual { alive: false, ..before })
                    } else {
                        after == before
                    }
                },
                self.world.grid.width == old(self).world.grid.width,
                self.world.grid.height == old(self).world.grid.height,
                forall|x: int, y: int| 0 <= x < old(self).world.grid.width
                    && 0 <= y < old(self).world.grid.height ==> {
                    let t = #[trigger] grid::spec_at(old(self).world.grid, x, y);
                    if 1 <= t < pop0.len() && pop0[t as int].alive
                        && (exists|j: int| 0 <= j < k && #[trigger] q[j] == t) {
                        grid::spec_at(self.world.grid, x, y) == EMPTY_CELL
                    } else {
                        grid::spec_at(self.world.grid, x, y) == t
                    }
                },
            decreases q.len() - k,
        {
            let id = self.death_queue[k];
            let idx = id as usize;
            let alive_now = self.population[idx].alive;
            if alive_now {
                let loc = self.population[idx].location;
                self.world.set_at_coord(loc, EMPTY_CELL);
                let ind = &mut self.population[idx];
                ind.alive = false;
                proof {
                    assert(self.population@[idx as int]
                        == (Individual { alive: false, ..pop0[idx as int] }));
                }
            }
            proof {
                assert forall|i: int| 0 <= i < pop0.len() implies {
                    let before = pop0[i];
                    let after = #[trigger] self.population@[i];
                    if exists|j: int| 0 <= j < k + 1 && #[trigger] q[j] == i as u16 {
                        after == (Individual { alive: false, ..before })
                    } else {
                        after == before
                    }
                } by {
                    if exists|j: int| 0 <= j < k + 1 && #[trigger] q[j] == i as u16 {
                        let j = choose|j: int| 0 <= j < k + 1 && #[trigger] q[j] == i as u16;
                        if j < k {
                            assert(exists|j2: int| 0 <= j2 < k && #[trigger] q[j2] == i as u16);
                        }
                    }
                }
                assert forall|x: int, y: int| 0 <= x < old(self).world.grid.width
                    && 0 <= y < old(self).world.grid.height implies {
                    let t = #[trigger] grid::spec_at(old(self).world.grid, x, y);
                    if 1 <= t < pop0.len() && pop0[t as int].alive
                        && (exists|j: int| 0 <= j < k + 1 && #[trigger] q[j] == t) {
                        grid::spec_at(self.world.grid, x, y) == EMPTY_CELL
                    } else {
                        grid::spec_at(self.world.grid, x, y) == t
                    }
                } by {
                    let t = grid::spec_at(old(self).world.grid, x, y);
                    if 1 <= t < pop0.len() && pop0[t as int].alive
                        && (exists|j: int| 0 <= j < k + 1 && #[trigger] q[j] == t) {
                        let j = choose|j: int| 0 <= j < k + 1 && #[trigger] q[j] == t;
                        if j < k {
                            assert(exists|j2: int| 0 <= j2 < k && #[trigger] q[j2] == t);
                        } else {
                            // This iteration handled exactly the agent the
                            // old tag names, so its cell is cleared now or
                            // was cleared by an earlier queue entry.
                            assert(q[k as int] == t);
                        }
                    }
                }
            }
            k = k + 1;
        }
        self.death_queue = Vec::new();
        proof {
            assert forall|i: int| 0 <= i < pop0.len() implies {
                let before = pop0[i];
                let after = #[trigger] self.population@[i];
                if old(self).death_queue@.contains(i as u16) {
                    after == (Individual { alive: false, ..before })
                } else {
                    after == before
                }
            } by {
                if q.contains(i as u16) {
                    let j = choose|j: int| 0 <= j < q.len() && q[j] == i as u16;
                    assert(exists|j2: int| 0 <= j2 < q.len() && #[trigger] q[j2] == i as u16);
                }
            }
        }
    }

    /// Resolves one accumulated move urge for a live agent: one cell of
    /// signed offset.  The agent moves exactly when the target cell lies
    /// on the grid and is empty; then its old cell empties, the target
    /// carries its index, and its last move direction is the offset's
    /// heading.  Nothing else changes, and no agent's survival changes.
    pub fn resolve_move(&mut self, id: u16, dx: i16, dy: i16)
        requires
            peeps_wf(*old(self)),
            1 <= id < old(self).population@.len(),
            old(self).population@[id as int].alive,
            -1 <= dx <= 1,
            -1 <= dy <= 1,
        ensures
            peeps_wf(*final(self)),
            final(self).parameters == old(self).parameters,
            final(self).signals == old(self).signals,
            final(self).death_queue == old(self).death_queue,
            final(self).population@.len() == old(self).population@.len(),
            forall|i: int| 0 <= i < old(self).population@.len() && i != id as int
                ==> #[trigger] final(self).population@[i] == old(self).population@[i],
            forall|i: int| 0 <= i < old(self).population@.len()
                ==> (#[trigger] final(self).population@[i]).alive
                    == old(self).population@[i].alive,
            ({
                let before = old(self).population@[id as int];
                let target = Coord((before.location.0 + dx) as i16, (before.location.1 + dy) as i16);
                if grid::spec_in_bounds(old(self).world.grid, target)
                    && grid::spec_at(old(self).world.grid, target.0 as int, target.1 as int)
                        == EMPTY_CELL {
                    &&& final(self).population@[id as int] == (Individual {
                        location: target,
                        last_move_direction: spec_dir_of_coord(Coord(dx, dy)),
                        ..before
                    })
                    &&& grid::spec_at(final(self).world.grid, target.0 as int, target.1 as int)
                        == id
                    &&& grid::spec_at(
                        final(self).world.grid,
                        before.location.0 as int,
                        before.location.1 as int,
                    ) == EMPTY_CELL
                } else {
                    *final(self) == *old(self)
                }
            }),
    {
        let loc = self.population[id as usize].location;
        let target = Coord(loc.0 + dx, loc.1 + dy);
        if self.world.is_in_bounds(target) && self.world.is_empty_at(target) {
            self.world.set_at_coord(target, id);
            self.world.set_at_coord(loc, EMPTY_CELL);
            let heading: Dir = Dir::from(Coord(dx, dy));
            let ind = &mut self.population[id as usize];
            ind.location = target;
            ind.last_move_direction = heading;
        }
    }

    /// The agent standing at a cell: the population entry its tag names,
    /// where one exists.  An empty cell names the sentinel; a barrier
    /// names nothing.
    pub fn individual_at(&self, coord: Coord) -> (r: Option<&Individual>)
        requires
            peeps_wf(*self),
            grid::spec_in_bounds(self.world.grid, coord),
        ensures
            ({
                let t = grid::spec_at(self.world.grid, coord.0 as int, coord.1 as int);
                match r {
                    Some(ind) => t < self.population@.len() && *ind == self.population@[t as int],
                    None => t >= self.population@.len(),
                }
            }),
    {
        let t = self.world.at_coord(coord);
        if (t as usize) < self.population.len() {
            Some(&self.population[t as usize])
        } else {
            None
        }
    }

    /// The genomes of the agents that pass the circle challenge, in
    /// population order: the parent pool of the next generation.
    pub fn surviving_genomes(&self) -> (r: Vec<Genome>)
        requires
            peeps_wf(*self),
        ensures
            r@.len() == spec_survivor_genomes(
                self.population@,
                self.world.grid.width,
                self.world.grid.height,
                CIRCLE_CHALLENGE_RADIUS as int,
            ).len(),
            forall|k: int| 0 <= k < r@.len() ==> (#[trigger] r@[k])@ == spec_survivor_genomes(
                self.population@,
                self.world.grid.width,
                self.world.grid.height,
                CIRCLE_CHALLENGE_RADIUS as int,
            )[k],
            forall|k: int| 0 <= k < r@.len()
                ==> 1 <= (#[trigger] r@[k])@.len() <= self.parameters.max_genome_length,
            r@.len() <= self.population@.len(),
    {
        let ghost pop = self.population@;
        let ghost w = self.world.grid.width;
        let ghost h = self.world.grid.height;
        let mut genomes: Vec<Genome> = Vec::new();
        let mut i: usize = 0;
        proof {
            assert(pop.take(0) =~= Seq::<Individual>::empty());
        }
        while i < self.population.len()
            invariant
                peeps_wf(*self),
                pop == self.population@,
                w == self.world.grid.width,
                h == self.world.grid.height,
                i <= pop.len(),
                genomes@.len() == spec_survivor_genomes(
                    pop.take(i as int),
                    w,
                    h,
                    CIRCLE_CHALLENGE_RADIUS as int,
                ).len(),
                forall|k: int| 0 <= k < genomes@.len() ==> (#[trigger] genomes@[k])@
                    == spec_survivor_genomes(
                    pop.take(i as int),
                    w,
                    h,
                    CIRCLE_CHALLENGE_RADIUS as int,
                )[k],
                forall|k: int| 0 <= k < genomes@.len()
                    ==> 1 <= (#[trigger] genomes@[k])@.len() <= self.parameters.max_genome_length,
                genomes@.len() <= i,
            decreases pop.len() - i,
        {
            let mut arguments: Vec<i16> = Vec::new();
            arguments.push(CIRCLE_CHALLENGE_RADIUS);
            let survives = circle_challenge(
                &self.population[i],
                &self.world,
                &self.signals,
                &self.parameters,
                arguments,
            );
            proof {
                assert(pop.take(i + 1).drop_last() =~= pop.take(i as int));
                assert(pop.take(i + 1).last() == pop[i as int]);
            }
            if survives {
                let copy = clone_genome(&self.population[i].genome);
                genomes.push(copy);
            }
            i = i + 1;
        }
        proof {
            assert(pop.take(pop.len() as int) =~= pop);
        }
        genomes
    }

    /// Ends the generation: filters the survivors by the circle
    /// challenge, and reseeds the whole population from their genomes.
    pub fn end_generation(&mut self)
        requires
            peeps_wf(*old(self)),
        ensures
            peeps_wf(*final(self)),
            final(self).parameters == old(self).parameters,
            forall|i: int| 1 <= i < final(self).population@.len()
                ==> (#[trigger] final(self).population@[i]).alive,
            forall|i: int| 1 <= i < final(self).population@.len()
                ==> crate::individual::spec_newborn(
                    #[trigger] final(self).population@[i],
                    final(self).parameters,
                ),
            forall|i: int| {
                let pool = spec_survivor_genomes(
                    old(self).population@,
                    old(self).world.grid.width,
                    old(self).world.grid.height,
                    CIRCLE_CHALLENGE_RADIUS as int,
                );
                1 <= i < final(self).population@.len() && pool.len() > 0
                    ==> exists|a: int, b: int| 0 <= a < pool.len() && 0 <= b < pool.len()
                        && pool[a].len() >= pool[b].len()
                        && #[trigger] crate::mutations::spec_spliced_descendant(
                            pool[a],
                            pool[b],
                            (#[trigger] final(self).population@[i]).genome@,
                        )
            },
            count_alive(final(self).population@) == final(self).parameters.population as int,
    {
        let genomes = self.surviving_genomes();
        let ghost pool = spec_survivor_genomes(
            self.population@,
            self.world.grid.width,
            self.world.grid.height,
            CIRCLE_CHALLENGE_RADIUS as int,
        );
        self.new_generation(&genomes);
        proof {
            assert forall|i: int| 1 <= i < self.population@.len() && pool.len() > 0
                implies exists|a: int, b: int| 0 <= a < pool.len() && 0 <= b < pool.len()
                    && pool[a].len() >= pool[b].len()
                    && #[trigger] crate::mutations::spec_spliced_descendant(
                        pool[a],
                        pool[b],
                        (#[trigger] self.population@[i]).genome@,
                    ) by {
                let (a, b) = choose|a: int, b: int| 0 <= a < genomes@.len()
                    && 0 <= b < genomes@.len() && genomes@[a]@.len() >= genomes@[b]@.len()
                    && #[trigger] crate::mutations::spec_spliced_descendant(
                        genomes@[a]@,
                        genomes@[b]@,
                        self.population@[i].genome@,
                    );
                assert(genomes@[a]@ == pool[a] && genomes@[b]@ == pool[b]);
                assert(crate::mutations::spec_spliced_descendant(
                    pool[a],
                    pool[b],
                    self.population@[i].genome@,
                ));
            }
        }
    }

    /// Reseeds the population: zero-fills the grid, then places one
    /// newborn agent per index on a random empty cell, bred from two
    /// uniformly drawn parent genomes of the pool — or given a fresh
    /// random genome when the pool is empty.  Afterwards every agent but
    /// the sentinel is alive and stands alone on its cell.
    pub fn new_generation(&mut self, genomes: &Vec<Genome>)
        requires
            params_valid(old(self).parameters),
            grid::grid_wf(old(self).world.grid),
            old(self).world.grid.width == old(self).parameters.size_x,
            old(self).world.grid.height == old(self).parameters.size_y,
            genomes@.len() < 0x1_0000_0000,
            forall|k: int| 0 <= k < genomes@.len()
                ==> 1 <= (#[trigger] genomes@[k])@.len() <= old(self).parameters.max_genome_length,
        ensures
            peeps_wf(*final(self)),
            final(self).parameters == old(self).parameters,
            final(self).signals == old(self).signals,
            forall|i: int| 1 <= i < final(self).population@.len()
                ==> (#[trigger] final(self).population@[i]).alive,
            forall|i: int| 1 <= i < final(self).population@.len()
                ==> crate::individual::spec_newborn(
                    #[trigger] final(self).population@[i],
                    final(self).parameters,
                ),
            forall|i: int| 1 <= i < final(self).population@.len() && genomes@.len() > 0
                ==> exists|a: int, b: int| 0 <= a < genomes@.len() && 0 <= b < genomes@.len()
                    && genomes@[a]@.len() >= genomes@[b]@.len()
                    && #[trigger] crate::mutations::spec_spliced_descendant(
                        genomes@[a]@,
                        genomes@[b]@,
                        (#[trigger] final(self).population@[i]).genome@,
                    ),
            count_alive(final(self).population@) == final(self).parameters.population as int,
    {
        let params = self.parameters;
        self.world.zero_fill();
        self.death_queue = Vec::new();
        self.population = Vec::new();
        let mut sentinel = Individual::new(0, Coord(-1, -1), make_random_genome(1), &params);
        sentinel.alive = false;
        self.population.push(sentinel);
        let ghost w = self.world.grid.width;
        let ghost h = self.world.grid.height;
        let mut i: u16 = 1;
        while i <= params.population
            invariant
                params_valid(params),
                self.parameters == params,
                self.signals == old(self).signals,
                self.death_queue@.len() == 0,
                grid::grid_wf(self.world.grid),
                self.world.grid.width == w,
                self.world.grid.height == h,
                w == params.size_x,
                h == params.size_y,
                1 <= i <= params.population + 1,
                self.population@.len() == i as int,
                !self.population@[0].alive,
                genomes@.len() < 0x1_0000_0000,
                forall|k: int| 0 <= k < genomes@.len()
                    ==> 1 <= (#[trigger] genomes@[k])@.len() <= params.max_genome_length,
                forall|k: int| 0 <= k < i ==> (#[trigger] self.population@[k]).index == k,
                forall|k: int| 0 <= k < i ==> {
                    let ind = #[trigger] self.population@[k];
                    1 <= ind.genome@.len() <= params.max_genome_length
                },
                forall|k: int| 1 <= k < i ==> (#[trigger] self.population@[k]).alive,
                forall|k: int| 1 <= k < i
                    ==> crate::individual::spec_newborn(#[trigger] self.population@[k], params),
                forall|k: int| 1 <= k < i && genomes@.len() > 0
                    ==> exists|a: int, b: int| 0 <= a < genomes@.len() && 0 <= b < genomes@.len()
                        && genomes@[a]@.len() >= genomes@[b]@.len()
                        && #[trigger] crate::mutations::spec_spliced_descendant(
                            genomes@[a]@,
                            genomes@[b]@,
                            (#[trigger] self.population@[k]).genome@,
                        ),
                forall|k: int| 1 <= k < i ==> {
                    let ind = #[trigger] self.population@[k];
                    grid::spec_in_bounds(self.world.grid, ind.location)
                        && grid::spec_at(
                        self.world.grid,
                        ind.location.0 as int,
                        ind.location.1 as int,
                    ) == k
                },
                forall|x: int, y: int| 0 <= x < w && 0 <= y < h ==> {
                    let t = #[trigger] grid::spec_at(self.world.grid, x, y);
                    t == EMPTY_CELL || (1 <= t < i && self.population@[t as int].alive
                        && self.population@[t as int].location == Coord(x as i16, y as i16))
                },
                count_empty_cells(self.world.grid.data@) == w as int * h as int - (i - 1),
            decreases params.population + 1 - i,
        {
            let child: Genome = if genomes.len() > 0 {
                let father_index = rng::random_below(genomes.len() as u32) as usize;
                let mother_index = rng::random_below(genomes.len() as u32) as usize;
                let bred = breed_from_parents(&genomes[father_index], &genomes[mother_index], &params);
                proof {
                    // The drawn parents witness the child's descent, the
                    // longer one first.
                    if genomes@[father_index as int]@.len() >= genomes@[mother_index as int]@.len() {
                        assert(crate::mutations::spec_spliced_descendant(
                            genomes@[father_index as int]@,
                            genomes@[mother_index as int]@,
                            bred@,
                        ));
                    } else {
                        assert(crate::mutations::spec_spliced_descendant(
                            genomes@[mother_index as int]@,
                            genomes@[father_index as int]@,
                            bred@,
                        ));
                    }
                }
                bred
            } else {
                let genome_size = 1 + rng::random_below(params.max_genome_length as u32) as usize;
                make_random_genome(genome_size)
            };
            let child_location = self.world.find_random_empty_location();
            let ind = Individual::new(i, child_location, child, &params);
            let ghost grid_pre = self.world.grid;
            self.world.set_at_coord(child_location, i);
            proof {
                grid::lemma_cell_index(
                    w as int,
                    h as int,
                    child_location.0 as int,
                    child_location.1 as int,
                );
                grid::lemma_count_empty_update(
                    grid_pre.data@,
                    child_location.0 as int * h as int + child_location.1 as int,
                    i,
                );
            }
            self.population.push(ind);
            i = i + 1;
        }
        proof {
            // Every live agent counts once, so the population count is
            // exact.
            lemma_count_alive_full(self.population@);
        }
    }

    /// The location of every agent, sentinel included, in population
    /// order.
    pub fn get_population_locations(&self) -> (r: Vec<(i16, i16)>)
        ensures
            r@.len() == self.population@.len(),
            forall|i: int| 0 <= i < self.population@.len() ==> #[trigger] r@[i]
                == (self.population@[i].location.0, self.population@[i].location.1),
    {
        let mut locations: Vec<(i16, i16)> = Vec::new();
        let mut i: usize = 0;
        while i < self.population.len()
            invariant
                i <= self.population@.len(),
                locations@.len() == i,
                forall|k: int| 0 <= k < i ==> #[trigger] locations@[k]
                    == (self.population@[k].location.0, self.population@[k].location.1),
            decreases self.population@.len() - i,
        {
            let loc = self.population[i].location;
            locations.push((loc.0, loc.1));
            i = i + 1;
        }
        locations
    }
}

/// Conservation of life within a step: when no agent comes back to life
/// — as every step operation ensures — the number of live agents never
/// grows.
pub proof fn lemma_count_alive_monotone(before: Seq<Individual>, after: Seq<Individual>)
    requires
        before.len() == after.len(),
        forall|i: int| 0 <= i < after.len() && (#[trigger] after[i]).alive ==> before[i].alive,
    ensures
        count_alive(after) <= count_alive(before),
    decreases before.len(),
{
    if before.len() > 0 {
        lemma_count_alive_monotone(before.drop_last(), after.drop_last());
        assert(after[after.len() - 1] == after.last());
        assert(before[before.len() - 1] == before.last());
    }
}

/// A population whose every agent above the sentinel is alive has
/// exactly that many live agents.
proof fn lemma_count_alive_full(pop: Seq<Individual>)
    requires
        pop.len() >= 1,
        !pop[0].alive,
        forall|i: int| 1 <= i < pop.len() ==> (#[trigger] pop[i]).alive,
    ensures
        count_alive(pop) == pop.len() - 1,
    decreases pop.len(),
{
    reveal_with_fuel(count_alive, 3);
    if pop.len() > 1 {
        lemma_count_alive_full(pop.drop_last());
        assert(pop[pop.len() - 1] == pop.last());
    } else {
        assert(pop.drop_last().len() == 0);
        assert(count_alive(pop.drop_last()) == 0);
        assert(pop.last() == pop[0]);
    }
}

} // verus!
