use vstd::prelude::*;
use crate::brain::{net_ordered, net_refs_ok, NeuralNet};
use crate::genome::Genome;
use crate::parameters::Parameters;
use crate::types::{Compass, Coord, Dir};

verus! {

/// One agent: its survival state, its fixed 1-based index into the
/// population, where it stands and where it was born, its per-life
/// counters, and the brain wired from its genome.
pub struct Individual {
    pub alive: bool,
    pub index: u16,
    pub location: Coord,
    pub birth_location: Coord,
    pub age: u32,
    pub responsiveness_milli: u32,
    pub oscillation_period: u32,
    pub long_probe_distance: u32,
    pub last_move_direction: Dir,
    pub challenge_bits: u32,
    pub neural_net: NeuralNet,
    pub genome: Genome,
    pub num_neurons: u16,
}

/// An agent the core can run: an oscillator period of at least one, a
/// responsiveness within one, a genome of at least one gene, and a brain
/// whose connections only name neurons it has, neuron sinks before
/// action sinks.
pub open spec fn individual_wf(ind: Individual) -> bool {
    &&& ind.oscillation_period >= 1
    &&& ind.responsiveness_milli <= 1000
    &&& ind.genome@.len() >= 1
    &&& net_refs_ok(ind.neural_net.connections@, ind.neural_net.neurons@.len() as int)
    &&& net_ordered(ind.neural_net.connections@)
}

/// The state every newborn agent starts in: well formed, age zero, born
/// where it stands, the configured probe range, and the fixed initial
/// counters.
pub open spec fn spec_newborn(ind: Individual, p: Parameters) -> bool {
    &&& individual_wf(ind)
    &&& ind.age == 0
    &&& ind.birth_location == ind.location
    &&& ind.responsiveness_milli == 500
    &&& ind.oscillation_period == 34
    &&& ind.long_probe_distance == p.long_probe_distance
    &&& ind.challenge_bits == 0
    &&& ind.neural_net.neurons@.len() <= p.max_number_neurons
}

impl Individual {
    /// A newborn agent at a location: alive, age zero, the given genome
    /// wired into a brain, and a random initial heading.
    pub fn new(index: u16, location: Coord, genome: Genome, p: &Parameters) -> (ind: Individual)
        requires
            1 <= p.max_number_neurons <= 128,
            genome@.len() >= 1,
        ensures
            individual_wf(ind),
            ind.alive == true,
            ind.index == index,
            ind.location == location,
            ind.birth_location == location,
            ind.age == 0,
            ind.responsiveness_milli == 500,
            ind.oscillation_period == 34,
            ind.long_probe_distance == p.long_probe_distance,
            ind.challenge_bits == 0,
            ind.genome == genome,
            ind.num_neurons == p.max_number_neurons,
            ind.neural_net.neurons@.len() <= p.max_number_neurons,
            ind.last_move_direction.0 != Compass::Center,
            spec_newborn(ind, *p),
    {
        let neural_net = NeuralNet::new(&genome, p.max_number_neurons);
        Individual {
            alive: true,
            index,
            location,
            birth_location: location,
            age: 0,
            num_neurons: p.max_number_neurons,
            responsiveness_milli: 500,
            oscillation_period: 34,
            long_probe_distance: p.long_probe_distance,
            last_move_direction: Dir::random(),
            challenge_bits: 0,
            neural_net,
            genome,
        }
    }

    /// One step of life.
    pub fn increment_age(&mut self)
        requires
            old(self).age < u32::MAX,
        ensures
            *final(self) == (Individual { age: (old(self).age + 1) as u32, ..*old(self) }),
    {
        self.age = self.age + 1;
    }

    /// Replaces the oscillator period; it must stay at least one.
    pub fn set_oscillation_period(&mut self, period: u32)
        requires
            period >= 1,
        ensures
            *final(self) == (Individual { oscillation_period: period, ..*old(self) }),
    {
        self.oscillation_period = period;
    }

    /// Replaces the forward probe range.
    pub fn set_long_probe_distance(&mut self, distance: u32)
        ensures
            *final(self) == (Individual { long_probe_distance: distance, ..*old(self) }),
    {
        self.long_probe_distance = distance;
    }

    /// Replaces the responsiveness, in thousandths of one.
    pub fn set_responsiveness_milli(&mut self, value: u32)
        requires
            value <= 1000,
        ensures
            *final(self) == (Individual { responsiveness_milli: value, ..*old(self) }),
    {
        self.responsiveness_milli = value;
    }
}

} // verus!
