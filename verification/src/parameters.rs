use vstd::prelude::*;
use crate::parameter_defaults;

verus! {

/// The configuration of a run.  Chances are stored in parts per million
/// and the responsiveness values in thousandths, so that the core works
/// on plain integers throughout.
#[derive(Debug, Clone, Copy, PartialEq, Eq, Structural)]
pub struct Parameters {
    pub size_x: u16,
    pub size_y: u16,
    pub population: u16,
    pub steps_per_generation: u16,
    pub max_generations: u32,
    pub num_threads: u8,
    pub signal_layers: u8,
    pub max_genome_length: u16,
    pub max_number_neurons: u16,
    pub point_mutation_rate_ppm: u32,
    pub gene_insertion_deletion_rate_ppm: u32,
    pub delete_ration_ppm: u32,
    pub sexual_reproduction: bool,
    pub kill_enabled: bool,
    pub choose_parents_by_fitness: bool,
    pub population_sensor_radius: u16,
    pub signal_sensor_radius: u16,
    pub responsiveness_milli: u32,
    pub responsiveness_curve_k_factor: u16,
    pub long_probe_distance: u32,
    pub valence_saturation_magnitude_milli: u32,
}

/// Parameters the core can run on: dimensions that fit signed 16-bit
/// coordinates, a population that the 16-bit cell tags can name and the
/// grid can hold, a genome clamp of at least one gene, a neuron cap the
/// 7-bit indices can reach, and chances that are proper ratios.
pub open spec fn params_valid(p: Parameters) -> bool {
    &&& 1 <= p.size_x <= 0x7fff
    &&& 1 <= p.size_y <= 0x7fff
    &&& 1 <= p.population < 0xffff
    &&& (p.population as int) < (p.size_x as int) * (p.size_y as int)
    &&& 1 <= p.max_genome_length
    &&& 1 <= p.max_number_neurons <= 128
    &&& p.point_mutation_rate_ppm <= 1_000_000
    &&& p.gene_insertion_deletion_rate_ppm <= 1_000_000
    &&& p.delete_ration_ppm <= 1_000_000
    &&& 1 <= p.signal_layers
}

impl Parameters {
    /// Whether this configuration satisfies everything the core requires
    /// of one: the check a caller of `Peeps::new` should make on
    /// configurations read from outside.
    pub fn validate(&self) -> (r: bool)
        ensures
            r == params_valid(*self),
    {
        if self.size_x < 1 || self.size_x > 0x7fff {
            return false;
        }
        if self.size_y < 1 || self.size_y > 0x7fff {
            return false;
        }
        if self.population < 1 || self.population >= 0xffff {
            return false;
        }
        proof {
            assert((self.size_x as int) * (self.size_y as int) <= 0x7fff * 0x7fff)
                by (nonlinear_arith)
                requires
                    self.size_x <= 0x7fff,
                    self.size_y <= 0x7fff,
            ;
        }
        if (self.population as u64) >= (self.size_x as u64) * (self.size_y as u64) {
            return false;
        }
        self.max_genome_length >= 1 && self.max_number_neurons >= 1
            && self.max_number_neurons <= 128 && self.point_mutation_rate_ppm <= 1_000_000
            && self.gene_insertion_deletion_rate_ppm <= 1_000_000
            && self.delete_ration_ppm <= 1_000_000 && self.signal_layers >= 1
    }


    /// The default configuration.
    pub fn defaults() -> (p: Parameters)
        ensures
            p.size_x == 128,
            p.size_y == 128,
            p.population == 100,
            p.steps_per_generation == 500,
            p.max_generations == 0,
            p.num_threads == 4,
            p.signal_layers == 1,
            p.max_genome_length == 20,
            p.max_number_neurons == 10,
            p.point_mutation_rate_ppm == 100,
            p.gene_insertion_deletion_rate_ppm == 100,
            p.delete_ration_ppm == 700_000,
            p.sexual_reproduction == true,
            p.kill_enabled == false,
            p.choose_parents_by_fitness == true,
            p.population_sensor_radius == 2,
            p.signal_sensor_radius == 1,
            p.responsiveness_milli == 500,
            p.responsiveness_curve_k_factor == 2,
            p.long_probe_distance == 16,
            p.valence_saturation_magnitude_milli == 500,
            params_valid(p),
    {
        let p = Parameters {
            size_x: parameter_defaults::size_x(),
            size_y: parameter_defaults::size_y(),
            population: parameter_defaults::population(),
            steps_per_generation: parameter_defaults::steps_per_generation(),
            max_generations: parameter_defaults::max_generations(),
            num_threads: parameter_defaults::num_threads(),
            signal_layers: parameter_defaults::signal_layers(),
            max_genome_length: parameter_defaults::max_genome_length(),
            max_number_neurons: parameter_defaults::max_number_neurons(),
            point_mutation_rate_ppm: parameter_defaults::point_mutation_rate_ppm(),
            gene_insertion_deletion_rate_ppm: parameter_defaults::gene_insertion_deletion_rate_ppm(),
            delete_ration_ppm: parameter_defaults::delete_ration_ppm(),
            sexual_reproduction: parameter_defaults::sexual_reproduction(),
            kill_enabled: parameter_defaults::kill_enabled(),
            choose_parents_by_fitness: parameter_defaults::choose_parents_by_fitness(),
            population_sensor_radius: parameter_defaults::population_sensor_radius(),
            signal_sensor_radius: parameter_defaults::signal_sensor_radius(),
            responsiveness_milli: parameter_defaults::responsiveness_milli(),
            responsiveness_curve_k_factor: parameter_defaults::responsiveness_curve_k_factor(),
            long_probe_distance: parameter_defaults::long_probe_distance(),
            valence_saturation_magnitude_milli: parameter_defaults::valence_saturation_magnitude_milli(),
        };
        proof {
            assert((p.population as int) < (p.size_x as int) * (p.size_y as int)) by (nonlinear_arith)
                requires
                    p.population == 100,
                    p.size_x == 128,
                    p.size_y == 128,
            ;
        }
        p
    }
}

} // verus!
