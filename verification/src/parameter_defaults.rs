use vstd::prelude::*;

verus! {

/// Default world width.
pub fn size_x() -> (r: u16)
    ensures
        r == 128,
{
    128
}

/// Default world height.
pub fn size_y() -> (r: u16)
    ensures
        r == 128,
{
    128
}

/// Default target population per generation.
pub fn population() -> (r: u16)
    ensures
        r == 100,
{
    100
}

/// Default number of steps in one generation.
pub fn steps_per_generation() -> (r: u16)
    ensures
        r == 500,
{
    500
}

/// Default generation cap; zero means unlimited.
pub fn max_generations() -> (r: u32)
    ensures
        r == 0,
{
    0
}

/// Default advisory thread count.
pub fn num_threads() -> (r: u8)
    ensures
        r == 4,
{
    4
}

/// Default number of signal layers.
pub fn signal_layers() -> (r: u8)
    ensures
        r == 1,
{
    1
}

/// Default clamp on genome size.
pub fn max_genome_length() -> (r: u16)
    ensures
        r == 20,
{
    20
}

/// Default wiring cap on inner neurons.
pub fn max_number_neurons() -> (r: u16)
    ensures
        r == 10,
{
    10
}

/// Default per-gene mutation chance, in parts per million.
pub fn point_mutation_rate_ppm() -> (r: u32)
    ensures
        r == 100,
{
    100
}

/// Default per-child insertion or deletion chance, in parts per million.
pub fn gene_insertion_deletion_rate_ppm() -> (r: u32)
    ensures
        r == 100,
{
    100
}

/// Default share of deletions among insertions and deletions, in parts
/// per million.
pub fn delete_ration_ppm() -> (r: u32)
    ensures
        r == 700_000,
{
    700_000
}

/// Default choice of two-parent breeding.
pub fn sexual_reproduction() -> (r: bool)
    ensures
        r == true,
{
    true
}

/// Default state of the kill action.
pub fn kill_enabled() -> (r: bool)
    ensures
        r == false,
{
    false
}

/// Default choice of fitness-weighted parent picks.
pub fn choose_parents_by_fitness() -> (r: bool)
    ensures
        r == true,
{
    true
}

/// Default neighbourhood radius of the population sensors, in cells.
pub fn population_sensor_radius() -> (r: u16)
    ensures
        r == 2,
{
    2
}

/// Default neighbourhood radius of the signal sensors, in cells.
pub fn signal_sensor_radius() -> (r: u16)
    ensures
        r == 1,
{
    1
}

/// Default initial responsiveness, in thousandths.
pub fn responsiveness_milli() -> (r: u32)
    ensures
        r == 500,
{
    500
}

/// Default sharpness exponent of the response curve.
pub fn responsiveness_curve_k_factor() -> (r: u16)
    ensures
        r == 2,
{
    2
}

/// Default forward probe range, in cells.
pub fn long_probe_distance() -> (r: u32)
    ensures
        r == 16,
{
    16
}

/// Default valence saturation magnitude, in thousandths.
pub fn valence_saturation_magnitude_milli() -> (r: u32)
    ensures
        r == 500,
{
    500
}

} // verus!
