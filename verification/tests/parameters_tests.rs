use biosim::parameter_defaults::{kill_enabled, size_y};
use biosim::parameters::Parameters;
use biosim::sensor_actions::{
    action_of_index, sensor_of_index, Action, Sensor, NUM_ACTIONS, NUM_SENSORS,
};

#[test]
fn test_defaults() {
    let params = Parameters::defaults();
    assert_eq!(params.size_y, size_y());
    assert_eq!(params.kill_enabled, kill_enabled());
    assert_eq!(params.population, 100);
}

#[test]
fn test_default_table() {
    let params = Parameters::defaults();
    assert_eq!(params.size_x, 128);
    assert_eq!(params.steps_per_generation, 500);
    assert_eq!(params.max_generations, 0);
    assert_eq!(params.num_threads, 4);
    assert_eq!(params.signal_layers, 1);
    assert_eq!(params.max_genome_length, 20);
    assert_eq!(params.max_number_neurons, 10);
    assert_eq!(params.point_mutation_rate_ppm, 100);
    assert_eq!(params.gene_insertion_deletion_rate_ppm, 100);
    assert_eq!(params.delete_ration_ppm, 700_000);
    assert!(params.sexual_reproduction);
    assert!(params.choose_parents_by_fitness);
    assert_eq!(params.population_sensor_radius, 2);
    assert_eq!(params.responsiveness_milli, 500);
    assert_eq!(params.responsiveness_curve_k_factor, 2);
    assert_eq!(params.long_probe_distance, 16);
    assert_eq!(params.valence_saturation_magnitude_milli, 500);
}

#[test]
fn test_sensor_names() {
    assert_eq!(Sensor::LocX.get_name(), "loc X");
    assert_eq!(Sensor::Osc1.get_name(), "oscillator 1");
    assert_eq!(Sensor::Signal0LR.get_name(), "signal 0 left-right");
    assert_eq!(Action::MoveX.get_name(), "move X");
    assert_eq!(Action::KillForward.get_name(), "kill forward");
}

#[test]
fn test_enabled_order() {
    assert_eq!(NUM_SENSORS, 21);
    assert_eq!(NUM_ACTIONS, 16);
    assert!(matches!(sensor_of_index(0), Sensor::LocX));
    assert!(matches!(sensor_of_index(13), Sensor::Osc1));
    assert!(matches!(sensor_of_index(20), Sensor::Signal0LR));
    assert!(matches!(action_of_index(0), Action::MoveX));
    assert!(matches!(action_of_index(12), Action::MoveSouth));
    assert!(matches!(action_of_index(15), Action::MoveReverse));
}

#[test]
fn test_short_names() {
    assert_eq!(Sensor::LocX.to_text(), "Lx");
    assert_eq!(Sensor::BoundaryDistY.to_text(), "EDy");
    assert_eq!(Action::MoveRL.to_text(), "MRL");
    assert_eq!(Action::SetOscillatorPeriod.to_text(), "OSC");
}

#[test]
fn test_validate() {
    let mut params = Parameters::defaults();
    assert!(params.validate());
    params.max_number_neurons = 0;
    assert!(!params.validate());
    params.max_number_neurons = 200;
    assert!(!params.validate());
    params = Parameters::defaults();
    params.size_x = 0;
    assert!(!params.validate());
    params = Parameters::defaults();
    params.size_x = 4;
    params.size_y = 4;
    params.population = 16;
    assert!(!params.validate());
    params.population = 15;
    assert!(params.validate());
    params.point_mutation_rate_ppm = 1_000_001;
    assert!(!params.validate());
}
