pub mod brain;
pub mod gene;
pub mod genome;
pub mod grid;
pub mod individual;
pub mod mutations;
pub mod parameter_defaults;
pub mod parameters;
pub mod peeps;
pub mod rng;
pub mod sensor_actions;
pub mod signals;
pub mod similarity;
pub mod survival_criteria;
pub mod text;
pub mod types;
pub mod world;
