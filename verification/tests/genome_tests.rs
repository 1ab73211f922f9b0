use biosim::brain::NeuralNet;
use biosim::gene::Gene;
use biosim::genome::{
    genome_to_hex, genome_to_string, get_connection_map_from_genome, make_random_genome,
    remove_useless_neurons_from_genome, renumber_genome, Genome,
};
use biosim::sensor_actions::{NUM_ACTIONS, NUM_SENSORS};

#[test]
fn test_make_random_genome_length() {
    let genome = make_random_genome(7);
    assert_eq!(genome.len(), 7);
}

#[test]
fn test_genome_to_hex() {
    let genome: Genome = vec![Gene::new(false, 16, true, 25, 1), Gene::new(true, 1, false, 2, -1)];
    assert_eq!(genome_to_hex(&genome), "10990001:8102ffff");
    let empty: Genome = Vec::new();
    assert_eq!(genome_to_hex(&empty), "");
}

#[test]
fn test_genome_to_string() {
    let genome: Genome = vec![Gene::new(false, 3, true, 0, 5)];
    assert_eq!(
        genome_to_string(&genome),
        "Gene(source_type=false, source_num=3, sink_type=true, sink_num=0, weight=5) "
    );
}

#[test]
fn test_renumber_domain() {
    // Indices far outside the domain come back reduced into it.
    let genome: Genome = vec![
        Gene::new(false, 127, false, 126, 1),
        Gene::new(true, 125, true, 124, 2),
        Gene::new(false, 3, true, 99, 3),
    ];
    let renumbered = renumber_genome(&genome, 4);
    assert_eq!(renumbered.len(), 3);
    for gene in &renumbered {
        if gene.get_source_type() {
            assert!(gene.get_source_num() < NUM_SENSORS);
        } else {
            assert!(gene.get_source_num() < 4);
        }
        if gene.get_sink_type() {
            assert!(gene.get_sink_num() < NUM_ACTIONS);
        } else {
            assert!(gene.get_sink_num() < 4);
        }
        assert!(genome.iter().any(|g| g.weight == gene.weight));
    }
    assert_eq!(renumbered[0].get_source_num(), 127 % 4);
    assert_eq!(renumbered[0].get_sink_num(), 126 % 4);
    assert_eq!(renumbered[1].get_source_num(), 125 % NUM_SENSORS);
    assert_eq!(renumbered[1].get_sink_num(), 124 % NUM_ACTIONS);
}

#[test]
fn test_connection_map_counts() {
    // One self-loop on neuron 3, one sensor input into it, one output to
    // an action.
    let genome: Genome = vec![
        Gene::new(false, 3, false, 3, 1),
        Gene::new(true, 0, false, 3, 2),
        Gene::new(false, 3, true, 0, 3),
    ];
    let map = get_connection_map_from_genome(&genome);
    assert_eq!(map.len(), 128);
    let node3 = map[3].expect("neuron 3 is touched");
    assert_eq!(node3.outputs, 2);
    assert_eq!(node3.self_inputs, 1);
    assert_eq!(node3.other_inputs, 1);
    for n in 0..128 {
        if n != 3 {
            assert!(map[n].is_none());
        }
    }
}

#[test]
fn test_prune_useless_neurons() {
    // Neuron 5 only feeds itself, so its genes disappear; neuron 2 keeps
    // its sensor input and action output.
    let genome0: Genome = vec![
        Gene::new(false, 5, false, 5, 1),
        Gene::new(true, 0, false, 2, 2),
        Gene::new(false, 2, true, 0, 3),
    ];
    let mut genome = genome0.clone();
    let mut map = get_connection_map_from_genome(&genome);
    remove_useless_neurons_from_genome(&mut genome, &mut map);
    assert_eq!(genome.len(), 2);
    assert!(map[5].is_none());
    let node2 = map[2].expect("neuron 2 survives");
    assert_eq!(node2.outputs, 1);
    assert_eq!(node2.self_inputs, 0);
    assert_eq!(node2.other_inputs, 1);

    // Pruning an already-pruned genome changes nothing.
    let genome_snapshot = genome.clone();
    let map_snapshot = map.clone();
    remove_useless_neurons_from_genome(&mut genome, &mut map);
    assert_eq!(genome, genome_snapshot);
    assert_eq!(map, map_snapshot);
}

#[test]
fn test_wiring_keeps_driven_self_loop() {
    // A self-loop on neuron 3, a sensor input into it, and an output to
    // an action: the neuron has a non-self output, so it survives with
    // all three genes, renumbered to zero.
    let genome: Genome = vec![
        Gene::new(false, 3, false, 3, 1),
        Gene::new(true, 0, false, 3, 2),
        Gene::new(false, 3, true, 0, 3),
    ];
    let net = NeuralNet::new(&genome, 4);
    assert_eq!(net.neurons.len(), 1);
    assert!(net.neurons[0].driven);
    assert_eq!(net.connections.len(), 3);
    // First the renumbered self-loop and the sensor input, in genome
    // order.
    assert_eq!(net.connections[0].get_source_type(), false);
    assert_eq!(net.connections[0].get_source_num(), 0);
    assert_eq!(net.connections[0].get_sink_type(), false);
    assert_eq!(net.connections[0].get_sink_num(), 0);
    assert_eq!(net.connections[1].get_source_type(), true);
    assert_eq!(net.connections[1].get_sink_type(), false);
    assert_eq!(net.connections[1].get_sink_num(), 0);
    // Then the renumbered neuron driving the action.
    assert_eq!(net.connections[2].get_source_type(), false);
    assert_eq!(net.connections[2].get_source_num(), 0);
    assert_eq!(net.connections[2].get_sink_type(), true);
    assert_eq!(net.connections[2].get_sink_num(), 0);
}

#[test]
fn test_wiring_drops_pure_self_loop() {
    // A neuron whose only gene feeds itself is useless: it vanishes
    // together with its gene, and the direct sensor-to-action gene is
    // all that remains.
    let genome: Genome = vec![
        Gene::new(false, 3, false, 3, 1),
        Gene::new(true, 0, true, 0, 2),
    ];
    let net = NeuralNet::new(&genome, 4);
    assert_eq!(net.neurons.len(), 0);
    assert_eq!(net.connections.len(), 1);
    assert_eq!(net.connections[0].get_source_type(), true);
    assert_eq!(net.connections[0].get_sink_type(), true);
    assert_eq!(net.connections[0].weight, 2);
}

#[test]
fn test_wiring_driven_flags() {
    // Neuron 1 has a sensor input: driven.  Neuron 2 has only an output:
    // it survives as an undriven bias feed.
    let genome: Genome = vec![
        Gene::new(true, 0, false, 1, 1),
        Gene::new(false, 1, true, 0, 2),
        Gene::new(false, 2, true, 1, 3),
    ];
    let net = NeuralNet::new(&genome, 4);
    assert_eq!(net.neurons.len(), 2);
    assert!(net.neurons[0].driven);
    assert!(!net.neurons[1].driven);
}

#[test]
fn test_wiring_orders_neuron_sinks_first() {
    // Genome order interleaves action and neuron sinks; the wired net
    // puts every neuron sink before every action sink.
    let genome: Genome = vec![
        Gene::new(true, 0, true, 1, 1),
        Gene::new(true, 1, false, 0, 2),
        Gene::new(false, 0, true, 2, 3),
        Gene::new(true, 2, false, 0, 4),
    ];
    let net = NeuralNet::new(&genome, 4);
    assert_eq!(net.neurons.len(), 1);
    assert_eq!(net.connections.len(), 4);
    assert_eq!(net.connections[0].get_sink_type(), false);
    assert_eq!(net.connections[0].weight, 2);
    assert_eq!(net.connections[1].get_sink_type(), false);
    assert_eq!(net.connections[1].weight, 4);
    assert_eq!(net.connections[2].get_sink_type(), true);
    assert_eq!(net.connections[2].weight, 1);
    assert_eq!(net.connections[3].get_sink_type(), true);
    assert_eq!(net.connections[3].weight, 3);
}

#[test]
fn test_wiring_caps_neurons() {
    let genome = make_random_genome(30);
    let net = NeuralNet::new(&genome, 5);
    assert!(net.neurons.len() <= 5);
    for conn in &net.connections {
        if !conn.get_sink_type() {
            assert!((conn.get_sink_num() as usize) < net.neurons.len());
        }
        if !conn.get_source_type() {
            assert!((conn.get_source_num() as usize) < net.neurons.len());
        }
    }
}

#[test]
fn test_graph_strings() {
    let genome: Genome = vec![
        Gene::new(true, 0, false, 3, 1),
        Gene::new(false, 3, true, 0, 2),
    ];
    let net = NeuralNet::new(&genome, 4);
    assert_eq!(net.to_graph_string(), "Lx N0\nN0 MvX\n");
    assert_eq!(
        net.to_mathematica_string(),
        "{\"Lx\"\\[DirectedEdge]\"N0\",\"N0\"\\[DirectedEdge]\"MvX\"}"
    );
    let empty: Genome = vec![Gene::new(false, 1, false, 1, 1)];
    let empty_net = NeuralNet::new(&empty, 4);
    assert_eq!(empty_net.to_graph_string(), "");
    assert_eq!(empty_net.to_mathematica_string(), "{\"}");
}
