use vstd::prelude::*;
use crate::gene::{self, Gene};
use crate::genome::{
    self, count_outputs, entry_counts_ok, gene_from, gene_in_domain, map_wf, touches, Genome,
    CONNECTION_MAP_SIZE,
};
use crate::sensor_actions::{
    action_of_index, sensor_of_index, spec_action_of_index, spec_action_short_name,
    spec_sensor_of_index, spec_sensor_short_name,
};
use crate::text;
use vstd::string::StringExecFns;

verus! {

/// One inner neuron of a wired net.  A driven neuron has at least one
/// input besides itself; only driven neurons' outputs change when the
/// net runs.
#[derive(Debug, Clone, Copy, PartialEq, Eq, Structural)]
pub struct Neuron {
    pub driven: bool,
}

/// A wired neural net: an ordered list of connections — first every
/// connection into a neuron, then every connection into an action — and
/// the surviving neurons, densely numbered in the order the connections
/// name them.
pub struct NeuralNet {
    pub connections: Genome,
    pub neurons: Vec<Neuron>,
}

/// Wiring soundness: every neuron index that a connection list names
/// lies below the number of neurons.
pub open spec fn net_refs_ok(connections: Seq<Gene>, num_neurons: int) -> bool {
    forall|i: int| 0 <= i < connections.len() ==> {
        let g = #[trigger] connections[i];
        &&& (!gene::spec_sink_type(g.encoding) ==> gene::spec_sink_num(g.encoding) < num_neurons)
        &&& (!gene::spec_source_type(g.encoding) ==> gene::spec_source_num(g.encoding) < num_neurons)
    }
}

/// Every sensor source and action sink of a connection list lies in its
/// fixed enumeration.
pub open spec fn net_endpoints_in_domain(connections: Seq<Gene>) -> bool {
    forall|i: int| 0 <= i < connections.len() ==> {
        let g = #[trigger] connections[i];
        &&& (gene::spec_source_type(g.encoding)
            ==> gene::spec_source_num(g.encoding) < crate::sensor_actions::NUM_SENSORS)
        &&& (gene::spec_sink_type(g.encoding)
            ==> gene::spec_sink_num(g.encoding) < crate::sensor_actions::NUM_ACTIONS)
    }
}

/// Connection ordering: every connection into a neuron stands before
/// every connection into an action.
pub open spec fn net_ordered(connections: Seq<Gene>) -> bool {
    forall|i: int, j: int| 0 <= i <= j < connections.len()
        && gene::spec_sink_type(#[trigger] connections[i].encoding)
        ==> gene::spec_sink_type(#[trigger] connections[j].encoding)
}

/// Whether one of the first `k` map entries is present and carries the
/// dense number `c`.
pub open spec fn entry_numbered_below(m: Seq<Option<genome::Node>>, k: int, c: int) -> bool {
    exists|n: int| 0 <= n < k && (#[trigger] m[n]) is Some
        && m[n]->Some_0.remapped_number as int == c
}

/// A dense number found among the first entries is found among more of
/// them.
proof fn lemma_entry_numbered_widen(m: Seq<Option<genome::Node>>, k1: int, k2: int, c: int)
    requires
        k1 <= k2,
        entry_numbered_below(m, k1, c),
    ensures
        entry_numbered_below(m, k2, c),
{
    let n = choose|n: int| 0 <= n < k1 && (#[trigger] m[n]) is Some
        && m[n]->Some_0.remapped_number as int == c;
    assert(0 <= n < k2 && m[n] is Some);
}

/// Whether a connection feeds the dense neuron `k` from a sensor or
/// from a different neuron.
pub open spec fn is_foreign_input(g: Gene, k: int) -> bool {
    &&& !gene::spec_sink_type(g.encoding)
    &&& gene::spec_sink_num(g.encoding) == k
    &&& !(!gene::spec_source_type(g.encoding) && gene::spec_source_num(g.encoding) == k)
}

/// How many connections feed the dense neuron `k` from a sensor or from
/// a different neuron.
pub open spec fn count_foreign_inputs(connections: Seq<Gene>, k: int) -> nat
    decreases connections.len(),
{
    if connections.len() == 0 {
        0
    } else {
        count_foreign_inputs(connections.drop_last(), k)
            + if is_foreign_input(connections.last(), k) { 1nat } else { 0nat }
    }
}

/// Whether a connection leaves the dense neuron `k`.
pub open spec fn is_source_at(g: Gene, k: int) -> bool {
    !gene::spec_source_type(g.encoding) && gene::spec_source_num(g.encoding) == k
}

/// Whether a connection leads the dense neuron `k` back into itself.
pub open spec fn is_self_loop_at(g: Gene, k: int) -> bool {
    is_source_at(g, k) && !gene::spec_sink_type(g.encoding) && gene::spec_sink_num(g.encoding) == k
}

/// How many connections leave the dense neuron `k`.
pub open spec fn count_sources_at(connections: Seq<Gene>, k: int) -> nat
    decreases connections.len(),
{
    if connections.len() == 0 {
        0
    } else {
        count_sources_at(connections.drop_last(), k)
            + if is_source_at(connections.last(), k) { 1nat } else { 0nat }
    }
}

/// How many connections lead the dense neuron `k` back into itself.
pub open spec fn count_self_loops_at(connections: Seq<Gene>, k: int) -> nat
    decreases connections.len(),
{
    if connections.len() == 0 {
        0
    } else {
        count_self_loops_at(connections.drop_last(), k)
            + if is_self_loop_at(connections.last(), k) { 1nat } else { 0nat }
    }
}

/// Whether some connection leaves the dense neuron `k`.
pub open spec fn has_source_numbered(connections: Seq<Gene>, k: int) -> bool {
    exists|c: int| 0 <= c < connections.len() && !gene::spec_source_type(
        (#[trigger] connections[c]).encoding,
    ) && gene::spec_source_num(connections[c].encoding) == k
}

/// Every neuron of the net has at least one outgoing connection.
pub open spec fn net_neurons_have_outputs(connections: Seq<Gene>, num_neurons: int) -> bool {
    forall|k: int| 0 <= k < num_neurons ==> has_source_numbered(connections, k)
}

/// A connection that leaves `k` still leaves it after another
/// connection is appended.
proof fn lemma_has_source_push(connections: Seq<Gene>, g: Gene, k: int)
    requires
        has_source_numbered(connections, k),
    ensures
        has_source_numbered(connections.push(g), k),
{
    let c = choose|c: int| 0 <= c < connections.len() && !gene::spec_source_type(
        (#[trigger] connections[c]).encoding,
    ) && gene::spec_source_num(connections[c].encoding) == k;
    assert(connections.push(g)[c] == connections[c]);
}

impl NeuralNet {
    /// Wires a genome into a runnable net: renumbers the genome into its
    /// domain, counts each neuron's fan-in and fan-out, prunes the
    /// neurons whose outputs all feed themselves, numbers the survivors
    /// densely, and emits the connections — neuron sinks first, action
    /// sinks after, each half in genome order — with neuron indices
    /// rewritten to the dense numbering.
    pub fn new(genome: &Genome, max_number_neurons: u16) -> (net: NeuralNet)
        requires
            1 <= max_number_neurons <= 128,
        ensures
            net.neurons@.len() <= max_number_neurons,
            net_refs_ok(net.connections@, net.neurons@.len() as int),
            net_ordered(net.connections@),
            net_endpoints_in_domain(net.connections@),
            net_neurons_have_outputs(net.connections@, net.neurons@.len() as int),
            genome::action_profile(net.connections@) == genome::renumbered_action_profile(genome@),
            genome::is_subsequence(
                genome::neuron_half_profile(net.connections@),
                genome::renumbered_neuron_profile(genome@),
            ),
            forall|k: int| 0 <= k < net.neurons@.len()
                ==> ((#[trigger] net.neurons@[k]).driven <==> count_foreign_inputs(
                    net.connections@,
                    k,
                ) > 0),
            forall|k: int| 0 <= k < net.neurons@.len()
                ==> count_sources_at(#[trigger] net.connections@, k) > count_self_loops_at(
                    net.connections@,
                    k,
                ),
    {
        let mut renumbered = genome::renumber_genome(genome, max_number_neurons);
        let ghost renumbered0 = renumbered@;
        let mut connection_map = genome::get_connection_map_from_genome(&renumbered);
        genome::remove_useless_neurons_from_genome(&mut renumbered, &mut connection_map);
        let ghost pruned = renumbered@;

        proof {
            // Both halves' payloads ride through renumbering and pruning
            // untouched but for the index reduction.
            genome::lemma_profiles_pointwise(genome@, renumbered0);
            assert(genome::action_profile(pruned) == genome::renumbered_action_profile(genome@));
            assert(genome::is_subsequence(
                genome::neuron_half_profile(pruned),
                genome::renumbered_neuron_profile(genome@),
            ));
        }
        proof {
            // Every pruned gene is one of the renumbered genes, so it
            // still lies in its domain.
            assert forall|j: int| 0 <= j < pruned.len() implies gene_in_domain(
                #[trigger] pruned[j],
                max_number_neurons,
            ) by {
                assert(gene_from(renumbered0, pruned[j]));
                let i = choose|i: int| 0 <= i < renumbered0.len() && #[trigger] renumbered0[i] == pruned[j];
            }
            // Every surviving map entry belongs to a neuron below the
            // cap: it still has an output, and the gene that leaves it
            // names it as a source index, which the renumbering bounded.
            assert forall|n: u8| n < 128 && (#[trigger] connection_map@[n as int]) is Some
                implies (n as u16) < max_number_neurons by {
                assert(entry_counts_ok(connection_map@[n as int], pruned, n));
                assert(count_outputs(pruned, n) > 0);
                genome::lemma_output_witness(pruned, n);
                let i = choose|i: int| 0 <= i < pruned.len() && genome::is_neuron_source(#[trigger] pruned[i], n);
            }
        }

        // Number the survivors densely, in ascending id order, and
        // create one neuron for each; a neuron is driven exactly when
        // something other than itself feeds it.
        let mut neurons: Vec<Neuron> = Vec::new();
        let mut counter: u8 = 0;
        let mut k: usize = 0;
        proof {
            assert(connection_map@.take(0) =~= Seq::<Option<genome::Node>>::empty());
            assert(genome::count_some(Seq::<Option<genome::Node>>::empty()) == 0);
        }
        while k < CONNECTION_MAP_SIZE
            invariant
                k <= CONNECTION_MAP_SIZE,
                connection_map@.len() == CONNECTION_MAP_SIZE,
                counter as int == genome::count_some(connection_map@.take(k as int)),
                counter <= k,
                neurons@.len() == counter as int,
                map_wf(connection_map@, pruned),
                forall|n: u8| n < 128
                    ==> ((#[trigger] connection_map@[n as int]) is Some ==> (n as u16) < max_number_neurons),
                forall|n: u8| n < 128 && connection_map@[n as int] is Some ==> {
                    let nd = (#[trigger] connection_map@[n as int])->Some_0;
                    nd.outputs > nd.self_inputs
                },
                forall|n: u8| (n as usize) < k && connection_map@[n as int] is Some
                    ==> (#[trigger] connection_map@[n as int])->Some_0.remapped_number < counter,
                forall|c: int| 0 <= c < counter
                    ==> #[trigger] entry_numbered_below(connection_map@, k as int, c),
                forall|n1: int, n2: int| 0 <= n1 < n2 < k
                    && (#[trigger] connection_map@[n1]) is Some
                    && (#[trigger] connection_map@[n2]) is Some
                    ==> connection_map@[n1]->Some_0.remapped_number
                        != connection_map@[n2]->Some_0.remapped_number,
                forall|n: int| 0 <= n < k && (#[trigger] connection_map@[n]) is Some ==> {
                    let nd = connection_map@[n]->Some_0;
                    &&& nd.remapped_number < neurons@.len()
                    &&& neurons@[nd.remapped_number as int].driven == (nd.other_inputs != 0)
                },
            decreases CONNECTION_MAP_SIZE - k,
        {
            let ghost m_pre = connection_map@;
            let ghost neurons_pre = neurons@;
            proof {
                genome::lemma_count_some_take_step(connection_map@, k as int);
            }
            let entry = connection_map[k];
            match entry {
                Some(nd) => {
                    connection_map[k] = Some(genome::Node {
                        remapped_number: counter,
                        outputs: nd.outputs,
                        self_inputs: nd.self_inputs,
                        other_inputs: nd.other_inputs,
                    });
                    neurons.push(Neuron { driven: nd.other_inputs != 0 });
                    counter = counter + 1;
                    proof {
                        assert(connection_map@.take(k + 1) =~= m_pre.take(k as int).push(
                            connection_map@[k as int],
                        ));
                        assert(connection_map@.take(k + 1).drop_last() =~= m_pre.take(k as int));
                        assert forall|n: u8| n < 128 implies entry_counts_ok(
                            #[trigger] connection_map@[n as int],
                            pruned,
                            n,
                        ) && (touches(pruned, n) ==> connection_map@[n as int] is Some) by {
                            assert(entry_counts_ok(m_pre[n as int], pruned, n));
                        }
                        assert(neurons@ == neurons_pre.push(Neuron { driven: nd.other_inputs != 0 }));
                        assert forall|n: int| 0 <= n < k + 1 && (#[trigger] connection_map@[n])
                            is Some implies {
                            let nd2 = connection_map@[n]->Some_0;
                            &&& nd2.remapped_number < neurons@.len()
                            &&& neurons@[nd2.remapped_number as int].driven == (nd2.other_inputs
                                != 0)
                        } by {
                            if n < k {
                                assert(connection_map@[n] == m_pre[n]);
                                assert(neurons@[m_pre[n]->Some_0.remapped_number as int]
                                    == neurons_pre[m_pre[n]->Some_0.remapped_number as int]);
                            } else {
                                assert(neurons@[neurons_pre.len() as int]
                                    == Neuron { driven: nd.other_inputs != 0 });
                            }
                        }
                        assert forall|c: int| 0 <= c < counter implies
                            #[trigger] entry_numbered_below(connection_map@, k + 1, c) by {
                            if c < counter - 1 {
                                assert(entry_numbered_below(m_pre, k as int, c));
                                let n0 = choose|n0: int| 0 <= n0 < k
                                    && (#[trigger] m_pre[n0]) is Some
                                    && m_pre[n0]->Some_0.remapped_number as int == c;
                                assert(connection_map@[n0] == m_pre[n0]);
                                assert(0 <= n0 < k + 1 && connection_map@[n0] is Some);
                            } else {
                                assert(connection_map@[k as int] is Some
                                    && connection_map@[k as int]->Some_0.remapped_number as int == c);
                            }
                        }
                    }
                }
                None => {
                    proof {
                        assert(connection_map@.take(k + 1) =~= connection_map@.take(k as int).push(
                            connection_map@[k as int],
                        ));
                        assert forall|c: int| 0 <= c < counter implies
                            #[trigger] entry_numbered_below(connection_map@, k + 1, c) by {
                            lemma_entry_numbered_widen(connection_map@, k as int, k + 1, c);
                        }
                    }
                }
            }
            k = k + 1;
        }
        proof {
            assert(connection_map@.take(CONNECTION_MAP_SIZE as int) =~= connection_map@);
            genome::lemma_count_some_bound(connection_map@, max_number_neurons as int);
            assert(neurons@.len() <= max_number_neurons);
        }

        let num_neurons = counter;
        let mut neural_connections: Genome = Vec::new();
        proof {
            assert(genome::action_profile(neural_connections@) =~= Seq::<(bool, u8, u8, i16)>::empty());
            assert(pruned.take(0) =~= Seq::<Gene>::empty());
            assert(genome::neuron_half_profile(neural_connections@)
                =~= genome::neuron_half_profile(pruned.take(0)));
            assert forall|kk: int| #[trigger] count_foreign_inputs(neural_connections@, kk) == 0
                && genome::count_other_inputs(Seq::<Gene>::empty(), kk as u8) == 0 by {
            }
            assert forall|n: u8| n < 128 implies #[trigger] genome::count_other_inputs(
                pruned.take(0),
                n,
            ) == 0 by {
            }
        }

        // First the connections into neurons, in genome order, with both
        // endpoints rewritten to the dense numbering.
        let mut i: usize = 0;
        while i < renumbered.len()
            invariant
                i <= renumbered.len(),
                pruned == renumbered@,
                connection_map@.len() == CONNECTION_MAP_SIZE,
                map_wf(connection_map@, pruned),
                num_neurons <= 128,
                num_neurons as int == neurons@.len(),
                forall|n: u8| n < 128 && connection_map@[n as int] is Some
                    ==> (#[trigger] connection_map@[n as int])->Some_0.remapped_number < num_neurons,
                forall|c: int| 0 <= c < neural_connections@.len() ==> {
                    let g = #[trigger] neural_connections@[c];
                    &&& !gene::spec_sink_type(g.encoding)
                    &&& gene::spec_sink_num(g.encoding) < num_neurons
                    &&& (!gene::spec_source_type(g.encoding) ==> gene::spec_source_num(g.encoding) < num_neurons)
                },
                forall|j2: int| 0 <= j2 < pruned.len() ==> gene_in_domain(
                    #[trigger] pruned[j2],
                    max_number_neurons,
                ),
                net_endpoints_in_domain(neural_connections@),
                genome::action_profile(neural_connections@) == Seq::<(bool, u8, u8, i16)>::empty(),
                genome::neuron_half_profile(neural_connections@)
                    == genome::neuron_half_profile(pruned.take(i as int)),
                genome::is_subsequence(
                    genome::neuron_half_profile(pruned),
                    genome::renumbered_neuron_profile(genome@),
                ),
                forall|c: int| 0 <= c < num_neurons
                    ==> #[trigger] entry_numbered_below(connection_map@, 128, c),
                forall|n1: int, n2: int| 0 <= n1 < n2 < 128
                    && (#[trigger] connection_map@[n1]) is Some
                    && (#[trigger] connection_map@[n2]) is Some
                    ==> connection_map@[n1]->Some_0.remapped_number
                        != connection_map@[n2]->Some_0.remapped_number,
                forall|n: int| 0 <= n < 128 && (#[trigger] connection_map@[n]) is Some ==> {
                    let nd = connection_map@[n]->Some_0;
                    &&& nd.remapped_number < neurons@.len()
                    &&& neurons@[nd.remapped_number as int].driven == (nd.other_inputs != 0)
                },
                forall|n: u8| n < 128 && (#[trigger] connection_map@[n as int]) is Some
                    ==> count_foreign_inputs(
                        neural_connections@,
                        connection_map@[n as int]->Some_0.remapped_number as int,
                    ) == genome::count_other_inputs(pruned.take(i as int), n),
                forall|n: u8| n < 128 && connection_map@[n as int] is Some ==> {
                    let nd = (#[trigger] connection_map@[n as int])->Some_0;
                    nd.outputs > nd.self_inputs
                },
                forall|n: u8| n < 128 && (#[trigger] connection_map@[n as int]) is Some
                    ==> count_sources_at(
                        neural_connections@,
                        connection_map@[n as int]->Some_0.remapped_number as int,
                    ) == genome::count_outputs_to_neurons(pruned.take(i as int), n)
                        && count_self_loops_at(
                        neural_connections@,
                        connection_map@[n as int]->Some_0.remapped_number as int,
                    ) == genome::count_self_inputs(pruned.take(i as int), n),
                forall|j2: int| 0 <= j2 < i && !gene::spec_sink_type((#[trigger] pruned[j2]).encoding)
                    && !gene::spec_source_type(pruned[j2].encoding)
                    ==> connection_map@[gene::spec_source_num(pruned[j2].encoding) as int] is Some
                        && has_source_numbered(
                        neural_connections@,
                        connection_map@[gene::spec_source_num(pruned[j2].encoding) as int]
                            ->Some_0.remapped_number as int,
                    ),
            decreases renumbered.len() - i,
        {
            let ghost conns_a_pre = neural_connections@;
            let g = renumbered[i];
            if !g.get_sink_type() {
                let mut c = g;
                let t = c.get_sink_num() as usize;
                proof {
                    genome::lemma_touches_at(pruned, i as int, gene::spec_sink_num(g.encoding));
                }
                let sink_entry = connection_map[t];
                match sink_entry {
                    Some(nd) => {
                        c.set_sink_num(nd.remapped_number);
                    }
                    None => {
                        proof {
                            assert(false);
                        }
                    }
                }
                if !c.get_source_type() {
                    let u = c.get_source_num() as usize;
                    proof {
                        genome::lemma_touches_at(pruned, i as int, gene::spec_source_num(g.encoding));
                    }
                    let source_entry = connection_map[u];
                    match source_entry {
                        Some(nd) => {
                            c.set_source_num(nd.remapped_number);
                        }
                        None => {
                            proof {
                                assert(false);
                            }
                        }
                    }
                }
                neural_connections.push(c);
            }
            proof {
                assert(pruned.take(i + 1).drop_last() =~= pruned.take(i as int));
                assert(pruned.take(i + 1).last() == pruned[i as int]);
                if neural_connections@ != conns_a_pre {
                    assert(neural_connections@.drop_last() =~= conns_a_pre);
                    assert(!gene::spec_sink_type(neural_connections@.last().encoding));
                    // The emitted connection carries the gene's payload:
                    // the rewrites touch only neuron indices.
                    assert(genome::neuron_trace(neural_connections@.last())
                        == genome::neuron_trace(pruned[i as int]));
                }
                assert(genome::neuron_half_profile(neural_connections@)
                    == genome::neuron_half_profile(pruned.take(i + 1)));
                assert forall|n: u8| n < 128 && (#[trigger] connection_map@[n as int]) is Some
                    implies count_foreign_inputs(
                    neural_connections@,
                    connection_map@[n as int]->Some_0.remapped_number as int,
                ) == genome::count_other_inputs(pruned.take(i + 1), n) by {
                    genome::lemma_counts_take_step(pruned, i as int, n);
                    let kk = connection_map@[n as int]->Some_0.remapped_number as int;
                    if neural_connections@ != conns_a_pre {
                        let c_new = neural_connections@.last();
                        assert(count_foreign_inputs(neural_connections@, kk)
                            == count_foreign_inputs(conns_a_pre, kk)
                                + if is_foreign_input(c_new, kk) { 1nat } else { 0nat });
                        let n0 = gene::spec_sink_num(pruned[i as int].encoding);
                        genome::lemma_touches_at(pruned, i as int, n0);
                        if !gene::spec_source_type(pruned[i as int].encoding) {
                            genome::lemma_touches_at(
                                pruned,
                                i as int,
                                gene::spec_source_num(pruned[i as int].encoding),
                            );
                        }
                        if n == n0 {
                            // The new connection feeds this neuron; it is
                            // foreign exactly when the gene is no self-loop,
                            // because the dense numbering never merges two
                            // surviving neurons.
                            assert(is_foreign_input(c_new, kk)
                                == !genome::is_self_loop(pruned[i as int], n));
                        } else {
                            // The new connection sinks at a different dense
                            // number, so this neuron's count stands.
                            assert(!is_foreign_input(c_new, kk));
                            assert(!genome::is_neuron_sink(pruned[i as int], n));
                        }
                    } else {
                        assert(!genome::is_neuron_sink(pruned[i as int], n));
                    }
                }
                assert forall|n: u8| n < 128 && (#[trigger] connection_map@[n as int]) is Some
                    implies count_sources_at(
                    neural_connections@,
                    connection_map@[n as int]->Some_0.remapped_number as int,
                ) == genome::count_outputs_to_neurons(pruned.take(i + 1), n)
                    && count_self_loops_at(
                    neural_connections@,
                    connection_map@[n as int]->Some_0.remapped_number as int,
                ) == genome::count_self_inputs(pruned.take(i + 1), n) by {
                    genome::lemma_counts_take_step(pruned, i as int, n);
                    genome::lemma_output_kinds_take_step(pruned, i as int, n);
                    let kk = connection_map@[n as int]->Some_0.remapped_number as int;
                    if neural_connections@ != conns_a_pre {
                        let c_new = neural_connections@.last();
                        assert(count_sources_at(neural_connections@, kk)
                            == count_sources_at(conns_a_pre, kk)
                                + if is_source_at(c_new, kk) { 1nat } else { 0nat });
                        assert(count_self_loops_at(neural_connections@, kk)
                            == count_self_loops_at(conns_a_pre, kk)
                                + if is_self_loop_at(c_new, kk) { 1nat } else { 0nat });
                        let n0 = gene::spec_sink_num(pruned[i as int].encoding);
                        genome::lemma_touches_at(pruned, i as int, n0);
                        if !gene::spec_source_type(pruned[i as int].encoding) {
                            let m = gene::spec_source_num(pruned[i as int].encoding);
                            genome::lemma_touches_at(pruned, i as int, m);
                            // The dense numbering never merges two
                            // surviving neurons, so the rewritten source
                            // hits this neuron's number exactly when the
                            // gene left this neuron.
                            assert(is_source_at(c_new, kk) == (m == n));
                            assert(is_self_loop_at(c_new, kk) == (m == n && n0 == n));
                        } else {
                            assert(!is_source_at(c_new, kk));
                        }
                    } else {
                        // The gene sinks at an action, so pass one skips
                        // it and neither count moves.
                        assert(gene::spec_sink_type(pruned[i as int].encoding));
                    }
                }
                assert forall|j2: int| 0 <= j2 < i + 1
                    && !gene::spec_sink_type((#[trigger] pruned[j2]).encoding)
                    && !gene::spec_source_type(pruned[j2].encoding)
                    implies connection_map@[gene::spec_source_num(pruned[j2].encoding) as int]
                        is Some && has_source_numbered(
                    neural_connections@,
                    connection_map@[gene::spec_source_num(pruned[j2].encoding) as int]
                        ->Some_0.remapped_number as int,
                ) by {
                    genome::lemma_touches_at(pruned, j2, gene::spec_source_num(pruned[j2].encoding));
                    if j2 < i {
                        if neural_connections@ != conns_a_pre {
                            let target = connection_map@[gene::spec_source_num(
                                pruned[j2].encoding,
                            ) as int]->Some_0.remapped_number as int;
                            lemma_has_source_push(
                                conns_a_pre,
                                neural_connections@.last(),
                                target,
                            );
                            assert(neural_connections@ =~= conns_a_pre.push(
                                neural_connections@.last(),
                            ));
                        }
                    } else {
                        // The gene just handled: it was emitted with its
                        // source rewritten to the dense number.
                        let w = neural_connections@.len() - 1;
                        assert(!gene::spec_source_type(neural_connections@[w].encoding));
                    }
                }
            }
            i = i + 1;
        }
        let ghost neuron_half = neural_connections@.len() as int;
        proof {
            assert(pruned.take(pruned.len() as int) =~= pruned);
            assert(genome::neuron_half_profile(neural_connections@)
                == genome::neuron_half_profile(pruned));
        }

        // Then the connections into actions, in genome order, with the
        // source rewritten when it is a neuron.
        proof {
            assert(pruned.take(0) =~= Seq::<Gene>::empty());
            assert(genome::action_profile(Seq::<Gene>::empty()) =~= Seq::<(bool, u8, u8, i16)>::empty());
            assert forall|n: u8| n < 128 implies #[trigger] genome::count_outputs_to_actions(
                pruned.take(0),
                n,
            ) == 0 by {
            }
        }
        let mut j: usize = 0;
        while j < renumbered.len()
            invariant
                j <= renumbered.len(),
                pruned == renumbered@,
                connection_map@.len() == CONNECTION_MAP_SIZE,
                map_wf(connection_map@, pruned),
                num_neurons <= 128,
                num_neurons as int == neurons@.len(),
                forall|n: u8| n < 128 && connection_map@[n as int] is Some
                    ==> (#[trigger] connection_map@[n as int])->Some_0.remapped_number < num_neurons,
                0 <= neuron_half <= neural_connections@.len(),
                forall|c: int| 0 <= c < neuron_half ==> {
                    let g = #[trigger] neural_connections@[c];
                    &&& !gene::spec_sink_type(g.encoding)
                    &&& gene::spec_sink_num(g.encoding) < num_neurons
                    &&& (!gene::spec_source_type(g.encoding) ==> gene::spec_source_num(g.encoding) < num_neurons)
                },
                forall|c: int| neuron_half <= c < neural_connections@.len() ==> {
                    let g = #[trigger] neural_connections@[c];
                    &&& gene::spec_sink_type(g.encoding)
                    &&& (!gene::spec_source_type(g.encoding) ==> gene::spec_source_num(g.encoding) < num_neurons)
                },
                forall|j2: int| 0 <= j2 < pruned.len() ==> gene_in_domain(
                    #[trigger] pruned[j2],
                    max_number_neurons,
                ),
                net_endpoints_in_domain(neural_connections@),
                genome::action_profile(neural_connections@)
                    == genome::action_profile(pruned.take(j as int)),
                genome::action_profile(pruned) == genome::renumbered_action_profile(genome@),
                genome::neuron_half_profile(neural_connections@)
                    == genome::neuron_half_profile(pruned),
                genome::is_subsequence(
                    genome::neuron_half_profile(pruned),
                    genome::renumbered_neuron_profile(genome@),
                ),
                forall|c: int| 0 <= c < num_neurons
                    ==> #[trigger] entry_numbered_below(connection_map@, 128, c),
                forall|n: int| 0 <= n < 128 && (#[trigger] connection_map@[n]) is Some ==> {
                    let nd = connection_map@[n]->Some_0;
                    &&& nd.remapped_number < neurons@.len()
                    &&& neurons@[nd.remapped_number as int].driven == (nd.other_inputs != 0)
                },
                forall|n: u8| n < 128 && (#[trigger] connection_map@[n as int]) is Some
                    ==> count_foreign_inputs(
                        neural_connections@,
                        connection_map@[n as int]->Some_0.remapped_number as int,
                    ) == genome::count_other_inputs(pruned, n),
                forall|n1: int, n2: int| 0 <= n1 < n2 < 128
                    && (#[trigger] connection_map@[n1]) is Some
                    && (#[trigger] connection_map@[n2]) is Some
                    ==> connection_map@[n1]->Some_0.remapped_number
                        != connection_map@[n2]->Some_0.remapped_number,
                forall|n: u8| n < 128 && connection_map@[n as int] is Some ==> {
                    let nd = (#[trigger] connection_map@[n as int])->Some_0;
                    nd.outputs > nd.self_inputs
                },
                forall|n: u8| n < 128 && (#[trigger] connection_map@[n as int]) is Some
                    ==> count_sources_at(
                        neural_connections@,
                        connection_map@[n as int]->Some_0.remapped_number as int,
                    ) == genome::count_outputs_to_neurons(pruned, n)
                        + genome::count_outputs_to_actions(pruned.take(j as int), n)
                        && count_self_loops_at(
                        neural_connections@,
                        connection_map@[n as int]->Some_0.remapped_number as int,
                    ) == genome::count_self_inputs(pruned, n),
                forall|j2: int| 0 <= j2 < pruned.len()
                    && !gene::spec_sink_type((#[trigger] pruned[j2]).encoding)
                    && !gene::spec_source_type(pruned[j2].encoding)
                    ==> connection_map@[gene::spec_source_num(pruned[j2].encoding) as int] is Some
                        && has_source_numbered(
                        neural_connections@,
                        connection_map@[gene::spec_source_num(pruned[j2].encoding) as int]
                            ->Some_0.remapped_number as int,
                    ),
                forall|j2: int| 0 <= j2 < j && gene::spec_sink_type((#[trigger] pruned[j2]).encoding)
                    && !gene::spec_source_type(pruned[j2].encoding)
                    ==> connection_map@[gene::spec_source_num(pruned[j2].encoding) as int] is Some
                        && has_source_numbered(
                        neural_connections@,
                        connection_map@[gene::spec_source_num(pruned[j2].encoding) as int]
                            ->Some_0.remapped_number as int,
                    ),
            decreases renumbered.len() - j,
        {
            let ghost conns_b_pre = neural_connections@;
            let g = renumbered[j];
            if g.get_sink_type() {
                let mut c = g;
                if !c.get_source_type() {
                    let u = c.get_source_num() as usize;
                    proof {
                        genome::lemma_touches_at(pruned, j as int, gene::spec_source_num(g.encoding));
                    }
                    let source_entry = connection_map[u];
                    match source_entry {
                        Some(nd) => {
                            c.set_source_num(nd.remapped_number);
                        }
                        None => {
                            proof {
                                assert(false);
                            }
                        }
                    }
                }
                let ghost conns_pre = neural_connections@;
                neural_connections.push(c);
                proof {
                    assert(neural_connections@ == conns_pre.push(c));
                    assert(gene::spec_sink_type(c.encoding));
                    assert(!gene::spec_source_type(c.encoding)
                        ==> gene::spec_source_num(c.encoding) < num_neurons);
                    assert forall|idx: int| neuron_half <= idx < neural_connections@.len() implies {
                        let h = #[trigger] neural_connections@[idx];
                        &&& gene::spec_sink_type(h.encoding)
                        &&& (!gene::spec_source_type(h.encoding)
                            ==> gene::spec_source_num(h.encoding) < num_neurons)
                    } by {
                        if idx < conns_pre.len() {
                            assert(neural_connections@[idx] == conns_pre[idx]);
                        } else {
                            assert(neural_connections@[idx] == c);
                        }
                    }
                }
            }
            proof {
                assert(pruned.take(j + 1).drop_last() =~= pruned.take(j as int));
                assert(pruned.take(j + 1).last() == pruned[j as int]);
                assert forall|kk: int| neural_connections@ != conns_b_pre
                    implies #[trigger] count_foreign_inputs(neural_connections@, kk)
                        == count_foreign_inputs(conns_b_pre, kk) by {
                    assert(neural_connections@.drop_last() =~= conns_b_pre);
                    assert(gene::spec_sink_type(neural_connections@.last().encoding));
                    assert(!is_foreign_input(neural_connections@.last(), kk));
                }
                assert forall|n: u8| n < 128 && (#[trigger] connection_map@[n as int]) is Some
                    implies count_sources_at(
                    neural_connections@,
                    connection_map@[n as int]->Some_0.remapped_number as int,
                ) == genome::count_outputs_to_neurons(pruned, n)
                    + genome::count_outputs_to_actions(pruned.take(j + 1), n)
                    && count_self_loops_at(
                    neural_connections@,
                    connection_map@[n as int]->Some_0.remapped_number as int,
                ) == genome::count_self_inputs(pruned, n) by {
                    genome::lemma_output_kinds_take_step(pruned, j as int, n);
                    let kk = connection_map@[n as int]->Some_0.remapped_number as int;
                    if neural_connections@ != conns_b_pre {
                        let c_new = neural_connections@.last();
                        assert(neural_connections@.drop_last() =~= conns_b_pre);
                        assert(count_sources_at(neural_connections@, kk)
                            == count_sources_at(conns_b_pre, kk)
                                + if is_source_at(c_new, kk) { 1nat } else { 0nat });
                        assert(count_self_loops_at(neural_connections@, kk)
                            == count_self_loops_at(conns_b_pre, kk)
                                + if is_self_loop_at(c_new, kk) { 1nat } else { 0nat });
                        assert(gene::spec_sink_type(c_new.encoding));
                        assert(!is_self_loop_at(c_new, kk));
                        if !gene::spec_source_type(pruned[j as int].encoding) {
                            let m = gene::spec_source_num(pruned[j as int].encoding);
                            genome::lemma_touches_at(pruned, j as int, m);
                            // The dense numbering never merges two
                            // surviving neurons, so the rewritten source
                            // hits this neuron's number exactly when the
                            // gene left this neuron.
                            assert(is_source_at(c_new, kk) == (m == n));
                        } else {
                            assert(!is_source_at(c_new, kk));
                        }
                    } else {
                        // The gene sinks at a neuron, so pass two skips
                        // it and neither count moves.
                        assert(!gene::spec_sink_type(pruned[j as int].encoding));
                    }
                }
                if neural_connections@ != conns_b_pre {
                    assert(neural_connections@.drop_last() =~= conns_b_pre);
                    assert(gene::spec_sink_type(neural_connections@.last().encoding));
                    // The emitted connection carries the gene's payload:
                    // the rewrite touches only a neuron source index.
                    assert(genome::action_trace(neural_connections@.last())
                        == genome::action_trace(pruned[j as int]));
                    assert(genome::neuron_half_profile(neural_connections@)
                        == genome::neuron_half_profile(conns_b_pre));
                }
                assert(genome::action_profile(neural_connections@)
                    == genome::action_profile(pruned.take(j + 1)));
                assert forall|j2: int| 0 <= j2 < pruned.len()
                    && !gene::spec_source_type((#[trigger] pruned[j2]).encoding)
                    && ((!gene::spec_sink_type(pruned[j2].encoding))
                        || (gene::spec_sink_type(pruned[j2].encoding) && j2 < j + 1))
                    implies connection_map@[gene::spec_source_num(pruned[j2].encoding) as int]
                        is Some && has_source_numbered(
                    neural_connections@,
                    connection_map@[gene::spec_source_num(pruned[j2].encoding) as int]
                        ->Some_0.remapped_number as int,
                ) by {
                    genome::lemma_touches_at(pruned, j2, gene::spec_source_num(pruned[j2].encoding));
                    let target = connection_map@[gene::spec_source_num(pruned[j2].encoding) as int]
                        ->Some_0.remapped_number as int;
                    if gene::spec_sink_type(pruned[j2].encoding) && j2 == j {
                        // The gene just handled was emitted with its
                        // source rewritten to the dense number.
                        let w = neural_connections@.len() - 1;
                        assert(!gene::spec_source_type(neural_connections@[w].encoding));
                    } else {
                        assert(has_source_numbered(conns_b_pre, target));
                        if neural_connections@ != conns_b_pre {
                            lemma_has_source_push(conns_b_pre, neural_connections@.last(), target);
                            assert(neural_connections@ =~= conns_b_pre.push(
                                neural_connections@.last(),
                            ));
                        }
                    }
                }
            }
            j = j + 1;
        }

        proof {
            assert forall|a: int, b: int| 0 <= a <= b < neural_connections@.len()
                && gene::spec_sink_type(#[trigger] neural_connections@[a].encoding)
                implies gene::spec_sink_type(#[trigger] neural_connections@[b].encoding) by {
                assert(a >= neuron_half);
            }
            // Each dense number belongs to a surviving neuron; that
            // neuron still has an outgoing gene, and both passes emit
            // every gene with its source rewritten to the dense number.
            assert(pruned.take(pruned.len() as int) =~= pruned);
            assert(genome::action_profile(neural_connections@)
                == genome::renumbered_action_profile(genome@));
            assert(genome::is_subsequence(
                genome::neuron_half_profile(neural_connections@),
                genome::renumbered_neuron_profile(genome@),
            ));
            assert forall|k: int| 0 <= k < neurons@.len() implies count_sources_at(
                #[trigger] neural_connections@,
                k,
            ) > count_self_loops_at(neural_connections@, k) by {
                assert(entry_numbered_below(connection_map@, 128, k));
                let n = choose|n: int| 0 <= n < 128 && (#[trigger] connection_map@[n]) is Some
                    && connection_map@[n]->Some_0.remapped_number as int == k;
                assert(entry_counts_ok(connection_map@[n], pruned, n as u8));
                genome::lemma_outputs_split(pruned, n as u8);
            }
            assert forall|k: int| 0 <= k < neurons@.len() implies
                ((#[trigger] neurons@[k]).driven <==> count_foreign_inputs(
                    neural_connections@,
                    k,
                ) > 0) by {
                assert(entry_numbered_below(connection_map@, 128, k));
                let n = choose|n: int| 0 <= n < 128 && (#[trigger] connection_map@[n]) is Some
                    && connection_map@[n]->Some_0.remapped_number as int == k;
                assert(entry_counts_ok(connection_map@[n], pruned, n as u8));
            }
            assert forall|k: int| 0 <= k < neurons@.len() implies has_source_numbered(
                neural_connections@,
                k,
            ) by {
                assert(entry_numbered_below(connection_map@, 128, k));
                let n = choose|n: int| 0 <= n < 128 && (#[trigger] connection_map@[n]) is Some
                    && connection_map@[n]->Some_0.remapped_number as int == k;
                assert(entry_counts_ok(connection_map@[n], pruned, n as u8));
                assert(count_outputs(pruned, n as u8) > 0);
                genome::lemma_output_witness(pruned, n as u8);
                let w = choose|w: int| 0 <= w < pruned.len() && genome::is_neuron_source(
                    #[trigger] pruned[w],
                    n as u8,
                );
            }
        }
        NeuralNet { connections: neural_connections, neurons }
    }
}

/// A connection's source rendered as text: a sensor's short code, or
/// `N` and the neuron number.
pub open spec fn spec_source_text(g: Gene) -> Seq<char> {
    if gene::spec_source_type(g.encoding) {
        spec_sensor_short_name(spec_sensor_of_index(gene::spec_source_num(g.encoding) as int))
    } else {
        "N"@ + text::spec_decimal(gene::spec_source_num(g.encoding) as int)
    }
}

/// A connection's sink rendered as text: an action's short code, or `N`
/// and the neuron number.
pub open spec fn spec_sink_text(g: Gene) -> Seq<char> {
    if gene::spec_sink_type(g.encoding) {
        spec_action_short_name(spec_action_of_index(gene::spec_sink_num(g.encoding) as int))
    } else {
        "N"@ + text::spec_decimal(gene::spec_sink_num(g.encoding) as int)
    }
}

/// The net as one line per connection: source, a space, sink, a line
/// break.
pub open spec fn spec_graph_text(s: Seq<Gene>) -> Seq<char>
    decreases s.len(),
{
    if s.len() == 0 {
        Seq::empty()
    } else {
        spec_graph_text(s.drop_last()) + spec_source_text(s.last()) + " "@ + spec_sink_text(s.last())
            + "\n"@
    }
}

/// One connection as a quoted directed edge.
pub open spec fn spec_edge_text(g: Gene) -> Seq<char> {
    spec_source_text(g) + "\"\\[DirectedEdge]\""@ + spec_sink_text(g) + "\""@
}

/// The quoted edges of a net, a comma and an opening quote between them.
pub open spec fn spec_edge_list_text(s: Seq<Gene>) -> Seq<char>
    decreases s.len(),
{
    if s.len() == 0 {
        Seq::empty()
    } else if s.len() == 1 {
        spec_edge_text(s[0])
    } else {
        spec_edge_list_text(s.drop_last()) + ",\""@ + spec_edge_text(s.last())
    }
}

/// Appends a connection's source as text.
fn push_source_text(s: &mut String, g: Gene)
    requires
        gene::spec_source_type(g.encoding)
            ==> gene::spec_source_num(g.encoding) < crate::sensor_actions::NUM_SENSORS,
    ensures
        final(s)@ == old(s)@ + spec_source_text(g),
{
    if g.get_source_type() {
        let name = sensor_of_index(g.get_source_num()).to_text();
        s.append(name.as_str());
    } else {
        s.append("N");
        let number = text::decimal_u32_string(g.get_source_num() as u32);
        s.append(number.as_str());
        proof {
            assert(s@ =~= old(s)@ + spec_source_text(g));
        }
    }
}

/// Appends a connection's sink as text.
fn push_sink_text(s: &mut String, g: Gene)
    requires
        gene::spec_sink_type(g.encoding)
            ==> gene::spec_sink_num(g.encoding) < crate::sensor_actions::NUM_ACTIONS,
    ensures
        final(s)@ == old(s)@ + spec_sink_text(g),
{
    if g.get_sink_type() {
        let name = action_of_index(g.get_sink_num()).to_text();
        s.append(name.as_str());
    } else {
        s.append("N");
        let number = text::decimal_u32_string(g.get_sink_num() as u32);
        s.append(number.as_str());
        proof {
            assert(s@ =~= old(s)@ + spec_sink_text(g));
        }
    }
}

impl NeuralNet {
    /// The net as one line per connection: source, a space, sink.
    pub fn to_graph_string(&self) -> (r: String)
        requires
            net_endpoints_in_domain(self.connections@),
        ensures
            r@ == spec_graph_text(self.connections@),
    {
        let mut graph_string = String::new();
        let mut i: usize = 0;
        proof {
            assert(self.connections@.take(0) =~= Seq::<Gene>::empty());
        }
        while i < self.connections.len()
            invariant
                i <= self.connections@.len(),
                net_endpoints_in_domain(self.connections@),
                graph_string@ == spec_graph_text(self.connections@.take(i as int)),
            decreases self.connections@.len() - i,
        {
            let g = self.connections[i];
            push_source_text(&mut graph_string, g);
            graph_string.append(" ");
            push_sink_text(&mut graph_string, g);
            graph_string.append("\n");
            proof {
                assert(self.connections@.take(i + 1).drop_last() =~= self.connections@.take(i as int));
                assert(self.connections@.take(i + 1).last() == self.connections@[i as int]);
                assert(graph_string@ =~= spec_graph_text(self.connections@.take(i + 1)));
            }
            i = i + 1;
        }
        proof {
            assert(self.connections@.take(self.connections@.len() as int) =~= self.connections@);
        }
        graph_string
    }

    /// The net as a braced, quoted list of directed edges.
    pub fn to_mathematica_string(&self) -> (r: String)
        requires
            net_endpoints_in_domain(self.connections@),
        ensures
            r@ == "{\""@ + spec_edge_list_text(self.connections@) + "}"@,
    {
        let mut graph_string = String::from_str("{\"");
        let mut i: usize = 0;
        proof {
            assert(self.connections@.take(0) =~= Seq::<Gene>::empty());
            assert(graph_string@ =~= "{\""@ + spec_edge_list_text(self.connections@.take(0)));
        }
        while i < self.connections.len()
            invariant
                i <= self.connections@.len(),
                net_endpoints_in_domain(self.connections@),
                graph_string@ == "{\""@ + spec_edge_list_text(self.connections@.take(i as int)),
            decreases self.connections@.len() - i,
        {
            let g = self.connections[i];
            if i > 0 {
                graph_string.append(",\"");
            }
            push_source_text(&mut graph_string, g);
            graph_string.append("\"\\[DirectedEdge]\"");
            push_sink_text(&mut graph_string, g);
            graph_string.append("\"");
            proof {
                assert(self.connections@.take(i + 1).drop_last() =~= self.connections@.take(i as int));
                assert(self.connections@.take(i + 1).last() == self.connections@[i as int]);
                if i == 0 {
                    assert(self.connections@.take(1)[0] == self.connections@[0]);
                }
                assert(graph_string@ =~= "{\""@ + spec_edge_list_text(self.connections@.take(i + 1)));
            }
            i = i + 1;
        }
        proof {
            assert(self.connections@.take(self.connections@.len() as int) =~= self.connections@);
        }
        graph_string.append("}");
        graph_string
    }
}

} // verus!
