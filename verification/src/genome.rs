use vstd::prelude::*;
use vstd::string::StringExecFns;
use crate::gene::{self, Gene};
use crate::sensor_actions::{NUM_ACTIONS, NUM_SENSORS};

verus! {

/// An agent's genome: the ordered list of its genes, each one connection
/// of the neural net wired from it.
pub type Genome = Vec<Gene>;

/// Bookkeeping for one inner neuron while a genome is wired: how many
/// genes leave it, how many feed it from itself, how many feed it from
/// elsewhere, and the dense number it is given once the useless neurons
/// are gone.
#[derive(Debug, Clone, Copy, PartialEq, Eq, Structural)]
pub struct Node {
    pub remapped_number: u8,
    pub outputs: usize,
    pub self_inputs: usize,
    pub other_inputs: usize,
}

/// The per-neuron bookkeeping of a whole genome, indexed by the 7-bit
/// neuron id; ids that no gene touches hold `None`.
pub type ConnectionMap = Vec<Option<Node>>;

/// How many neuron ids a 7-bit index can name.
pub const CONNECTION_MAP_SIZE: usize = 128;

/// Whether a gene's sink is the inner neuron `n`.
pub open spec fn is_neuron_sink(g: Gene, n: u8) -> bool {
    !gene::spec_sink_type(g.encoding) && gene::spec_sink_num(g.encoding) == n
}

/// Whether a gene's source is the inner neuron `n`.
pub open spec fn is_neuron_source(g: Gene, n: u8) -> bool {
    !gene::spec_source_type(g.encoding) && gene::spec_source_num(g.encoding) == n
}

/// Whether a gene feeds the inner neuron `n` from itself.
pub open spec fn is_self_loop(g: Gene, n: u8) -> bool {
    is_neuron_sink(g, n) && is_neuron_source(g, n)
}

/// How many genes of the sequence leave neuron `n`.
pub open spec fn count_outputs(s: Seq<Gene>, n: u8) -> nat
    decreases s.len(),
{
    if s.len() == 0 {
        0
    } else {
        count_outputs(s.drop_last(), n) + if is_neuron_source(s.last(), n) { 1nat } else { 0nat }
    }
}

/// How many genes of the sequence feed neuron `n` from itself.
pub open spec fn count_self_inputs(s: Seq<Gene>, n: u8) -> nat
    decreases s.len(),
{
    if s.len() == 0 {
        0
    } else {
        count_self_inputs(s.drop_last(), n) + if is_self_loop(s.last(), n) { 1nat } else { 0nat }
    }
}

/// How many genes of the sequence feed neuron `n` from a sensor or from
/// another neuron.
pub open spec fn count_other_inputs(s: Seq<Gene>, n: u8) -> nat
    decreases s.len(),
{
    if s.len() == 0 {
        0
    } else {
        count_other_inputs(s.drop_last(), n)
            + if is_neuron_sink(s.last(), n) && !is_self_loop(s.last(), n) { 1nat } else { 0nat }
    }
}

/// How many genes of the sequence leave neuron `n` and sink at neuron
/// `nn`.
pub open spec fn count_outputs_into(s: Seq<Gene>, n: u8, nn: u8) -> nat
    decreases s.len(),
{
    if s.len() == 0 {
        0
    } else {
        count_outputs_into(s.drop_last(), n, nn)
            + if is_neuron_source(s.last(), n) && is_neuron_sink(s.last(), nn) { 1nat } else { 0nat }
    }
}

/// How many genes of the sequence leave neuron `n` into a neuron sink.
pub open spec fn count_outputs_to_neurons(s: Seq<Gene>, n: u8) -> nat
    decreases s.len(),
{
    if s.len() == 0 {
        0
    } else {
        count_outputs_to_neurons(s.drop_last(), n)
            + if is_neuron_source(s.last(), n) && !gene::spec_sink_type(s.last().encoding) {
                1nat
            } else {
                0nat
            }
    }
}

/// How many genes of the sequence leave neuron `n` into an action sink.
pub open spec fn count_outputs_to_actions(s: Seq<Gene>, n: u8) -> nat
    decreases s.len(),
{
    if s.len() == 0 {
        0
    } else {
        count_outputs_to_actions(s.drop_last(), n)
            + if is_neuron_source(s.last(), n) && gene::spec_sink_type(s.last().encoding) {
                1nat
            } else {
                0nat
            }
    }
}

/// A neuron's outputs are its neuron-bound and its action-bound ones.
pub(crate) proof fn lemma_outputs_split(s: Seq<Gene>, n: u8)
    ensures
        count_outputs(s, n) == count_outputs_to_neurons(s, n) + count_outputs_to_actions(s, n),
    decreases s.len(),
{
    if s.len() > 0 {
        lemma_outputs_split(s.drop_last(), n);
    }
}

/// Extending a prefix by one gene extends the split output counts by
/// that gene's contribution.
pub(crate) proof fn lemma_output_kinds_take_step(s: Seq<Gene>, i: int, n: u8)
    requires
        0 <= i < s.len(),
    ensures
        count_outputs_to_neurons(s.take(i + 1), n) == count_outputs_to_neurons(s.take(i), n)
            + if is_neuron_source(s[i], n) && !gene::spec_sink_type(s[i].encoding) {
                1int
            } else {
                0int
            },
        count_outputs_to_actions(s.take(i + 1), n) == count_outputs_to_actions(s.take(i), n)
            + if is_neuron_source(s[i], n) && gene::spec_sink_type(s[i].encoding) {
                1int
            } else {
                0int
            },
{
    assert(s.take(i + 1).drop_last() =~= s.take(i));
    assert(s.take(i + 1).last() == s[i]);
}

/// Whether any gene of the sequence touches neuron `n`, as source or as
/// sink.
pub open spec fn touches(s: Seq<Gene>, n: u8) -> bool {
    count_outputs(s, n) + count_self_inputs(s, n) + count_other_inputs(s, n) > 0
}

/// Whether the gene stands somewhere in the sequence.
pub open spec fn gene_from(s: Seq<Gene>, g: Gene) -> bool {
    exists|i: int| 0 <= i < s.len() && #[trigger] s[i] == g
}

/// Whether every gene of `t` stands somewhere in `s`.
pub open spec fn genome_subset(t: Seq<Gene>, s: Seq<Gene>) -> bool {
    forall|j: int| 0 <= j < t.len() ==> gene_from(s, #[trigger] t[j])
}

/// Every sequence draws its genes from itself.
pub(crate) proof fn lemma_subset_refl(s: Seq<Gene>)
    ensures
        genome_subset(s, s),
{
    assert forall|j: int| 0 <= j < s.len() implies gene_from(s, #[trigger] s[j]) by {
        assert(s[j] == s[j]);
    }
}

/// Drawing genes from a sequence that itself draws from another chains.
pub(crate) proof fn lemma_subset_trans(a: Seq<Gene>, b: Seq<Gene>, c: Seq<Gene>)
    requires
        genome_subset(a, b),
        genome_subset(b, c),
    ensures
        genome_subset(a, c),
{
    assert forall|j: int| 0 <= j < a.len() implies gene_from(c, #[trigger] a[j]) by {
        let i = choose|i: int| 0 <= i < b.len() && #[trigger] b[i] == a[j];
        assert(gene_from(c, b[i]));
    }
}

/// Whether one map entry carries the counts of the sequence for its
/// neuron.
pub open spec fn entry_counts_ok(e: Option<Node>, s: Seq<Gene>, n: u8) -> bool {
    match e {
        Some(nd) => nd.outputs == count_outputs(s, n) && nd.self_inputs == count_self_inputs(s, n)
            && nd.other_inputs == count_other_inputs(s, n),
        None => true,
    }
}

/// A connection map that agrees with a genome: full size, an entry for
/// every neuron the genome touches, and correct counts wherever an entry
/// stands.  (An entry may outlive its last gene; the pruning pass removes
/// such entries in a later round.)
pub open spec fn map_wf(m: Seq<Option<Node>>, s: Seq<Gene>) -> bool {
    &&& m.len() == CONNECTION_MAP_SIZE
    &&& forall|n: u8| n < 128 ==> (touches(s, n) ==> m[n as int] is Some)
    &&& forall|n: u8| n < 128 ==> entry_counts_ok(m[n as int], s, n)
}

/// The genome with every gene that sinks at neuron `nn` removed; the
/// rest keep their order.
pub open spec fn spec_prune_sinks(s: Seq<Gene>, nn: u8) -> Seq<Gene>
    decreases s.len(),
{
    if s.len() == 0 {
        s
    } else if is_neuron_sink(s.last(), nn) {
        spec_prune_sinks(s.drop_last(), nn)
    } else {
        spec_prune_sinks(s.drop_last(), nn).push(s.last())
    }
}

/// What an action-bound gene shows apart from its neuron renaming: its
/// source type, its sensor source when the source is a sensor (zero for
/// a neuron source, whose index the wiring renames), its action index,
/// and its weight.
pub open spec fn action_trace(g: Gene) -> (bool, u8, u8, i16) {
    (
        gene::spec_source_type(g.encoding),
        if gene::spec_source_type(g.encoding) { gene::spec_source_num(g.encoding) } else { 0 },
        gene::spec_sink_num(g.encoding),
        g.weight,
    )
}

/// The action connections of a genome, in order, each as its trace.
/// Pruning never touches them, and the wiring emits them with only the
/// neuron renaming, so this profile follows a genome through the whole
/// pipeline.
pub open spec fn action_profile(s: Seq<Gene>) -> Seq<(bool, u8, u8, i16)>
    decreases s.len(),
{
    if s.len() == 0 {
        Seq::empty()
    } else if gene::spec_sink_type(s.last().encoding) {
        action_profile(s.drop_last()).push(action_trace(s.last()))
    } else {
        action_profile(s.drop_last())
    }
}

/// The action traces a genome has once its indices are reduced into
/// their domains: each sensor index modulo the number of sensors, each
/// action index modulo the number of actions.
pub open spec fn renumbered_action_profile(s: Seq<Gene>) -> Seq<(bool, u8, u8, i16)>
    decreases s.len(),
{
    if s.len() == 0 {
        Seq::empty()
    } else if gene::spec_sink_type(s.last().encoding) {
        renumbered_action_profile(s.drop_last()).push(
            (
                gene::spec_source_type(s.last().encoding),
                if gene::spec_source_type(s.last().encoding) {
                    (gene::spec_source_num(s.last().encoding) as int % NUM_SENSORS as int) as u8
                } else {
                    0
                },
                (gene::spec_sink_num(s.last().encoding) as int % NUM_ACTIONS as int) as u8,
                s.last().weight,
            ),
        )
    } else {
        renumbered_action_profile(s.drop_last())
    }
}

/// What a neuron-bound gene shows apart from the renaming of neuron
/// indices: its source type, its sensor source when the source is a
/// sensor (zero for a neuron source), and its weight.
pub open spec fn neuron_trace(g: Gene) -> (bool, u8, i16) {
    (
        gene::spec_source_type(g.encoding),
        if gene::spec_source_type(g.encoding) { gene::spec_source_num(g.encoding) } else { 0 },
        g.weight,
    )
}

/// The neuron-bound connections of a genome, in order, each as its
/// trace.
pub open spec fn neuron_half_profile(s: Seq<Gene>) -> Seq<(bool, u8, i16)>
    decreases s.len(),
{
    if s.len() == 0 {
        Seq::empty()
    } else if !gene::spec_sink_type(s.last().encoding) {
        neuron_half_profile(s.drop_last()).push(neuron_trace(s.last()))
    } else {
        neuron_half_profile(s.drop_last())
    }
}

/// The neuron-bound traces a genome has once its sensor indices are
/// reduced into their domain.
pub open spec fn renumbered_neuron_profile(s: Seq<Gene>) -> Seq<(bool, u8, i16)>
    decreases s.len(),
{
    if s.len() == 0 {
        Seq::empty()
    } else if !gene::spec_sink_type(s.last().encoding) {
        renumbered_neuron_profile(s.drop_last()).push(
            (
                gene::spec_source_type(s.last().encoding),
                if gene::spec_source_type(s.last().encoding) {
                    (gene::spec_source_num(s.last().encoding) as int % NUM_SENSORS as int) as u8
                } else {
                    0
                },
                s.last().weight,
            ),
        )
    } else {
        renumbered_neuron_profile(s.drop_last())
    }
}

/// Whether `a` is `b` with some elements dropped, order kept: matching
/// greedily from the ends decides it.
pub open spec fn is_subsequence<T>(a: Seq<T>, b: Seq<T>) -> bool
    decreases b.len(),
{
    if a.len() == 0 {
        true
    } else if b.len() == 0 {
        false
    } else if a.last() == b.last() {
        is_subsequence(a.drop_last(), b.drop_last())
    } else {
        is_subsequence(a, b.drop_last())
    }
}

/// Every sequence is a subsequence of itself.
pub(crate) proof fn lemma_subsequence_refl<T>(s: Seq<T>)
    ensures
        is_subsequence(s, s),
    decreases s.len(),
{
    if s.len() > 0 {
        lemma_subsequence_refl(s.drop_last());
    }
}

/// A subsequence of a prefix is a subsequence of the whole.
pub(crate) proof fn lemma_subsequence_widen<T>(a: Seq<T>, b: Seq<T>)
    requires
        b.len() > 0,
        is_subsequence(a, b.drop_last()),
    ensures
        is_subsequence(a, b),
    decreases b.len(), 0int,
{
    if a.len() > 0 && a.last() == b.last() {
        lemma_subsequence_drop_left(a, b.drop_last());
    }
}

/// Dropping the last element keeps a subsequence a subsequence.
pub(crate) proof fn lemma_subsequence_drop_left<T>(a: Seq<T>, b: Seq<T>)
    requires
        a.len() > 0,
        is_subsequence(a, b),
    ensures
        is_subsequence(a.drop_last(), b),
    decreases b.len(), 1int,
{
    if b.len() > 0 {
        if a.last() == b.last() {
            if a.drop_last().len() > 0 {
                lemma_subsequence_widen(a.drop_last(), b);
            }
        } else {
            lemma_subsequence_drop_left(a, b.drop_last());
            lemma_subsequence_widen(a.drop_last(), b);
        }
    }
}

/// Appending to the right side keeps a subsequence a subsequence.
pub(crate) proof fn lemma_subsequence_push_right<T>(a: Seq<T>, b: Seq<T>, x: T)
    requires
        is_subsequence(a, b),
    ensures
        is_subsequence(a, b.push(x)),
{
    assert(b.push(x).drop_last() =~= b);
    lemma_subsequence_widen(a, b.push(x));
}

/// Appending the same element to both sides keeps a subsequence a
/// subsequence.
pub(crate) proof fn lemma_subsequence_push_both<T>(a: Seq<T>, b: Seq<T>, x: T)
    requires
        is_subsequence(a, b),
    ensures
        is_subsequence(a.push(x), b.push(x)),
{
    assert(a.push(x).drop_last() =~= a);
    assert(b.push(x).drop_last() =~= b);
    assert(a.push(x).last() == b.push(x).last());
}

/// Being a subsequence chains.
pub(crate) proof fn lemma_subsequence_trans<T>(a: Seq<T>, b: Seq<T>, c: Seq<T>)
    requires
        is_subsequence(a, b),
        is_subsequence(b, c),
    ensures
        is_subsequence(a, c),
    decreases c.len(),
{
    if a.len() == 0 {
    } else if b.len() == 0 {
    } else if c.len() == 0 {
    } else if b.last() == c.last() {
        if a.last() == b.last() {
            lemma_subsequence_trans(a.drop_last(), b.drop_last(), c.drop_last());
        } else {
            lemma_subsequence_trans(a, b.drop_last(), c.drop_last());
            lemma_subsequence_widen(a, c);
        }
    } else {
        lemma_subsequence_trans(a, b, c.drop_last());
        lemma_subsequence_widen(a, c);
    }
}

/// Pruning the sinks of a neuron drops some neuron-bound connections and
/// keeps the rest in order.
pub(crate) proof fn lemma_prune_neuron_profile(s: Seq<Gene>, nn: u8)
    ensures
        is_subsequence(neuron_half_profile(spec_prune_sinks(s, nn)), neuron_half_profile(s)),
    decreases s.len(),
{
    if s.len() == 0 {
    } else {
        lemma_prune_neuron_profile(s.drop_last(), nn);
        let pr = spec_prune_sinks(s, nn);
        let pd = spec_prune_sinks(s.drop_last(), nn);
        if is_neuron_sink(s.last(), nn) {
            assert(pr == pd);
            lemma_subsequence_push_right(
                neuron_half_profile(pd),
                neuron_half_profile(s.drop_last()),
                neuron_trace(s.last()),
            );
        } else {
            assert(pr == pd.push(s.last()));
            assert(pr.drop_last() =~= pd);
            assert(pr.last() == s.last());
            if !gene::spec_sink_type(s.last().encoding) {
                lemma_subsequence_push_both(
                    neuron_half_profile(pd),
                    neuron_half_profile(s.drop_last()),
                    neuron_trace(s.last()),
                );
            }
        }
    }
}

/// Pruning the sinks of a neuron leaves the action profile alone: every
/// removed gene sinks at a neuron.
pub(crate) proof fn lemma_prune_action_profile(s: Seq<Gene>, nn: u8)
    ensures
        action_profile(spec_prune_sinks(s, nn)) == action_profile(s),
    decreases s.len(),
{
    if s.len() > 0 {
        lemma_prune_action_profile(s.drop_last(), nn);
        let pr = spec_prune_sinks(s, nn);
        let pd = spec_prune_sinks(s.drop_last(), nn);
        if is_neuron_sink(s.last(), nn) {
            assert(pr == pd);
        } else {
            assert(pr == pd.push(s.last()));
            assert(pr.drop_last() =~= pd);
            assert(pr.last() == s.last());
        }
    }
}

/// Two genomes whose genes agree position by position on types, on the
/// reduced sensor and action indices, and on the weight have matching
/// profiles: the second's plain profiles are the first's reduced ones.
pub(crate) proof fn lemma_profiles_pointwise(s1: Seq<Gene>, s2: Seq<Gene>)
    requires
        s1.len() == s2.len(),
        forall|i: int| 0 <= i < s1.len() ==> {
            let g1 = #[trigger] s1[i];
            let g2 = s2[i];
            &&& gene::spec_sink_type(g2.encoding) == gene::spec_sink_type(g1.encoding)
            &&& gene::spec_source_type(g2.encoding) == gene::spec_source_type(g1.encoding)
            &&& g2.weight == g1.weight
            &&& (gene::spec_sink_type(g1.encoding) ==> gene::spec_sink_num(g2.encoding) as int
                == gene::spec_sink_num(g1.encoding) as int % NUM_ACTIONS as int)
            &&& (gene::spec_source_type(g1.encoding) ==> gene::spec_source_num(g2.encoding) as int
                == gene::spec_source_num(g1.encoding) as int % NUM_SENSORS as int)
        },
    ensures
        action_profile(s2) == renumbered_action_profile(s1),
        neuron_half_profile(s2) == renumbered_neuron_profile(s1),
    decreases s1.len(),
{
    if s1.len() > 0 {
        assert forall|i: int| 0 <= i < s1.drop_last().len() implies {
            let g1 = #[trigger] s1.drop_last()[i];
            let g2 = s2.drop_last()[i];
            &&& gene::spec_sink_type(g2.encoding) == gene::spec_sink_type(g1.encoding)
            &&& gene::spec_source_type(g2.encoding) == gene::spec_source_type(g1.encoding)
            &&& g2.weight == g1.weight
            &&& (gene::spec_sink_type(g1.encoding) ==> gene::spec_sink_num(g2.encoding) as int
                == gene::spec_sink_num(g1.encoding) as int % NUM_ACTIONS as int)
            &&& (gene::spec_source_type(g1.encoding) ==> gene::spec_source_num(g2.encoding) as int
                == gene::spec_source_num(g1.encoding) as int % NUM_SENSORS as int)
        } by {
            assert(s1.drop_last()[i] == s1[i]);
            assert(s2.drop_last()[i] == s2[i]);
        }
        lemma_profiles_pointwise(s1.drop_last(), s2.drop_last());
        assert(s1[s1.len() - 1] == s1.last());
        assert(s2[s2.len() - 1] == s2.last());
    }
}

/// The genome filtered by a connection map: a gene survives exactly
/// when it sinks at an action or at a neuron whose entry is still
/// present.
pub open spec fn spec_keep_by_map(s: Seq<Gene>, m: Seq<Option<Node>>) -> Seq<Gene>
    recommends
        m.len() == CONNECTION_MAP_SIZE,
    decreases s.len(),
{
    if s.len() == 0 {
        s
    } else if gene::spec_sink_type(s.last().encoding)
        || m[gene::spec_sink_num(s.last().encoding) as int] is Some {
        spec_keep_by_map(s.drop_last(), m).push(s.last())
    } else {
        spec_keep_by_map(s.drop_last(), m)
    }
}

/// A map with an entry for every neuron the genome touches keeps the
/// whole genome.
pub(crate) proof fn lemma_keep_all(s: Seq<Gene>, m: Seq<Option<Node>>)
    requires
        m.len() == CONNECTION_MAP_SIZE,
        forall|n: u8| n < 128 ==> (touches(s, n) ==> (#[trigger] m[n as int]) is Some),
    ensures
        spec_keep_by_map(s, m) == s,
    decreases s.len(),
{
    if s.len() > 0 {
        assert forall|n: u8| n < 128 && touches(s.drop_last(), n) implies (#[trigger] m[n as int])
            is Some by {
            assert(touches(s, n));
        }
        lemma_keep_all(s.drop_last(), m);
        if !gene::spec_sink_type(s.last().encoding) {
            let t = gene::spec_sink_num(s.last().encoding);
            gene::lemma_index_fields_bounded(s.last().encoding);
            lemma_touches_at(s, s.len() - 1, t);
            assert(m[t as int] is Some);
        }
        assert(spec_keep_by_map(s, m) =~= s);
    }
}

/// Filtering reads only which entries are present, so two maps that are
/// present at the same places filter alike.
pub(crate) proof fn lemma_keep_pointwise(s: Seq<Gene>, m1: Seq<Option<Node>>, m2: Seq<Option<Node>>)
    requires
        m1.len() == CONNECTION_MAP_SIZE,
        m2.len() == CONNECTION_MAP_SIZE,
        forall|j: int| 0 <= j < 128 ==> ((#[trigger] m1[j]) is Some) == (m2[j] is Some),
    ensures
        spec_keep_by_map(s, m1) == spec_keep_by_map(s, m2),
    decreases s.len(),
{
    if s.len() > 0 {
        lemma_keep_pointwise(s.drop_last(), m1, m2);
        if !gene::spec_sink_type(s.last().encoding) {
            let t = gene::spec_sink_num(s.last().encoding);
            gene::lemma_index_fields_bounded(s.last().encoding);
            assert((m1[t as int] is Some) == (m2[t as int] is Some));
        }
        assert(spec_keep_by_map(s, m1) =~= spec_keep_by_map(s, m2));
    }
}

/// Pruning one neuron's sinks out of an already-filtered genome is
/// filtering by the map with that neuron's entry blanked.
pub(crate) proof fn lemma_keep_prune(s: Seq<Gene>, m: Seq<Option<Node>>, nn: u8)
    requires
        m.len() == CONNECTION_MAP_SIZE,
        nn < 128,
    ensures
        spec_prune_sinks(spec_keep_by_map(s, m), nn)
            == spec_keep_by_map(s, m.update(nn as int, None)),
    decreases s.len(),
{
    if s.len() > 0 {
        lemma_keep_prune(s.drop_last(), m, nn);
        let kept = spec_keep_by_map(s.drop_last(), m);
        let kept_blank = spec_keep_by_map(s.drop_last(), m.update(nn as int, None));
        let g = s.last();
        let sinks_action = gene::spec_sink_type(g.encoding);
        let t = gene::spec_sink_num(g.encoding);
        gene::lemma_index_fields_bounded(g.encoding);
        if sinks_action || m[t as int] is Some {
            assert(spec_keep_by_map(s, m) == kept.push(g));
            assert(kept.push(g).drop_last() =~= kept);
            assert(kept.push(g).last() == g);
            if !sinks_action && t == nn {
                // The gene sinks at the pruned neuron: the prune drops it
                // and the blanked map drops it too.
                assert(spec_prune_sinks(kept.push(g), nn) == spec_prune_sinks(kept, nn));
                assert(m.update(nn as int, None)[t as int] is None);
                assert(spec_keep_by_map(s, m.update(nn as int, None)) == kept_blank);
            } else {
                // The gene stays on both sides.
                assert(spec_prune_sinks(kept.push(g), nn) == spec_prune_sinks(kept, nn).push(g));
                assert(sinks_action || m.update(nn as int, None)[t as int] is Some);
                assert(spec_keep_by_map(s, m.update(nn as int, None)) == kept_blank.push(g));
            }
        } else {
            // The gene was already filtered out; blanking another entry
            // keeps it out.
            assert(spec_keep_by_map(s, m) == kept);
            assert(m.update(nn as int, None)[t as int] is None);
            assert(spec_keep_by_map(s, m.update(nn as int, None)) == kept_blank);
        }
    }
}

/// How many entries of a connection map are present.
pub open spec fn count_some(m: Seq<Option<Node>>) -> nat
    decreases m.len(),
{
    if m.len() == 0 {
        0
    } else {
        count_some(m.drop_last()) + if m.last() is Some { 1nat } else { 0nat }
    }
}

/// Extending a prefix by one gene extends each count by that gene's
/// contribution.
pub(crate) proof fn lemma_counts_take_step(s: Seq<Gene>, i: int, n: u8)
    requires
        0 <= i < s.len(),
    ensures
        count_outputs(s.take(i + 1), n)
            == count_outputs(s.take(i), n) + if is_neuron_source(s[i], n) { 1int } else { 0int },
        count_self_inputs(s.take(i + 1), n)
            == count_self_inputs(s.take(i), n) + if is_self_loop(s[i], n) { 1int } else { 0int },
        count_other_inputs(s.take(i + 1), n)
            == count_other_inputs(s.take(i), n)
            + if is_neuron_sink(s[i], n) && !is_self_loop(s[i], n) { 1int } else { 0int },
{
    assert(s.take(i + 1).drop_last() =~= s.take(i));
    assert(s.take(i + 1).last() == s[i]);
}

/// Every count is at most the length of the sequence.
pub(crate) proof fn lemma_counts_le_len(s: Seq<Gene>, n: u8)
    ensures
        count_outputs(s, n) <= s.len(),
        count_self_inputs(s, n) <= s.len(),
        count_other_inputs(s, n) <= s.len(),
    decreases s.len(),
{
    if s.len() > 0 {
        lemma_counts_le_len(s.drop_last(), n);
    }
}

/// A neuron's self-feeding genes are among the genes that leave it.
pub(crate) proof fn lemma_outputs_ge_self(s: Seq<Gene>, n: u8)
    ensures
        count_outputs(s, n) >= count_self_inputs(s, n),
    decreases s.len(),
{
    if s.len() > 0 {
        lemma_outputs_ge_self(s.drop_last(), n);
    }
}

/// A neuron with an output has a gene that leaves it.
pub(crate) proof fn lemma_output_witness(s: Seq<Gene>, n: u8)
    requires
        count_outputs(s, n) > 0,
    ensures
        exists|i: int| 0 <= i < s.len() && is_neuron_source(#[trigger] s[i], n),
    decreases s.len(),
{
    if is_neuron_source(s.last(), n) {
        assert(s[s.len() - 1] == s.last());
    } else {
        lemma_output_witness(s.drop_last(), n);
        let i = choose|i: int| 0 <= i < s.drop_last().len() && is_neuron_source(#[trigger] s.drop_last()[i], n);
        assert(s[i] == s.drop_last()[i]);
    }
}

/// What pruning the sinks of `nn` does to each count.
proof fn lemma_prune_counts(s: Seq<Gene>, nn: u8, n: u8)
    ensures
        n != nn ==> count_self_inputs(spec_prune_sinks(s, nn), n) == count_self_inputs(s, n),
        n != nn ==> count_other_inputs(spec_prune_sinks(s, nn), n) == count_other_inputs(s, n),
        count_self_inputs(spec_prune_sinks(s, nn), nn) == 0,
        count_other_inputs(spec_prune_sinks(s, nn), nn) == 0,
        count_outputs(spec_prune_sinks(s, nn), n)
            == count_outputs(s, n) - count_outputs_into(s, n, nn),
        count_outputs_into(s, n, nn) <= count_outputs(s, n),
    decreases s.len(),
{
    if s.len() > 0 {
        lemma_prune_counts(s.drop_last(), nn, n);
        let pr = spec_prune_sinks(s, nn);
        let pd = spec_prune_sinks(s.drop_last(), nn);
        if is_neuron_sink(s.last(), nn) {
            assert(pr == pd);
        } else {
            assert(pr == pd.push(s.last()));
            assert(pr.drop_last() =~= pd);
            assert(pr.last() == s.last());
            assert(count_self_inputs(pr, n)
                == count_self_inputs(pd, n) + if is_self_loop(s.last(), n) { 1nat } else { 0nat });
            assert(count_other_inputs(pr, n)
                == count_other_inputs(pd, n)
                + if is_neuron_sink(s.last(), n) && !is_self_loop(s.last(), n) { 1nat } else { 0nat });
            assert(count_outputs(pr, n)
                == count_outputs(pd, n) + if is_neuron_source(s.last(), n) { 1nat } else { 0nat });
        }
    }
}

/// A neuron's self-feeding genes are exactly the genes it sends to
/// itself.
proof fn lemma_self_outputs_into(s: Seq<Gene>, nn: u8)
    ensures
        count_outputs_into(s, nn, nn) == count_self_inputs(s, nn),
    decreases s.len(),
{
    if s.len() > 0 {
        lemma_self_outputs_into(s.drop_last(), nn);
    }
}

/// Every gene of the pruned genome stands somewhere in the genome it was
/// pruned from.
proof fn lemma_prune_subset(s: Seq<Gene>, nn: u8)
    ensures
        genome_subset(spec_prune_sinks(s, nn), s),
    decreases s.len(),
{
    if s.len() > 0 {
        lemma_prune_subset(s.drop_last(), nn);
        let pruned = spec_prune_sinks(s, nn);
        let inner = spec_prune_sinks(s.drop_last(), nn);
        assert forall|j: int| 0 <= j < pruned.len() implies gene_from(s, #[trigger] pruned[j]) by {
            if j < inner.len() {
                assert(gene_from(s.drop_last(), inner[j]));
                let i = choose|i: int| 0 <= i < s.drop_last().len() && #[trigger] s.drop_last()[i] == inner[j];
                assert(s[i] == pruned[j]);
            } else {
                assert(pruned[j] == s.last());
                assert(s[s.len() - 1] == pruned[j]);
            }
        }
    } else {
        assert(spec_prune_sinks(s, nn).len() == 0);
    }
}

/// Blanking a present entry lowers the number of present entries by one.
proof fn lemma_count_some_update_none(m: Seq<Option<Node>>, i: int)
    requires
        0 <= i < m.len(),
        m[i] is Some,
    ensures
        count_some(m.update(i, None)) == count_some(m) - 1,
    decreases m.len(),
{
    if i == m.len() - 1 {
        assert(m.update(i, None).drop_last() =~= m.drop_last());
        assert(m.update(i, None).last() is None);
    } else {
        lemma_count_some_update_none(m.drop_last(), i);
        assert(m.update(i, None).drop_last() =~= m.drop_last().update(i, None));
        assert(m.update(i, None).last() == m.last());
    }
}

/// Entries can be present only below a bound when every neuron the
/// genome touches lies below it; then at most that many entries are
/// present.
pub(crate) proof fn lemma_count_some_bound(m: Seq<Option<Node>>, k: int)
    requires
        forall|j: int| k <= j < m.len() ==> m[j] is None,
        0 <= k <= m.len(),
    ensures
        count_some(m) <= k,
    decreases m.len(),
{
    if m.len() > 0 {
        if k == m.len() {
            lemma_count_some_bound(m.drop_last(), k - 1);
        } else {
            lemma_count_some_bound(m.drop_last(), k);
        }
    }
}

/// The genes of a genome spelled out as text, one after the other, each
/// followed by a space.
pub open spec fn spec_genome_text(s: Seq<Gene>) -> Seq<char>
    decreases s.len(),
{
    if s.len() == 0 {
        Seq::empty()
    } else {
        spec_genome_text(s.drop_last()) + gene::spec_gene_text(s.last()) + " "@
    }
}

/// The genes of a genome as eight hexadecimal digits each, with a colon
/// between genes.
pub open spec fn spec_genome_hex(s: Seq<Gene>) -> Seq<char>
    decreases s.len(),
{
    if s.len() == 0 {
        Seq::empty()
    } else if s.len() == 1 {
        gene::spec_hex_of_gene(s.last())
    } else {
        spec_genome_hex(s.drop_last()) + ":"@ + gene::spec_hex_of_gene(s.last())
    }
}

/// Whether every index of a gene lies in its domain: neuron indices
/// below `max_neurons`, sensor indices below `NUM_SENSORS`, action
/// indices below `NUM_ACTIONS`.
pub open spec fn gene_in_domain(g: Gene, max_neurons: u16) -> bool {
    &&& (!gene::spec_source_type(g.encoding) ==> gene::spec_source_num(g.encoding) < max_neurons)
    &&& (gene::spec_source_type(g.encoding) ==> gene::spec_source_num(g.encoding) < NUM_SENSORS)
    &&& (!gene::spec_sink_type(g.encoding) ==> gene::spec_sink_num(g.encoding) < max_neurons)
    &&& (gene::spec_sink_type(g.encoding) ==> gene::spec_sink_num(g.encoding) < NUM_ACTIONS)
}

/// The genome spelled out as text.
pub fn genome_to_string(genome: &Genome) -> (r: String)
    ensures
        r@ == spec_genome_text(genome@),
{
    let mut s = String::new();
    let mut i: usize = 0;
    while i < genome.len()
        invariant
            i <= genome.len(),
            s@ == spec_genome_text(genome@.take(i as int)),
        decreases genome.len() - i,
    {
        let text = genome[i].to_text();
        s.append(text.as_str());
        s.append(" ");
        proof {
            assert(genome@.take(i + 1).drop_last() =~= genome@.take(i as int));
            assert(genome@.take(i + 1).last() == genome@[i as int]);
            assert(s@ =~= spec_genome_text(genome@.take(i + 1)));
        }
        i = i + 1;
    }
    proof {
        assert(genome@.take(genome@.len() as int) =~= genome@);
    }
    s
}

/// The genome in hexadecimal, a colon between genes.
pub fn genome_to_hex(genome: &Genome) -> (r: String)
    ensures
        r@ == spec_genome_hex(genome@),
{
    let mut s = String::new();
    let mut i: usize = 0;
    while i < genome.len()
        invariant
            i <= genome.len(),
            s@ == spec_genome_hex(genome@.take(i as int)),
        decreases genome.len() - i,
    {
        if i > 0 {
            s.append(":");
        }
        let hex = genome[i].hex_string();
        s.append(hex.as_str());
        proof {
            assert(genome@.take(i + 1).drop_last() =~= genome@.take(i as int));
            assert(genome@.take(i + 1).last() == genome@[i as int]);
            assert(s@ =~= spec_genome_hex(genome@.take(i + 1)));
        }
        i = i + 1;
    }
    proof {
        assert(genome@.take(genome@.len() as int) =~= genome@);
    }
    s
}

/// A genome of `num_genes` uniformly random genes.
pub fn make_random_genome(num_genes: usize) -> (r: Genome)
    ensures
        r@.len() == num_genes,
{
    let mut genome: Genome = Vec::new();
    let mut i: usize = 0;
    while i < num_genes
        invariant
            i <= num_genes,
            genome@.len() == i,
        decreases num_genes - i,
    {
        genome.push(Gene::make_random_gene());
        i = i + 1;
    }
    genome
}

/// Rewrites every index of every gene into its domain: neuron indices
/// are taken modulo `max_number_neurons`, sensor indices modulo
/// `NUM_SENSORS`, action indices modulo `NUM_ACTIONS`.  Types and
/// weights stay as they were.
pub fn renumber_genome(genome: &Genome, max_number_neurons: u16) -> (r: Genome)
    requires
        1 <= max_number_neurons <= 128,
    ensures
        r@.len() == genome@.len(),
        forall|i: int| 0 <= i < genome@.len() ==> {
            let g0 = genome@[i];
            let g1 = #[trigger] r@[i];
            &&& g1.weight == g0.weight
            &&& gene::spec_source_type(g1.encoding) == gene::spec_source_type(g0.encoding)
            &&& gene::spec_sink_type(g1.encoding) == gene::spec_sink_type(g0.encoding)
            &&& gene::spec_source_num(g1.encoding) as int == if gene::spec_source_type(g0.encoding) {
                gene::spec_source_num(g0.encoding) as int % NUM_SENSORS as int
            } else {
                gene::spec_source_num(g0.encoding) as int % max_number_neurons as int
            }
            &&& gene::spec_sink_num(g1.encoding) as int == if gene::spec_sink_type(g0.encoding) {
                gene::spec_sink_num(g0.encoding) as int % NUM_ACTIONS as int
            } else {
                gene::spec_sink_num(g0.encoding) as int % max_number_neurons as int
            }
            &&& gene_in_domain(g1, max_number_neurons)
        },
{
    let mut new_genome: Genome = Vec::new();
    let mut i: usize = 0;
    while i < genome.len()
        invariant
            i <= genome.len(),
            1 <= max_number_neurons <= 128,
            new_genome@.len() == i,
            forall|k: int| 0 <= k < i ==> {
                let g0 = genome@[k];
                let g1 = #[trigger] new_genome@[k];
                &&& g1.weight == g0.weight
                &&& gene::spec_source_type(g1.encoding) == gene::spec_source_type(g0.encoding)
                &&& gene::spec_sink_type(g1.encoding) == gene::spec_sink_type(g0.encoding)
                &&& gene::spec_source_num(g1.encoding) as int == if gene::spec_source_type(g0.encoding) {
                    gene::spec_source_num(g0.encoding) as int % NUM_SENSORS as int
                } else {
                    gene::spec_source_num(g0.encoding) as int % max_number_neurons as int
                }
                &&& gene::spec_sink_num(g1.encoding) as int == if gene::spec_sink_type(g0.encoding) {
                    gene::spec_sink_num(g0.encoding) as int % NUM_ACTIONS as int
                } else {
                    gene::spec_sink_num(g0.encoding) as int % max_number_neurons as int
                }
                &&& gene_in_domain(g1, max_number_neurons)
            },
        decreases genome.len() - i,
    {
        let mut conn: Gene = genome[i];
        let new_source: u8 = if !conn.get_source_type() {
            conn.get_source_num() % (max_number_neurons as u8)
        } else {
            conn.get_source_num() % NUM_SENSORS
        };
        conn.set_source_num(new_source);
        let new_sink: u8 = if !conn.get_sink_type() {
            conn.get_sink_num() % (max_number_neurons as u8)
        } else {
            conn.get_sink_num() % NUM_ACTIONS
        };
        conn.set_sink_num(new_sink);
        new_genome.push(conn);
        i = i + 1;
    }
    new_genome
}

/// Sweeps the genome once and builds the per-neuron bookkeeping: an
/// entry for exactly the neurons some gene touches, with its outputs,
/// self inputs and other inputs counted over the whole genome, and every
/// remapped number still zero.
pub fn get_connection_map_from_genome(genome: &Genome) -> (m: ConnectionMap)
    ensures
        map_wf(m@, genome@),
        forall|n: u8| n < 128 ==> ((#[trigger] m@[n as int]) is Some ==> touches(genome@, n)),
        forall|n: u8| n < 128 && m@[n as int] is Some ==> (#[trigger] m@[n as int])->Some_0.remapped_number == 0,
{
    let mut m: ConnectionMap = Vec::new();
    let mut k: usize = 0;
    while k < CONNECTION_MAP_SIZE
        invariant
            k <= CONNECTION_MAP_SIZE,
            m@.len() == k,
            forall|j: int| 0 <= j < k ==> m@[j] is None,
        decreases CONNECTION_MAP_SIZE - k,
    {
        m.push(None);
        k = k + 1;
    }
    let ghost s = genome@;
    let mut i: usize = 0;
    while i < genome.len()
        invariant
            i <= genome.len(),
            s == genome@,
            m@.len() == CONNECTION_MAP_SIZE,
            forall|n: u8| n < 128 ==> ((touches(s.take(i as int), n)) ==> (#[trigger] m@[n as int]) is Some),
            forall|n: u8| n < 128 ==> ((#[trigger] m@[n as int]) is Some ==> touches(s.take(i as int), n)),
            forall|n: u8| n < 128 ==> entry_counts_ok(#[trigger] m@[n as int], s.take(i as int), n),
            forall|n: u8| n < 128 && m@[n as int] is Some
                ==> (#[trigger] m@[n as int])->Some_0.remapped_number == 0,
        decreases genome.len() - i,
    {
        let g = genome[i];
        proof {
            lemma_counts_le_len(s.take(i as int), gene::spec_sink_num(g.encoding));
            lemma_counts_le_len(s.take(i as int), gene::spec_source_num(g.encoding));
            broadcast use vstd::seq_lib::group_seq_properties;
        }
        if !g.get_sink_type() {
            let t = g.get_sink_num() as usize;
            if m[t].is_none() {
                m[t] = Some(Node { remapped_number: 0, outputs: 0, self_inputs: 0, other_inputs: 0 });
            }
            let entry = m[t];
            match entry {
                Some(nd) => {
                    if !g.get_source_type() && g.get_source_num() == g.get_sink_num() {
                        m[t] = Some(Node { self_inputs: nd.self_inputs + 1, ..nd });
                    } else {
                        m[t] = Some(Node { other_inputs: nd.other_inputs + 1, ..nd });
                    }
                }
                None => {}
            }
        }
        if !g.get_source_type() {
            let u = g.get_source_num() as usize;
            if m[u].is_none() {
                m[u] = Some(Node { remapped_number: 0, outputs: 0, self_inputs: 0, other_inputs: 0 });
            }
            let entry = m[u];
            match entry {
                Some(nd) => {
                    m[u] = Some(Node { outputs: nd.outputs + 1, ..nd });
                }
                None => {}
            }
        }
        proof {
            assert forall|n: u8| n < 128 implies entry_counts_ok(#[trigger] m@[n as int], s.take(i + 1), n)
                && (touches(s.take(i + 1), n) ==> m@[n as int] is Some)
                && (m@[n as int] is Some ==> touches(s.take(i + 1), n)) by {
                lemma_counts_take_step(s, i as int, n);
            }
        }
        i = i + 1;
    }
    proof {
        assert(s.take(s.len() as int) =~= s);
    }
    m
}

/// Removes from the genome every gene that sinks at `neuron_num`, and,
/// for each removed gene that leaves a neuron, lowers that neuron's
/// output count; input counts and remapped numbers stay as they were.
pub fn remove_connections_to_neuron(genome: &mut Genome, connections: &mut ConnectionMap, neuron_num: u8)
    requires
        old(connections)@.len() == CONNECTION_MAP_SIZE,
        forall|n: u8| n < 128 ==> (touches(old(genome)@, n) ==> (#[trigger] old(connections)@[n as int]) is Some),
        forall|n: u8| n < 128 && old(connections)@[n as int] is Some
            ==> (#[trigger] old(connections)@[n as int])->Some_0.outputs == count_outputs(old(genome)@, n),
    ensures
        final(genome)@ == spec_prune_sinks(old(genome)@, neuron_num),
        final(connections)@.len() == CONNECTION_MAP_SIZE,
        forall|n: u8| n < 128
            ==> ((#[trigger] final(connections)@[n as int]) is Some) == (old(connections)@[n as int] is Some),
        forall|n: u8| n < 128 && final(connections)@[n as int] is Some ==> {
            let nd1 = (#[trigger] final(connections)@[n as int])->Some_0;
            let nd0 = old(connections)@[n as int]->Some_0;
            &&& nd1.outputs == count_outputs(final(genome)@, n)
            &&& nd1.self_inputs == nd0.self_inputs
            &&& nd1.other_inputs == nd0.other_inputs
            &&& nd1.remapped_number == nd0.remapped_number
        },
{
    let ghost s = genome@;
    let ghost m0 = connections@;
    let mut kept: Genome = Vec::new();
    proof {
        assert(s.skip(0) =~= s);
        assert(s.take(0) =~= Seq::<Gene>::empty());
        assert(kept@ =~= s.take(0));
        assert(spec_prune_sinks(s.take(0), neuron_num) =~= s.take(0));
        assert forall|n: u8| n < 128 implies #[trigger] count_outputs(kept@, n) == 0
            && count_outputs(s.skip(0), n) == count_outputs(s, n) by {
        }
    }
    let mut i: usize = 0;
    while i < genome.len()
        invariant
            i <= genome.len(),
            s == genome@,
            connections@.len() == CONNECTION_MAP_SIZE,
            kept@ == spec_prune_sinks(s.take(i as int), neuron_num),
            forall|n: u8| n < 128
                ==> ((#[trigger] connections@[n as int]) is Some) == (m0[n as int] is Some),
            forall|n: u8| n < 128 ==> (touches(s, n) ==> (#[trigger] m0[n as int]) is Some),
            forall|n: u8| n < 128 && connections@[n as int] is Some ==> {
                let nd1 = (#[trigger] connections@[n as int])->Some_0;
                let nd0 = m0[n as int]->Some_0;
                &&& nd1.outputs == count_outputs(kept@, n) + count_outputs(s.skip(i as int), n)
                &&& nd1.self_inputs == nd0.self_inputs
                &&& nd1.other_inputs == nd0.other_inputs
                &&& nd1.remapped_number == nd0.remapped_number
            },
        decreases genome.len() - i,
    {
        let g = genome[i];
        let ghost kept_pre = kept@;
        let ghost conns_pre = connections@;
        proof {
            // One gene moves from the unprocessed suffix to the kept
            // prefix or is dropped; the count bookkeeping shifts by its
            // contribution.
            assert(s.skip(i as int) =~= seq![s[i as int]] + s.skip(i + 1));
            lemma_counts_concat(seq![s[i as int]], s.skip(i + 1));
            assert(seq![s[i as int]].drop_last() =~= Seq::<Gene>::empty());
            assert(seq![s[i as int]].last() == s[i as int]);
            assert forall|n: u8| n < 128 implies #[trigger] count_outputs(seq![s[i as int]], n)
                == if is_neuron_source(s[i as int], n) { 1nat } else { 0nat } by {
                assert(count_outputs(seq![s[i as int]], n)
                    == count_outputs(seq![s[i as int]].drop_last(), n)
                        + if is_neuron_source(seq![s[i as int]].last(), n) { 1nat } else { 0nat });
                assert(count_outputs(Seq::<Gene>::empty(), n) == 0);
            }
            assert(s.take(i + 1).drop_last() =~= s.take(i as int));
            assert(s.take(i + 1).last() == s[i as int]);
        }
        if !g.get_sink_type() && g.get_sink_num() == neuron_num {
            if !g.get_source_type() {
                let u = g.get_source_num() as usize;
                let ghost un = gene::spec_source_num(g.encoding);
                proof {
                    assert(count_outputs(seq![s[i as int]], un) == 1);
                    assert(count_outputs(s.skip(i as int), un) >= 1);
                }
                let entry = connections[u];
                match entry {
                    Some(nd) => {
                        connections[u] = Some(Node {
                            remapped_number: nd.remapped_number,
                            outputs: nd.outputs - 1,
                            self_inputs: nd.self_inputs,
                            other_inputs: nd.other_inputs,
                        });
                    }
                    None => {
                        proof {
                            // The gene leaves neuron `un`, so the genome
                            // touches `un` and its entry must be present.
                            assert(s =~= s.take(i as int) + s.skip(i as int));
                            lemma_counts_concat(s.take(i as int), s.skip(i as int));
                            assert(count_outputs(s, un) >= 1);
                            assert(touches(s, un));
                            assert(false);
                        }
                    }
                }
            }
        } else {
            kept.push(g);
            proof {
                assert(kept@.drop_last() =~= kept_pre);
                assert(kept@.last() == s[i as int]);
                assert forall|n: u8| n < 128 implies #[trigger] count_outputs(kept@, n)
                    == count_outputs(kept_pre, n)
                        + if is_neuron_source(s[i as int], n) { 1nat } else { 0nat } by {
                }
            }
        }
        proof {
            assert(kept@ == spec_prune_sinks(s.take(i + 1), neuron_num));
            assert forall|n: u8| n < 128 && connections@[n as int] is Some implies {
                let nd1 = (#[trigger] connections@[n as int])->Some_0;
                let nd0 = m0[n as int]->Some_0;
                &&& nd1.outputs == count_outputs(kept@, n) + count_outputs(s.skip(i + 1), n)
                &&& nd1.self_inputs == nd0.self_inputs
                &&& nd1.other_inputs == nd0.other_inputs
                &&& nd1.remapped_number == nd0.remapped_number
            } by {
                assert(count_outputs(s.skip(i as int), n)
                    == count_outputs(seq![s[i as int]], n) + count_outputs(s.skip(i + 1), n));
            }
        }
        i = i + 1;
    }
    proof {
        assert(s.take(s.len() as int) =~= s);
        assert(s.skip(s.len() as int) =~= Seq::<Gene>::empty());
        assert forall|n: u8| n < 128 implies #[trigger] count_outputs(s.skip(s.len() as int), n) == 0 by {
        }
    }
    *genome = kept;
}

/// All three counts are additive over concatenation.
pub(crate) proof fn lemma_counts_concat(a: Seq<Gene>, b: Seq<Gene>)
    ensures
        forall|n: u8| #[trigger] count_outputs(a + b, n) == count_outputs(a, n) + count_outputs(b, n),
        forall|n: u8| #[trigger] count_self_inputs(a + b, n)
            == count_self_inputs(a, n) + count_self_inputs(b, n),
        forall|n: u8| #[trigger] count_other_inputs(a + b, n)
            == count_other_inputs(a, n) + count_other_inputs(b, n),
    decreases b.len(),
{
    if b.len() == 0 {
        assert(a + b =~= a);
        assert forall|n: u8| #[trigger] count_outputs(b, n) == 0
            && #[trigger] count_self_inputs(b, n) == 0 && #[trigger] count_other_inputs(b, n) == 0 by {
        }
    } else {
        lemma_counts_concat(a, b.drop_last());
        assert((a + b).drop_last() =~= a + b.drop_last());
        assert((a + b).last() == b.last());
        assert forall|n: u8| #[trigger] count_outputs(a + b, n)
            == count_outputs(a, n) + count_outputs(b, n) by {
            assert(count_outputs(a + b, n) == count_outputs((a + b).drop_last(), n)
                + if is_neuron_source((a + b).last(), n) { 1nat } else { 0nat });
            assert(count_outputs(b, n) == count_outputs(b.drop_last(), n)
                + if is_neuron_source(b.last(), n) { 1nat } else { 0nat });
        }
        assert forall|n: u8| #[trigger] count_self_inputs(a + b, n)
            == count_self_inputs(a, n) + count_self_inputs(b, n) by {
            assert(count_self_inputs(a + b, n) == count_self_inputs((a + b).drop_last(), n)
                + if is_self_loop((a + b).last(), n) { 1nat } else { 0nat });
            assert(count_self_inputs(b, n) == count_self_inputs(b.drop_last(), n)
                + if is_self_loop(b.last(), n) { 1nat } else { 0nat });
        }
        assert forall|n: u8| #[trigger] count_other_inputs(a + b, n)
            == count_other_inputs(a, n) + count_other_inputs(b, n) by {
            assert(count_other_inputs(a + b, n) == count_other_inputs((a + b).drop_last(), n)
                + if is_neuron_sink((a + b).last(), n) && !is_self_loop((a + b).last(), n) { 1nat } else { 0nat });
            assert(count_other_inputs(b, n) == count_other_inputs(b.drop_last(), n)
                + if is_neuron_sink(b.last(), n) && !is_self_loop(b.last(), n) { 1nat } else { 0nat });
        }
    }
}

/// Two maps whose entries are present at the same places have the same
/// number of present entries.
proof fn lemma_count_some_pointwise(m1: Seq<Option<Node>>, m2: Seq<Option<Node>>)
    requires
        m1.len() == m2.len(),
        forall|j: int| 0 <= j < m1.len() ==> ((#[trigger] m1[j]) is Some) == (m2[j] is Some),
    ensures
        count_some(m1) == count_some(m2),
    decreases m1.len(),
{
    if m1.len() > 0 {
        lemma_count_some_pointwise(m1.drop_last(), m2.drop_last());
        assert(m1[m1.len() - 1] == m1.last());
        assert(m2[m2.len() - 1] == m2.last());
    }
}

/// Prunes until no neuron is useless: while some neuron's outputs all
/// feed itself (or it has none), that neuron's incoming genes are
/// removed, output counts are lowered, and its entry is dropped.  When a
/// genome and map that already hold no useless neuron are handed in,
/// both come back unchanged.
pub fn remove_useless_neurons_from_genome(genome: &mut Genome, connection_map: &mut ConnectionMap)
    requires
        map_wf(old(connection_map)@, old(genome)@),
    ensures
        map_wf(final(connection_map)@, final(genome)@),
        forall|n: u8| n < 128 && final(connection_map)@[n as int] is Some ==> {
            let nd = (#[trigger] final(connection_map)@[n as int])->Some_0;
            nd.outputs > nd.self_inputs
        },
        genome_subset(final(genome)@, old(genome)@),
        forall|n: u8| n < 128 && final(connection_map)@[n as int] is Some
            ==> old(connection_map)@[n as int] is Some
                && (#[trigger] final(connection_map)@[n as int])->Some_0.remapped_number
                    == old(connection_map)@[n as int]->Some_0.remapped_number,
        (forall|n: u8| n < 128 && old(connection_map)@[n as int] is Some ==> {
            let nd = (#[trigger] old(connection_map)@[n as int])->Some_0;
            nd.outputs != nd.self_inputs
        }) ==> final(genome)@ == old(genome)@ && final(connection_map)@ == old(connection_map)@,
        action_profile(final(genome)@) == action_profile(old(genome)@),
        is_subsequence(neuron_half_profile(final(genome)@), neuron_half_profile(old(genome)@)),
        final(genome)@ == spec_keep_by_map(old(genome)@, final(connection_map)@),
{
    let ghost g0 = genome@;
    let ghost m0 = connection_map@;
    proof {
        lemma_subset_refl(g0);
        lemma_subsequence_refl(neuron_half_profile(g0));
        lemma_keep_all(g0, m0);
    }
    loop
        invariant
            map_wf(connection_map@, genome@),
            genome_subset(genome@, g0),
            action_profile(genome@) == action_profile(g0),
            is_subsequence(neuron_half_profile(genome@), neuron_half_profile(g0)),
            genome@ == spec_keep_by_map(g0, connection_map@),
            forall|n: u8| n < 128 && connection_map@[n as int] is Some
                ==> m0[n as int] is Some
                    && (#[trigger] connection_map@[n as int])->Some_0.remapped_number
                        == m0[n as int]->Some_0.remapped_number,
            (forall|n: u8| n < 128 && m0[n as int] is Some ==> {
                let nd = (#[trigger] m0[n as int])->Some_0;
                nd.outputs != nd.self_inputs
            }) ==> genome@ == g0 && connection_map@ == m0,
        ensures
            map_wf(connection_map@, genome@),
            forall|n: u8| n < 128 && connection_map@[n as int] is Some ==> {
                let nd = (#[trigger] connection_map@[n as int])->Some_0;
                nd.outputs != nd.self_inputs
            },
            genome_subset(genome@, g0),
            action_profile(genome@) == action_profile(g0),
            is_subsequence(neuron_half_profile(genome@), neuron_half_profile(g0)),
            genome@ == spec_keep_by_map(g0, connection_map@),
            forall|n: u8| n < 128 && connection_map@[n as int] is Some
                ==> m0[n as int] is Some
                    && (#[trigger] connection_map@[n as int])->Some_0.remapped_number
                        == m0[n as int]->Some_0.remapped_number,
            (forall|n: u8| n < 128 && m0[n as int] is Some ==> {
                let nd = (#[trigger] m0[n as int])->Some_0;
                nd.outputs != nd.self_inputs
            }) ==> genome@ == g0 && connection_map@ == m0,
        decreases count_some(connection_map@),
    {
        // Look for a neuron whose outputs all feed itself.
        let mut found: Option<u8> = None;
        let mut k: usize = 0;
        while k < CONNECTION_MAP_SIZE
            invariant
                k <= CONNECTION_MAP_SIZE,
                connection_map@.len() == CONNECTION_MAP_SIZE,
                found is None ==> forall|n: u8| n < k && (#[trigger] connection_map@[n as int]) is Some
                    ==> connection_map@[n as int]->Some_0.outputs
                        != connection_map@[n as int]->Some_0.self_inputs,
                match found {
                    Some(nn) => nn < 128 && connection_map@[nn as int] is Some
                        && connection_map@[nn as int]->Some_0.outputs
                            == connection_map@[nn as int]->Some_0.self_inputs,
                    None => true,
                },
            decreases CONNECTION_MAP_SIZE - k,
        {
            if found.is_none() {
                let entry = connection_map[k];
                match entry {
                    Some(nd) => {
                        if nd.outputs == nd.self_inputs {
                            found = Some(k as u8);
                        }
                    }
                    None => {}
                }
            }
            k = k + 1;
        }
        match found {
            None => {
                break;
            }
            Some(nn) => {
                let ghost g_pre = genome@;
                let ghost m_pre = connection_map@;
                let ghost m_keep_pre = connection_map@;
                remove_connections_to_neuron(genome, connection_map, nn);
                proof {
                    lemma_count_some_pointwise(connection_map@, m_pre);
                    lemma_count_some_update_none(connection_map@, nn as int);
                }
                connection_map[nn as usize] = None;
                proof {
                    lemma_self_outputs_into(g_pre, nn);
                    lemma_prune_counts(g_pre, nn, nn);
                    assert(m_pre[nn as int]->Some_0.outputs == count_outputs(g_pre, nn));
                    assert(m_pre[nn as int]->Some_0.self_inputs == count_self_inputs(g_pre, nn));
                    assert(count_outputs_into(g_pre, nn, nn) == count_self_inputs(g_pre, nn));
                    assert(count_outputs(genome@, nn) == 0);
                    assert(!touches(genome@, nn));
                    assert forall|n: u8| n < 128 implies
                        (touches(genome@, n) ==> (#[trigger] connection_map@[n as int]) is Some)
                        && entry_counts_ok(connection_map@[n as int], genome@, n) by {
                        lemma_prune_counts(g_pre, nn, n);
                        if n != nn {
                            assert(entry_counts_ok(m_pre[n as int], g_pre, n));
                            if touches(genome@, n) {
                                assert(count_outputs(genome@, n) <= count_outputs(g_pre, n));
                                assert(touches(g_pre, n));
                                assert(m_pre[n as int] is Some);
                                assert(connection_map@[n as int] is Some);
                            }
                        }
                    }
                    lemma_prune_subset(g_pre, nn);
                    lemma_subset_trans(genome@, g_pre, g0);
                    lemma_prune_action_profile(g_pre, nn);
                    lemma_prune_neuron_profile(g_pre, nn);
                    lemma_subsequence_trans(
                        neuron_half_profile(genome@),
                        neuron_half_profile(g_pre),
                        neuron_half_profile(g0),
                    );
                    lemma_keep_prune(g0, m_keep_pre, nn);
                    lemma_keep_pointwise(g0, m_keep_pre.update(nn as int, None), connection_map@);
                }
            }
        }
    }
    proof {
        assert forall|n: u8| n < 128 && connection_map@[n as int] is Some implies {
            let nd = (#[trigger] connection_map@[n as int])->Some_0;
            nd.outputs > nd.self_inputs
        } by {
            lemma_outputs_ge_self(genome@, n);
        }
    }
}

/// A gene that touches neuron `n` makes the whole sequence touch it.
pub(crate) proof fn lemma_touches_at(s: Seq<Gene>, i: int, n: u8)
    requires
        0 <= i < s.len(),
    ensures
        is_neuron_sink(s[i], n) ==> touches(s, n),
        is_neuron_source(s[i], n) ==> touches(s, n),
{
    assert(s =~= s.take(i) + s.skip(i));
    assert(s.skip(i) =~= seq![s[i]] + s.skip(i + 1));
    lemma_counts_concat(s.take(i), s.skip(i));
    lemma_counts_concat(seq![s[i]], s.skip(i + 1));
    assert(seq![s[i]].drop_last() =~= Seq::<Gene>::empty());
    assert(seq![s[i]].last() == s[i]);
    assert(count_outputs(seq![s[i]], n)
        == count_outputs(Seq::<Gene>::empty(), n) + if is_neuron_source(s[i], n) { 1nat } else { 0nat });
    assert(count_self_inputs(seq![s[i]], n)
        == count_self_inputs(Seq::<Gene>::empty(), n) + if is_self_loop(s[i], n) { 1nat } else { 0nat });
    assert(count_other_inputs(seq![s[i]], n)
        == count_other_inputs(Seq::<Gene>::empty(), n)
            + if is_neuron_sink(s[i], n) && !is_self_loop(s[i], n) { 1nat } else { 0nat });
    assert(count_outputs(Seq::<Gene>::empty(), n) == 0);
    assert(count_self_inputs(Seq::<Gene>::empty(), n) == 0);
    assert(count_other_inputs(Seq::<Gene>::empty(), n) == 0);
}

/// A prefix of the map has one more present entry when the next slot is
/// present.
pub(crate) proof fn lemma_count_some_take_step(m: Seq<Option<Node>>, k: int)
    requires
        0 <= k < m.len(),
    ensures
        count_some(m.take(k + 1)) == count_some(m.take(k)) + if m[k] is Some { 1int } else { 0int },
        count_some(m.take(k)) <= k,
    decreases k,
{
    assert(m.take(k + 1).drop_last() =~= m.take(k));
    assert(m.take(k + 1).last() == m[k]);
    if k > 0 {
        lemma_count_some_take_step(m, k - 1);
    } else {
        assert(m.take(0) =~= Seq::<Option<Node>>::empty());
        assert(count_some(Seq::<Option<Node>>::empty()) == 0);
    }
}

} // verus!
