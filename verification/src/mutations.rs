use vstd::prelude::*;
use crate::gene::{spec_flip_bit, Gene};
use crate::genome::{make_random_genome, Genome};
use crate::parameters::{params_valid, Parameters};
use crate::rng;

verus! {

/// What the insertion-or-deletion stage can make of a genome: the same
/// genome, the genome less one gene, or the genome with one gene
/// appended.
pub open spec fn spec_insertion_deletion_step(before: Seq<Gene>, after: Seq<Gene>) -> bool {
    ||| after == before
    ||| exists|i: int| 0 <= i < before.len() && after == before.remove(i)
    ||| exists|g: Gene| after == before.push(g)
}

/// What the point-mutation stage can make of a genome: the same length
/// and weights, each gene untouched or exactly one encoding bit away.
pub open spec fn spec_point_mutation_step(before: Seq<Gene>, after: Seq<Gene>) -> bool {
    &&& after.len() == before.len()
    &&& forall|k: int| 0 <= k < before.len() ==> {
        let g1 = #[trigger] after[k];
        let g0 = before[k];
        &&& g1.weight == g0.weight
        &&& (g1 == g0 || exists|b: u16| b < 16 && g1 == spec_flip_bit(g0, b))
    }
}

/// Inverts one uniformly chosen bit of one uniformly chosen gene's
/// encoding; every weight stays.
pub fn random_bit_flip(genome: &mut Genome)
    requires
        1 <= old(genome)@.len() < 0x1_0000_0000,
    ensures
        final(genome)@.len() == old(genome)@.len(),
        exists|i: int, b: u16| 0 <= i < old(genome)@.len() && b < 16
            && final(genome)@ == old(genome)@.update(i, spec_flip_bit(old(genome)@[i], b)),
{
    let element_index = rng::random_below(genome.len() as u32) as usize;
    let bit_index = rng::random_below(16) as u8;
    let bit = genome[element_index].get_bit(bit_index);
    let gene = &mut genome[element_index];
    gene.set_bit(bit_index, !bit);
    proof {
        assert(final(genome)@ == old(genome)@.update(
            element_index as int,
            spec_flip_bit(old(genome)@[element_index as int], bit_index as u16),
        ));
    }
}

/// Truncates the genome to the given length when it is longer and the
/// length is positive; otherwise leaves it as it is.
pub fn crop_length(genome: &mut Genome, length: usize)
    ensures
        final(genome)@ == if old(genome)@.len() > length && length > 0 {
            old(genome)@.take(length as int)
        } else {
            old(genome)@
        },
{
    if genome.len() > length && length > 0 {
        genome.truncate(length);
    }
}

/// With the configured chance, either deletes one uniformly chosen gene
/// (keeping at least one) or appends a random gene (staying within the
/// genome clamp); the genome always keeps at least one gene and never
/// grows beyond the larger of its old length and the clamp.
pub fn random_insertion_deletion(genome: &mut Genome, p: &Parameters)
    requires
        params_valid(*p),
        1 <= old(genome)@.len() < 0x1_0000_0000,
    ensures
        1 <= final(genome)@.len(),
        old(genome)@.len() - 1 <= final(genome)@.len(),
        final(genome)@.len() <= if old(genome)@.len() >= p.max_genome_length {
            old(genome)@.len() as int
        } else {
            p.max_genome_length as int
        },
        spec_insertion_deletion_step(old(genome)@, final(genome)@),
{
    if rng::random_chance(p.gene_insertion_deletion_rate_ppm, 1_000_000) {
        if rng::random_chance(p.delete_ration_ppm, 1_000_000) {
            if genome.len() > 1 {
                let index = rng::random_below(genome.len() as u32) as usize;
                genome.remove(index);
            }
        } else if genome.len() < p.max_genome_length as usize {
            genome.push(Gene::make_random_gene());
        }
    }
}

/// For each gene position, with the configured chance, inverts one
/// uniformly chosen bit of that gene's encoding; the length and every
/// weight stay, and every gene is either untouched or one encoding bit
/// away from what it was.
pub fn apply_point_mutation_to_genome(genome: &mut Genome, p: &Parameters)
    requires
        params_valid(*p),
        old(genome)@.len() < 0x1_0000_0000,
    ensures
        final(genome)@.len() == old(genome)@.len(),
        spec_point_mutation_step(old(genome)@, final(genome)@),
{
    let ghost len0 = genome@.len();
    let mut i: usize = 0;
    while i < genome.len()
        invariant
            genome@.len() == len0,
            len0 < 0x1_0000_0000,
            i <= len0,
            params_valid(*p),
            forall|k: int| i <= k < len0 ==> #[trigger] genome@[k] == old(genome)@[k],
            forall|k: int| 0 <= k < i ==> {
                let g1 = #[trigger] genome@[k];
                let g0 = old(genome)@[k];
                &&& g1.weight == g0.weight
                &&& (g1 == g0 || exists|b: u16| b < 16 && g1 == spec_flip_bit(g0, b))
            },
        decreases len0 - i,
    {
        if rng::random_chance(p.point_mutation_rate_ppm, 1_000_000) {
            let bit_index = rng::random_below(16) as u8;
            let current = genome[i].get_bit(bit_index);
            let gene = &mut genome[i];
            gene.set_bit(bit_index, !current);
            proof {
                assert(genome@[i as int] == spec_flip_bit(old(genome)@[i as int], bit_index as u16));
            }
        }
        i = i + 1;
    }
}

/// The deterministic half of breeding: the shorter parent's prefix of
/// the given length, followed by the longer parent's genes from there to
/// its end.
pub fn crossover(longer: &Genome, shorter: &Genome, cut: usize) -> (child: Genome)
    requires
        cut <= shorter@.len() <= longer@.len(),
    ensures
        child@ == shorter@.take(cut as int) + longer@.skip(cut as int),
        child@.len() == longer@.len(),
{
    let mut child: Genome = Vec::new();
    let mut i: usize = 0;
    while i < cut
        invariant
            i <= cut,
            cut <= shorter@.len() <= longer@.len(),
            child@ == shorter@.take(i as int),
        decreases cut - i,
    {
        child.push(shorter[i]);
        proof {
            assert(child@ =~= shorter@.take(i + 1));
        }
        i = i + 1;
    }
    let mut j: usize = cut;
    while j < longer.len()
        invariant
            cut <= j <= longer@.len(),
            cut <= shorter@.len() <= longer@.len(),
            child@ == shorter@.take(cut as int) + longer@.skip(cut as int).take(j - cut),
        decreases longer@.len() - j,
    {
        child.push(longer[j]);
        proof {
            assert(child@ =~= shorter@.take(cut as int) + longer@.skip(cut as int).take(
                j + 1 - cut,
            ));
        }
        j = j + 1;
    }
    proof {
        assert(longer@.skip(cut as int).take(longer@.len() - cut) =~= longer@.skip(cut as int));
    }
    child
}

/// How a child can descend from a longer and a shorter parent: for some
/// crossover point within the shorter one, the child is the
/// point-mutation image of an insertion-or-deletion image of the shorter
/// parent's prefix spliced onto the longer parent's tail.
pub open spec fn spec_spliced_descendant(
    long_parent: Seq<Gene>,
    short_parent: Seq<Gene>,
    child: Seq<Gene>,
) -> bool {
    exists|cut: int, mid: Seq<Gene>| 0 <= cut < short_parent.len()
        && #[trigger] spec_insertion_deletion_step(
            short_parent.take(cut) + long_parent.skip(cut),
            mid,
        ) && spec_point_mutation_step(mid, child)
}

/// Breeds a child genome from two parents: a uniformly chosen crossover
/// point within the shorter parent splices its prefix onto the longer
/// parent's tail, then an insertion or deletion and point mutations may
/// apply.  The child holds at least one gene and no more than the larger
/// of the longer parent's length and the genome clamp.
pub fn breed_from_parents(father: &Genome, mother: &Genome, p: &Parameters) -> (child: Genome)
    requires
        params_valid(*p),
        1 <= father@.len() < 0x1_0000_0000,
        1 <= mother@.len() < 0x1_0000_0000,
    ensures
        1 <= child@.len(),
        ({
            let longest = if father@.len() >= mother@.len() { father@.len() } else { mother@.len() };
            &&& longest - 1 <= child@.len()
            &&& child@.len() <= (if longest >= p.max_genome_length {
                longest as int
            } else {
                p.max_genome_length as int
            })
        }),
        father@.len() >= mother@.len() ==> spec_spliced_descendant(father@, mother@, child@),
        father@.len() < mother@.len() ==> spec_spliced_descendant(mother@, father@, child@),
{
    let (longer, shorter) = if father.len() >= mother.len() {
        (father, mother)
    } else {
        (mother, father)
    };
    let cut = rng::random_below(shorter.len() as u32) as usize;
    let mut child = crossover(longer, shorter, cut);
    random_insertion_deletion(&mut child, p);
    let ghost mid = child@;
    apply_point_mutation_to_genome(&mut child, p);
    proof {
        assert(spec_insertion_deletion_step(
            shorter@.take(cut as int) + longer@.skip(cut as int),
            mid,
        ));
        assert(spec_point_mutation_step(mid, child@));
        assert(spec_spliced_descendant(longer@, shorter@, child@));
    }
    child
}

} // verus!
