use vstd::prelude::*;
use crate::gene::Gene;
use crate::genome::Genome;

verus! {

/// The ways two genomes can be compared.
#[derive(Debug, Clone, Copy, PartialEq, Eq, Structural)]
pub enum SimilarityMetric {
    JaroWinkler,
    HammingGenes,
    HammingBits,
}

/// How many of the low `b` bits of a 16-bit value are set.
pub open spec fn spec_count_bits(v: u16, b: int) -> nat
    decreases b,
{
    if b <= 0 {
        0
    } else {
        spec_count_bits(v, b - 1) + if v & (1u16 << ((b - 1) as u16)) != 0 { 1nat } else { 0nat }
    }
}

/// How many positions of two equal-length genomes hold the same gene.
pub open spec fn spec_count_equal_genes(s1: Seq<Gene>, s2: Seq<Gene>) -> nat
    recommends
        s1.len() == s2.len(),
    decreases s1.len(),
{
    if s1.len() == 0 {
        0
    } else {
        spec_count_equal_genes(s1.drop_last(), s2.drop_last())
            + if s1.last() == s2.last() { 1nat } else { 0nat }
    }
}

/// How many bits two genes differ in, over the encoding and the
/// weight's 16-bit image.
pub open spec fn spec_gene_bit_difference(g1: Gene, g2: Gene) -> nat {
    spec_count_bits(g1.encoding ^ g2.encoding, 16)
        + spec_count_bits((g1.weight as u16) ^ (g2.weight as u16), 16)
}

/// How many bits two equal-length genomes differ in altogether.
pub open spec fn spec_count_differing_bits(s1: Seq<Gene>, s2: Seq<Gene>) -> nat
    recommends
        s1.len() == s2.len(),
    decreases s1.len(),
{
    if s1.len() == 0 {
        0
    } else {
        spec_count_differing_bits(s1.drop_last(), s2.drop_last())
            + spec_gene_bit_difference(s1.last(), s2.last())
    }
}

/// How many of the low 16 bits of a value are set.
fn count_bits16(v: u16) -> (r: u32)
    ensures
        r == spec_count_bits(v, 16),
        r <= 16,
{
    let mut count: u32 = 0;
    let mut b: u8 = 0;
    while b < 16
        invariant
            b <= 16,
            count == spec_count_bits(v, b as int),
            count <= b,
        decreases 16 - b,
    {
        if v & (1u16 << b) != 0 {
            count = count + 1;
        }
        b = b + 1;
    }
    count
}

/// How many positions of two equal-length genomes hold the same gene.
pub fn count_equal_genes(genome1: &Genome, genome2: &Genome) -> (r: usize)
    requires
        genome1@.len() == genome2@.len(),
    ensures
        r == spec_count_equal_genes(genome1@, genome2@),
        r <= genome1@.len(),
{
    let mut count: usize = 0;
    let mut i: usize = 0;
    proof {
        assert(genome1@.take(0) =~= Seq::<Gene>::empty());
        assert(genome2@.take(0) =~= Seq::<Gene>::empty());
    }
    while i < genome1.len()
        invariant
            i <= genome1@.len(),
            genome1@.len() == genome2@.len(),
            count == spec_count_equal_genes(genome1@.take(i as int), genome2@.take(i as int)),
            count <= i,
        decreases genome1@.len() - i,
    {
        proof {
            assert(genome1@.take(i + 1).drop_last() =~= genome1@.take(i as int));
            assert(genome2@.take(i + 1).drop_last() =~= genome2@.take(i as int));
            assert(genome1@.take(i + 1).last() == genome1@[i as int]);
            assert(genome2@.take(i + 1).last() == genome2@[i as int]);
        }
        if genome1[i].encoding == genome2[i].encoding && genome1[i].weight == genome2[i].weight {
            proof {
                assert(genome1@[i as int] == genome2@[i as int]);
            }
            count = count + 1;
        } else {
            proof {
                assert(genome1@[i as int] != genome2@[i as int]);
            }
        }
        i = i + 1;
    }
    proof {
        assert(genome1@.take(genome1@.len() as int) =~= genome1@);
        assert(genome2@.take(genome2@.len() as int) =~= genome2@);
    }
    count
}

/// How many bits two equal-length genomes differ in altogether.
pub fn count_differing_bits(genome1: &Genome, genome2: &Genome) -> (r: u64)
    requires
        genome1@.len() == genome2@.len(),
        genome1@.len() < 0x1_0000_0000,
    ensures
        r == spec_count_differing_bits(genome1@, genome2@),
        r <= 32 * genome1@.len(),
{
    let mut total: u64 = 0;
    let mut i: usize = 0;
    proof {
        assert(genome1@.take(0) =~= Seq::<Gene>::empty());
        assert(genome2@.take(0) =~= Seq::<Gene>::empty());
    }
    while i < genome1.len()
        invariant
            i <= genome1@.len(),
            genome1@.len() == genome2@.len(),
            genome1@.len() < 0x1_0000_0000,
            total == spec_count_differing_bits(genome1@.take(i as int), genome2@.take(i as int)),
            total <= 32 * i,
        decreases genome1@.len() - i,
    {
        proof {
            assert(genome1@.take(i + 1).drop_last() =~= genome1@.take(i as int));
            assert(genome2@.take(i + 1).drop_last() =~= genome2@.take(i as int));
            assert(genome1@.take(i + 1).last() == genome1@[i as int]);
            assert(genome2@.take(i + 1).last() == genome2@[i as int]);
        }
        let encoding_difference = count_bits16(genome1[i].encoding ^ genome2[i].encoding);
        let w1: u16 = #[verifier::truncate] (genome1[i].weight as u16);
        let w2: u16 = #[verifier::truncate] (genome2[i].weight as u16);
        let weight_difference = count_bits16(w1 ^ w2);
        total = total + encoding_difference as u64 + weight_difference as u64;
        i = i + 1;
    }
    proof {
        assert(genome1@.take(genome1@.len() as int) =~= genome1@);
        assert(genome2@.take(genome2@.len() as int) =~= genome2@);
    }
    total
}

} // verus!
