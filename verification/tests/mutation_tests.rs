use biosim::gene::Gene;
use biosim::genome::Genome;
use biosim::mutations::{
    apply_point_mutation_to_genome, breed_from_parents, crop_length, crossover,
    random_bit_flip, random_insertion_deletion,
};
use biosim::parameters::Parameters;
use biosim::similarity::{count_differing_bits, count_equal_genes, SimilarityMetric};

#[test]
fn test_random_bit_flip_changes_one_bit() {
    let mut genome: Genome = vec![
        Gene::new(false, 1, false, 2, 10),
        Gene::new(true, 3, true, 4, -7),
        Gene::new(false, 5, false, 6, 0),
    ];
    let before = genome.clone();
    random_bit_flip(&mut genome);
    assert_eq!(genome.len(), before.len());
    let mut changed = 0;
    for i in 0..genome.len() {
        assert_eq!(genome[i].weight, before[i].weight);
        let diff = genome[i].encoding ^ before[i].encoding;
        if diff != 0 {
            changed += 1;
            assert_eq!(diff.count_ones(), 1);
        }
    }
    assert_eq!(changed, 1);
}

#[test]
fn test_crop_length() {
    let mut genome: Genome = vec![
        Gene::new(false, 1, false, 2, 1),
        Gene::new(false, 3, false, 4, 2),
        Gene::new(false, 5, false, 6, 3),
    ];
    let before = genome.clone();
    crop_length(&mut genome, 2);
    assert_eq!(genome.len(), 2);
    assert_eq!(genome[0], before[0]);
    assert_eq!(genome[1], before[1]);
    // A zero length or one at least as long as the genome changes
    // nothing.
    crop_length(&mut genome, 0);
    assert_eq!(genome.len(), 2);
    crop_length(&mut genome, 5);
    assert_eq!(genome.len(), 2);
}

#[test]
fn test_random_insertion_deletion_bounds() {
    let params = Parameters::defaults();
    let mut genome: Genome = vec![Gene::new(false, 1, false, 2, 1)];
    for _ in 0..50 {
        random_insertion_deletion(&mut genome, &params);
        assert!(genome.len() >= 1);
        assert!(genome.len() <= params.max_genome_length as usize);
    }
}

#[test]
fn test_point_mutation_keeps_weights() {
    let mut params = Parameters::defaults();
    // Force a flip on every position to exercise the mutation path.
    params.point_mutation_rate_ppm = 1_000_000;
    let mut genome: Genome = vec![
        Gene::new(false, 1, false, 2, 11),
        Gene::new(true, 3, true, 4, -12),
    ];
    let before = genome.clone();
    apply_point_mutation_to_genome(&mut genome, &params);
    assert_eq!(genome.len(), before.len());
    for i in 0..genome.len() {
        assert_eq!(genome[i].weight, before[i].weight);
        // Each position's gene mutates in place: exactly one of its own
        // encoding bits inverts.
        assert_eq!((genome[i].encoding ^ before[i].encoding).count_ones(), 1);
    }
    // With the chance at zero nothing mutates.
    params.point_mutation_rate_ppm = 0;
    let frozen = genome.clone();
    apply_point_mutation_to_genome(&mut genome, &params);
    assert_eq!(genome, frozen);
}

#[test]
fn test_breed_splices_parents() {
    let mut params = Parameters::defaults();
    // With both chances at zero the child is exactly a splice: the
    // shorter parent's prefix up to some cut, the longer parent's genes
    // from the cut on.
    params.gene_insertion_deletion_rate_ppm = 0;
    params.point_mutation_rate_ppm = 0;
    let father: Genome = vec![
        Gene::new(false, 1, false, 1, 10),
        Gene::new(false, 2, false, 2, 20),
        Gene::new(false, 3, false, 3, 30),
        Gene::new(false, 4, false, 4, 40),
    ];
    let mother: Genome = vec![Gene::new(true, 5, true, 5, 50), Gene::new(true, 6, true, 6, 60)];
    for _ in 0..20 {
        let child = breed_from_parents(&father, &mother, &params);
        assert_eq!(child.len(), father.len());
        let mut cut = 0;
        while cut < mother.len() && child[cut] == mother[cut] {
            cut += 1;
        }
        assert!(cut < mother.len());
        for k in cut..child.len() {
            assert_eq!(child[k], father[k]);
        }
    }
}

#[test]
fn test_crossover_exact() {
    let longer: Genome = vec![
        Gene::new(false, 1, false, 1, 1),
        Gene::new(false, 2, false, 2, 2),
        Gene::new(false, 3, false, 3, 3),
        Gene::new(false, 4, false, 4, 4),
    ];
    let shorter: Genome = vec![
        Gene::new(true, 5, true, 5, 5),
        Gene::new(true, 6, true, 6, 6),
    ];
    let child = crossover(&longer, &shorter, 1);
    assert_eq!(child.len(), 4);
    assert_eq!(child[0], shorter[0]);
    assert_eq!(child[1], longer[1]);
    assert_eq!(child[2], longer[2]);
    assert_eq!(child[3], longer[3]);
    let child_at_zero = crossover(&longer, &shorter, 0);
    assert_eq!(child_at_zero, longer);
}

#[test]
fn test_breed_from_parents_bounds() {
    let params = Parameters::defaults();
    let father: Genome = vec![
        Gene::new(false, 1, false, 1, 1),
        Gene::new(false, 2, false, 2, 2),
        Gene::new(false, 3, false, 3, 3),
    ];
    let mother: Genome = vec![Gene::new(true, 4, true, 4, 4), Gene::new(true, 5, true, 5, 5)];
    for _ in 0..20 {
        let child = breed_from_parents(&father, &mother, &params);
        assert!(child.len() >= 1);
        assert!(child.len() <= params.max_genome_length as usize);
    }
}

#[test]
fn test_count_equal_genes() {
    let a: Genome = vec![
        Gene::new(false, 1, false, 1, 1),
        Gene::new(false, 2, false, 2, 2),
        Gene::new(false, 3, false, 3, 3),
    ];
    let mut b = a.clone();
    assert_eq!(count_equal_genes(&a, &b), 3);
    b[1].set_source_num(9);
    assert_eq!(count_equal_genes(&a, &b), 2);
    b[0].weight = 99;
    assert_eq!(count_equal_genes(&a, &b), 1);
}

#[test]
fn test_count_differing_bits() {
    let a: Genome = vec![Gene { encoding: 0b1010, weight: 0 }];
    let b: Genome = vec![Gene { encoding: 0b0110, weight: 1 }];
    // Two encoding bits differ and one weight bit differs.
    assert_eq!(count_differing_bits(&a, &b), 3);
    assert_eq!(count_differing_bits(&a, &a), 0);
    let c: Genome = vec![Gene { encoding: 0, weight: -1 }, Gene { encoding: 0xffff, weight: 0 }];
    let d: Genome = vec![Gene { encoding: 0, weight: 0 }, Gene { encoding: 0, weight: 0 }];
    assert_eq!(count_differing_bits(&c, &d), 32);
}

#[test]
fn test_similarity_metric_variants() {
    let metric = SimilarityMetric::HammingBits;
    assert!(matches!(metric, SimilarityMetric::HammingBits));
    assert!(!matches!(SimilarityMetric::JaroWinkler, SimilarityMetric::HammingGenes));
}
