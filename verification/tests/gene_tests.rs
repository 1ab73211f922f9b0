use biosim::gene::Gene;

#[test]
fn test_bit_field() {
    let mut gene = Gene::new(false, 16, false, 25, 1);
    assert_eq!(gene.get_source_type(), false);
    assert_eq!(gene.get_source_num(), 16);
    assert_eq!(gene.get_sink_type(), false);
    assert_eq!(gene.get_sink_num(), 25);

    gene.set_sink_num(99);
    gene.set_source_num(35);
    gene.set_sink_type(false);
    gene.set_source_type(true);
    assert_eq!(gene.get_source_type(), true);
    assert_eq!(gene.get_source_num(), 35);
    assert_eq!(gene.get_sink_type(), false);
    assert_eq!(gene.get_sink_num(), 99);
}

#[test]
fn test_bit_field_packing() {
    let mut gene = Gene::new(false, 16, true, 25, 1);
    assert_eq!(gene.encoding, 0x1099);
    assert_eq!(gene.weight, 1);

    gene.set_source_num(35);
    gene.set_sink_num(99);
    assert_eq!(gene.get_source_num(), 35);
    assert_eq!(gene.get_sink_num(), 99);
    assert_eq!(gene.get_source_type(), false);
    assert_eq!(gene.get_sink_type(), true);
    assert_eq!(gene.weight, 1);
}

#[test]
fn test_get_set_bit() {
    let mut gene = Gene { encoding: 0, weight: 0 };
    gene.set_bit(3, true);
    assert!(gene.get_bit(3));
    assert_eq!(gene.encoding, 0b1000);
    gene.set_bit(3, false);
    assert_eq!(gene.encoding, 0);
    assert_eq!(gene.weight, 0);
}

#[test]
fn test_make_encoding() {
    assert_eq!(Gene::make_encoding(true, 0, false, 0), 0x8000);
    assert_eq!(Gene::make_encoding(false, 127, false, 0), 0x7f00);
    assert_eq!(Gene::make_encoding(false, 0, true, 0), 0x0080);
    assert_eq!(Gene::make_encoding(false, 0, false, 127), 0x007f);
    assert_eq!(Gene::make_encoding(true, 127, true, 127), 0xffff);
}

#[test]
fn test_hex_string() {
    let gene = Gene::new(false, 16, true, 25, 1);
    assert_eq!(gene.hex_string(), "10990001");
    let negative = Gene { encoding: 0x00ab, weight: -1 };
    assert_eq!(negative.hex_string(), "00abffff");
}

#[test]
fn test_bit_string() {
    let gene = Gene { encoding: 5, weight: 2 };
    assert_eq!(gene.bit_string(), "10110");
    let negative = Gene { encoding: 1, weight: -1 };
    assert_eq!(negative.bit_string(), "11111111111111111");
}

#[test]
fn test_gene_text() {
    let gene = Gene::new(true, 16, false, 25, -300);
    assert_eq!(
        gene.to_text(),
        "Gene(source_type=true, source_num=16, sink_type=false, sink_num=25, weight=-300)"
    );
}

#[test]
fn test_random_gene_fields_in_range() {
    for _ in 0..20 {
        let gene = Gene::make_random_gene();
        assert!(gene.get_source_num() < 128);
        assert!(gene.get_sink_num() < 128);
    }
}
