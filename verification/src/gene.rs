use vstd::prelude::*;
use crate::rng;
use crate::text;

verus! {

/// Tag of a gene source that reads a sensor.
pub const SENSOR: bool = true;

/// Tag of a gene sink that drives an action.
pub const ACTION: bool = true;

/// Tag of a gene endpoint that is an inner neuron.
pub const NEURON: bool = false;

/// One synaptic connection: a 16-bit packed encoding naming the source
/// and the sink, and a signed 16-bit weight.  The encoding holds, from
/// the most significant bit down: the source type, the 7-bit source
/// index, the sink type, and the 7-bit sink index.
#[derive(Debug, Clone, Copy, PartialEq, Eq, Structural)]
pub struct Gene {
    pub encoding: u16,
    pub weight: i16,
}

/// The source-type bit of an encoding.
pub open spec fn spec_source_type(e: u16) -> bool {
    (e >> 15) & 1 == 1
}

/// The 7-bit source index of an encoding.
pub open spec fn spec_source_num(e: u16) -> u8 {
    ((e >> 8) & 0x7f) as u8
}

/// The sink-type bit of an encoding.
pub open spec fn spec_sink_type(e: u16) -> bool {
    (e >> 7) & 1 == 1
}

/// The 7-bit sink index of an encoding.
pub open spec fn spec_sink_num(e: u16) -> u8 {
    (e & 0x7f) as u8
}

/// An encoding packed from its four fields.
pub open spec fn spec_make_encoding(source_type: bool, source_num: u8, sink_type: bool, sink_num: u8) -> u16 {
    (if source_type { 0x8000u16 } else { 0u16 })
        | ((source_num as u16) << 8)
        | (if sink_type { 0x80u16 } else { 0u16 })
        | (sink_num as u16)
}

/// Whether a bit of an encoding is set.
pub open spec fn spec_get_bit(e: u16, bit: u16) -> bool {
    e & (1u16 << bit) != 0
}

/// The two 7-bit index fields always read below 128.
pub proof fn lemma_index_fields_bounded(e: u16)
    ensures
        spec_source_num(e) < 128,
        spec_sink_num(e) < 128,
{
    assert((e >> 8) & 0x7f < 128 && e & 0x7f < 128) by (bit_vector);
}

/// Packing four fields and reading them back yields the fields.
pub proof fn lemma_encoding_round_trip(source_type: bool, source_num: u8, sink_type: bool, sink_num: u8)
    requires
        source_num < 128,
        sink_num < 128,
    ensures
        spec_source_type(spec_make_encoding(source_type, source_num, sink_type, sink_num)) == source_type,
        spec_source_num(spec_make_encoding(source_type, source_num, sink_type, sink_num)) == source_num,
        spec_sink_type(spec_make_encoding(source_type, source_num, sink_type, sink_num)) == sink_type,
        spec_sink_num(spec_make_encoding(source_type, source_num, sink_type, sink_num)) == sink_num,
{
    let st: u16 = if source_type { 0x8000u16 } else { 0u16 };
    let tt: u16 = if sink_type { 0x80u16 } else { 0u16 };
    assert({
        let e = st | ((source_num as u16) << 8) | tt | (sink_num as u16);
        &&& ((e >> 15) & 1 == 1) == (st == 0x8000u16)
        &&& ((e >> 8) & 0x7f) as u8 == source_num
        &&& ((e >> 7) & 1 == 1) == (tt == 0x80u16)
        &&& (e & 0x7f) as u8 == sink_num
    }) by (bit_vector)
        requires
            source_num < 128,
            sink_num < 128,
            st == 0x8000u16 || st == 0u16,
            tt == 0x80u16 || tt == 0u16,
    ;
}

impl Gene {
    /// Sets or clears one bit of the encoding; the weight and the other
    /// bits stay as they were.
    pub fn set_bit(&mut self, bit: u8, value: bool)
        requires
            bit < 16,
        ensures
            final(self).weight == old(self).weight,
            final(self).encoding == (if value {
                old(self).encoding | (1u16 << (bit as u16))
            } else {
                old(self).encoding & !(1u16 << (bit as u16))
            }),
            spec_get_bit(final(self).encoding, bit as u16) == value,
            forall|b: u16| b < 16 && b != bit ==> spec_get_bit(final(self).encoding, b) == spec_get_bit(old(self).encoding, b),
    {
        let ghost e0 = self.encoding;
        if value {
            self.encoding = self.encoding | (1u16 << bit);
        } else {
            self.encoding = self.encoding & !(1u16 << bit);
        }
        proof {
            let e1 = self.encoding;
            let b16 = bit as u16;
            if value {
                assert(e1 == e0 | (1u16 << b16) ==> (e1 & (1u16 << b16) != 0) == true
                    && (forall|b: u16| b < 16 && b != b16 ==> (e1 & (1u16 << b) != 0) == (e0 & (1u16 << b) != 0)))
                    by (bit_vector)
                    requires
                        b16 < 16,
                ;
            } else {
                assert(e1 == e0 & !(1u16 << b16) ==> (e1 & (1u16 << b16) != 0) == false
                    && (forall|b: u16| b < 16 && b != b16 ==> (e1 & (1u16 << b) != 0) == (e0 & (1u16 << b) != 0)))
                    by (bit_vector)
                    requires
                        b16 < 16,
                ;
            }
        }
    }

    /// Whether one bit of the encoding is set.
    pub fn get_bit(&self, bit: u8) -> (r: bool)
        requires
            bit < 16,
        ensures
            r == spec_get_bit(self.encoding, bit as u16),
    {
        self.encoding & (1u16 << bit) != 0
    }

    /// The source type: sensor or neuron.
    pub fn get_source_type(&self) -> (r: bool)
        ensures
            r == spec_source_type(self.encoding),
    {
        proof {
            let e = self.encoding;
            assert(((e & 0x8000) >> 15 == 1) == ((e >> 15) & 1 == 1)) by (bit_vector);
        }
        ((self.encoding & 0x8000) >> 15) == 1
    }

    /// Replaces the source type; all other fields stay as they were.
    pub fn set_source_type(&mut self, flag: bool)
        ensures
            final(self).weight == old(self).weight,
            spec_source_type(final(self).encoding) == flag,
            spec_source_num(final(self).encoding) == spec_source_num(old(self).encoding),
            spec_sink_type(final(self).encoding) == spec_sink_type(old(self).encoding),
            spec_sink_num(final(self).encoding) == spec_sink_num(old(self).encoding),
    {
        let ghost e0 = self.encoding;
        let bit: u16 = if flag { 1 } else { 0 };
        self.encoding = (self.encoding & !0x8000) | (bit << 15);
        proof {
            let e1 = self.encoding;
            assert(e1 == (e0 & !0x8000) | (bit << 15) && (bit == 0 || bit == 1) ==> {
                &&& ((e1 >> 15) & 1 == 1) == (bit == 1)
                &&& (e1 >> 8) & 0x7f == (e0 >> 8) & 0x7f
                &&& (e1 >> 7) & 1 == (e0 >> 7) & 1
                &&& e1 & 0x7f == e0 & 0x7f
            }) by (bit_vector);
        }
    }

    /// The 7-bit source index.
    pub fn get_source_num(&self) -> (r: u8)
        ensures
            r == spec_source_num(self.encoding),
            r < 128,
    {
        proof {
            let e = self.encoding;
            assert((e & 0x7f00) >> 8 == (e >> 8) & 0x7f && (e >> 8) & 0x7f < 128) by (bit_vector);
        }
        ((self.encoding & 0x7f00) >> 8) as u8
    }

    /// Replaces the source index; all other fields stay as they were.
    pub fn set_source_num(&mut self, num: u8)
        requires
            num < 128,
        ensures
            final(self).weight == old(self).weight,
            spec_source_num(final(self).encoding) == num,
            spec_source_type(final(self).encoding) == spec_source_type(old(self).encoding),
            spec_sink_type(final(self).encoding) == spec_sink_type(old(self).encoding),
            spec_sink_num(final(self).encoding) == spec_sink_num(old(self).encoding),
    {
        let ghost e0 = self.encoding;
        self.encoding = (self.encoding & !0x7f00) | ((num as u16) << 8);
        proof {
            let e1 = self.encoding;
            assert(e1 == (e0 & !0x7f00) | ((num as u16) << 8) && num < 128 ==> {
                &&& (e1 >> 8) & 0x7f == num as u16
                &&& (e1 >> 15) & 1 == (e0 >> 15) & 1
                &&& (e1 >> 7) & 1 == (e0 >> 7) & 1
                &&& e1 & 0x7f == e0 & 0x7f
            }) by (bit_vector);
        }
    }

    /// The sink type: action or neuron.
    pub fn get_sink_type(&self) -> (r: bool)
        ensures
            r == spec_sink_type(self.encoding),
    {
        proof {
            let e = self.encoding;
            assert(((e & 0x80) >> 7 == 1) == ((e >> 7) & 1 == 1)) by (bit_vector);
        }
        ((self.encoding & 0x80) >> 7) == 1
    }

    /// Replaces the sink type; all other fields stay as they were.
    pub fn set_sink_type(&mut self, flag: bool)
        ensures
            final(self).weight == old(self).weight,
            spec_sink_type(final(self).encoding) == flag,
            spec_source_type(final(self).encoding) == spec_source_type(old(self).encoding),
            spec_source_num(final(self).encoding) == spec_source_num(old(self).encoding),
            spec_sink_num(final(self).encoding) == spec_sink_num(old(self).encoding),
    {
        let ghost e0 = self.encoding;
        let bit: u16 = if flag { 1 } else { 0 };
        self.encoding = (self.encoding & !0x80) | (bit << 7);
        proof {
            let e1 = self.encoding;
            assert(e1 == (e0 & !0x80) | (bit << 7) && (bit == 0 || bit == 1) ==> {
                &&& ((e1 >> 7) & 1 == 1) == (bit == 1)
                &&& (e1 >> 15) & 1 == (e0 >> 15) & 1
                &&& (e1 >> 8) & 0x7f == (e0 >> 8) & 0x7f
                &&& e1 & 0x7f == e0 & 0x7f
            }) by (bit_vector);
        }
    }

    /// The 7-bit sink index.
    pub fn get_sink_num(&self) -> (r: u8)
        ensures
            r == spec_sink_num(self.encoding),
            r < 128,
    {
        proof {
            let e = self.encoding;
            assert(e & 0x7f < 128) by (bit_vector);
        }
        (self.encoding & 0x7f) as u8
    }

    /// Replaces the sink index; all other fields stay as they were.
    pub fn set_sink_num(&mut self, num: u8)
        requires
            num < 128,
        ensures
            final(self).weight == old(self).weight,
            spec_sink_num(final(self).encoding) == num,
            spec_source_type(final(self).encoding) == spec_source_type(old(self).encoding),
            spec_source_num(final(self).encoding) == spec_source_num(old(self).encoding),
            spec_sink_type(final(self).encoding) == spec_sink_type(old(self).encoding),
    {
        let ghost e0 = self.encoding;
        self.encoding = (self.encoding & !0x7f) | (num as u16);
        proof {
            let e1 = self.encoding;
            assert(e1 == (e0 & !0x7f) | (num as u16) && num < 128 ==> {
                &&& e1 & 0x7f == num as u16
                &&& (e1 >> 15) & 1 == (e0 >> 15) & 1
                &&& (e1 >> 8) & 0x7f == (e0 >> 8) & 0x7f
                &&& (e1 >> 7) & 1 == (e0 >> 7) & 1
            }) by (bit_vector);
        }
    }

    /// Packs the four fields of an encoding.
    pub fn make_encoding(source_type: bool, source_num: u8, sink_type: bool, sink_num: u8) -> (r: u16)
        requires
            source_num < 128,
            sink_num < 128,
        ensures
            r == spec_make_encoding(source_type, source_num, sink_type, sink_num),
    {
        let st: u16 = if source_type { 0x8000 } else { 0 };
        let tt: u16 = if sink_type { 0x80 } else { 0 };
        proof {
            assert(((source_num as u16) << 8) <= 0x7f00 && (sink_num as u16) < 0x80) by (bit_vector)
                requires
                    source_num < 128,
                    sink_num < 128,
            ;
            assert(forall|a: u16, b: u16| (#[trigger] (a | b)) as int <= a + b) by (bit_vector);
        }
        st | ((source_num as u16) << 8) | tt | (sink_num as u16)
    }

    /// A fresh weight of 16 uniformly random bits.
    pub fn make_random_weight() -> i16 {
        let r: u32 = rng::random_u32();
        #[verifier::truncate] ((r & 0xffff) as i16)
    }

    /// A fresh encoding of 16 uniformly random bits.
    pub fn make_random_encoding() -> u16 {
        let r: u32 = rng::random_u32();
        (r >> 16) as u16
    }

    /// A gene whose encoding and weight are uniformly random bits.
    pub fn make_random_gene() -> Gene {
        Gene { encoding: Gene::make_random_encoding(), weight: Gene::make_random_weight() }
    }

    /// A gene from its four encoding fields and its weight.
    pub fn new(source_type: bool, source_num: u8, sink_type: bool, sink_num: u8, weight: i16) -> (r: Gene)
        requires
            source_num < 128,
            sink_num < 128,
        ensures
            r.encoding == spec_make_encoding(source_type, source_num, sink_type, sink_num),
            r.weight == weight,
            spec_source_type(r.encoding) == source_type,
            spec_source_num(r.encoding) == source_num,
            spec_sink_type(r.encoding) == sink_type,
            spec_sink_num(r.encoding) == sink_num,
    {
        proof {
            lemma_encoding_round_trip(source_type, source_num, sink_type, sink_num);
        }
        Gene { encoding: Gene::make_encoding(source_type, source_num, sink_type, sink_num), weight }
    }

    /// The gene as eight hexadecimal digits: four for the encoding, four
    /// for the weight's 16-bit two's-complement image.
    pub fn hex_string(&self) -> (r: String)
        ensures
            r@ == spec_hex_of_gene(*self),
    {
        let mut s = String::new();
        text::push_hex4(&mut s, self.encoding);
        let w: u16 = #[verifier::truncate] (self.weight as u16);
        text::push_hex4(&mut s, w);
        assert(s@ =~= spec_hex_of_gene(*self));
        s
    }

    /// The gene as the unpadded binary digits of the encoding followed by
    /// those of the weight's 16-bit two's-complement image.
    pub fn bit_string(&self) -> (r: String)
        ensures
            r@ == text::spec_binary(self.encoding as int) + text::spec_binary(spec_weight_bits(*self) as int),
    {
        let mut s = text::binary_u16_string(self.encoding);
        let w: u16 = #[verifier::truncate] (self.weight as u16);
        let tail = text::binary_u16_string(w);
        s.append(tail.as_str());
        s
    }

    /// The gene's fields spelled out as text.
    pub fn to_text(&self) -> (r: String)
        ensures
            r@ == spec_gene_text(*self),
    {
        let mut s = String::from_str("Gene(source_type=");
        let st = text::bool_string(self.get_source_type());
        s.append(st.as_str());
        s.append(", source_num=");
        let sn = text::decimal_u32_string(self.get_source_num() as u32);
        s.append(sn.as_str());
        s.append(", sink_type=");
        let tt = text::bool_string(self.get_sink_type());
        s.append(tt.as_str());
        s.append(", sink_num=");
        let tn = text::decimal_u32_string(self.get_sink_num() as u32);
        s.append(tn.as_str());
        s.append(", weight=");
        let w = text::decimal_i16_string(self.weight);
        s.append(w.as_str());
        s.append(")");
        assert(s@ =~= spec_gene_text(*self));
        s
    }
}

/// The gene with one bit of its encoding inverted; the weight stays.
pub open spec fn spec_flip_bit(g: Gene, bit: u16) -> Gene {
    Gene {
        encoding: if spec_get_bit(g.encoding, bit) {
            g.encoding & !(1u16 << bit)
        } else {
            g.encoding | (1u16 << bit)
        },
        weight: g.weight,
    }
}

/// The weight's 16-bit two's-complement image.
pub open spec fn spec_weight_bits(g: Gene) -> u16 {
    g.weight as u16
}

/// The eight hexadecimal digits of a gene.
pub open spec fn spec_hex_of_gene(g: Gene) -> Seq<char> {
    text::spec_hex4(g.encoding) + text::spec_hex4(spec_weight_bits(g))
}

/// A gene's fields spelled out as text.
pub open spec fn spec_gene_text(g: Gene) -> Seq<char> {
    "Gene(source_type="@ + text::spec_bool_text(spec_source_type(g.encoding))
        + ", source_num="@ + text::spec_decimal(spec_source_num(g.encoding) as int)
        + ", sink_type="@ + text::spec_bool_text(spec_sink_type(g.encoding))
        + ", sink_num="@ + text::spec_decimal(spec_sink_num(g.encoding) as int)
        + ", weight="@ + text::spec_signed_decimal(g.weight as int)
        + ")"@
}

} // verus!
