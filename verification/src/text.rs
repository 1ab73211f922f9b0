use vstd::prelude::*;
use vstd::string::StringExecFns;

verus! {

/// The character for one digit value below sixteen.
pub open spec fn spec_digit(n: int) -> char {
    if n == 0 { '0' }
    else if n == 1 { '1' }
    else if n == 2 { '2' }
    else if n == 3 { '3' }
    else if n == 4 { '4' }
    else if n == 5 { '5' }
    else if n == 6 { '6' }
    else if n == 7 { '7' }
    else if n == 8 { '8' }
    else if n == 9 { '9' }
    else if n == 10 { 'a' }
    else if n == 11 { 'b' }
    else if n == 12 { 'c' }
    else if n == 13 { 'd' }
    else if n == 14 { 'e' }
    else { 'f' }
}

/// A 16-bit value as exactly four hexadecimal digits.
pub open spec fn spec_hex4(v: u16) -> Seq<char> {
    seq![
        spec_digit(v as int / 4096 % 16),
        spec_digit(v as int / 256 % 16),
        spec_digit(v as int / 16 % 16),
        spec_digit(v as int % 16),
    ]
}

/// A non-negative value in decimal, without leading zeros (a lone zero
/// for zero).
pub open spec fn spec_decimal(n: int) -> Seq<char>
    recommends
        n >= 0,
    decreases n,
{
    if n < 10 {
        seq![spec_digit(n)]
    } else {
        spec_decimal(n / 10) + seq![spec_digit(n % 10)]
    }
}

/// A value in decimal with a leading minus sign when negative.
pub open spec fn spec_signed_decimal(n: int) -> Seq<char> {
    if n >= 0 {
        spec_decimal(n)
    } else {
        "-"@ + spec_decimal(-n)
    }
}

/// A non-negative value in binary, without leading zeros (a lone zero
/// for zero).
pub open spec fn spec_binary(n: int) -> Seq<char>
    recommends
        n >= 0,
    decreases n,
{
    if n < 2 {
        seq![spec_digit(n)]
    } else {
        spec_binary(n / 2) + seq![spec_digit(n % 2)]
    }
}

/// The words the two truth values print as.
pub open spec fn spec_bool_text(b: bool) -> Seq<char> {
    if b { "true"@ } else { "false"@ }
}

/// Appends the character of one digit value below sixteen.
pub fn push_digit(s: &mut String, n: u16)
    requires
        n < 16,
    ensures
        final(s)@ == old(s)@ + seq![spec_digit(n as int)],
{
    match n {
        0 => {
            proof { reveal_strlit("0"); assert("0"@ =~= seq![spec_digit(0)]); }
            s.append("0");
        }
        1 => {
            proof { reveal_strlit("1"); assert("1"@ =~= seq![spec_digit(1)]); }
            s.append("1");
        }
        2 => {
            proof { reveal_strlit("2"); assert("2"@ =~= seq![spec_digit(2)]); }
            s.append("2");
        }
        3 => {
            proof { reveal_strlit("3"); assert("3"@ =~= seq![spec_digit(3)]); }
            s.append("3");
        }
        4 => {
            proof { reveal_strlit("4"); assert("4"@ =~= seq![spec_digit(4)]); }
            s.append("4");
        }
        5 => {
            proof { reveal_strlit("5"); assert("5"@ =~= seq![spec_digit(5)]); }
            s.append("5");
        }
        6 => {
            proof { reveal_strlit("6"); assert("6"@ =~= seq![spec_digit(6)]); }
            s.append("6");
        }
        7 => {
            proof { reveal_strlit("7"); assert("7"@ =~= seq![spec_digit(7)]); }
            s.append("7");
        }
        8 => {
            proof { reveal_strlit("8"); assert("8"@ =~= seq![spec_digit(8)]); }
            s.append("8");
        }
        9 => {
            proof { reveal_strlit("9"); assert("9"@ =~= seq![spec_digit(9)]); }
            s.append("9");
        }
        10 => {
            proof { reveal_strlit("a"); assert("a"@ =~= seq![spec_digit(10)]); }
            s.append("a");
        }
        11 => {
            proof { reveal_strlit("b"); assert("b"@ =~= seq![spec_digit(11)]); }
            s.append("b");
        }
        12 => {
            proof { reveal_strlit("c"); assert("c"@ =~= seq![spec_digit(12)]); }
            s.append("c");
        }
        13 => {
            proof { reveal_strlit("d"); assert("d"@ =~= seq![spec_digit(13)]); }
            s.append("d");
        }
        14 => {
            proof { reveal_strlit("e"); assert("e"@ =~= seq![spec_digit(14)]); }
            s.append("e");
        }
        _ => {
            proof { reveal_strlit("f"); assert("f"@ =~= seq![spec_digit(15)]); }
            s.append("f");
        }
    }
}

/// Appends a 16-bit value as exactly four hexadecimal digits.
pub fn push_hex4(s: &mut String, v: u16)
    ensures
        final(s)@ == old(s)@ + spec_hex4(v),
{
    push_digit(s, v / 4096 % 16);
    push_digit(s, v / 256 % 16);
    push_digit(s, v / 16 % 16);
    push_digit(s, v % 16);
    assert(s@ =~= old(s)@ + spec_hex4(v));
}

/// A 32-bit value in decimal.
pub fn decimal_u32_string(n: u32) -> (r: String)
    ensures
        r@ == spec_decimal(n as int),
    decreases n,
{
    if n < 10 {
        let mut s = String::new();
        push_digit(&mut s, n as u16);
        assert(s@ =~= spec_decimal(n as int));
        s
    } else {
        let mut s = decimal_u32_string(n / 10);
        push_digit(&mut s, (n % 10) as u16);
        s
    }
}

/// A signed 16-bit value in decimal, with a minus sign when negative.
pub fn decimal_i16_string(w: i16) -> (r: String)
    ensures
        r@ == spec_signed_decimal(w as int),
{
    if w >= 0 {
        decimal_u32_string(w as u32)
    } else {
        let mut s = String::from_str("-");
        let magnitude: u32 = (-(w as i32)) as u32;
        let digits = decimal_u32_string(magnitude);
        s.append(digits.as_str());
        s
    }
}

/// A 16-bit value in binary.
pub fn binary_u16_string(v: u16) -> (r: String)
    ensures
        r@ == spec_binary(v as int),
    decreases v,
{
    if v < 2 {
        let mut s = String::new();
        push_digit(&mut s, v);
        assert(s@ =~= spec_binary(v as int));
        s
    } else {
        let mut s = binary_u16_string(v / 2);
        push_digit(&mut s, v % 2);
        s
    }
}

/// The word a truth value prints as.
pub fn bool_string(b: bool) -> (r: String)
    ensures
        r@ == spec_bool_text(b),
{
    if b {
        String::from_str("true")
    } else {
        String::from_str("false")
    }
}

} // verus!
