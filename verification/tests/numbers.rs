//! Script numbers against the machine's own arithmetic.

use script_ffi::Number;

/// A small generator of 64-bit patterns, the same on every run.
struct Patterns {
    state: u64,
}

impl Patterns {
    fn new(seed: u64) -> Patterns {
        Patterns { state: seed }
    }

    fn next(&mut self) -> u64 {
        self.state ^= self.state << 13;
        self.state ^= self.state >> 7;
        self.state ^= self.state << 17;
        self.state
    }
}

fn reference_uint32(x: f64) -> u32 {
    if !x.is_finite() {
        return 0;
    }
    let whole: f64 = x.trunc();
    let low: f64 = whole.rem_euclid(4294967296.0);
    low as u32
}

/// Patterns whose exponent is near the places where the conversions change
/// their behaviour.
fn edge_patterns() -> Vec<u64> {
    let mut out: Vec<u64> = Vec::new();
    let exponents: [u64; 24] = [
        0, 1, 2, 872, 873, 874, 895, 896, 897, 898, 1022, 1023, 1024, 1054, 1055, 1074, 1075,
        1076, 1106, 1107, 1149, 1150, 1151, 2047,
    ];
    let fractions: [u64; 12] = [
        0,
        1,
        0x0_0000_1000_0000,
        0x0_0000_0fff_ffff,
        0x0_0000_1000_0001,
        0x0_0000_2000_0000,
        0x0_0000_3000_0000,
        0x8_0000_0000_0000,
        0xf_ffff_e000_0000,
        0xf_ffff_f000_0000,
        0xf_ffff_ffff_ffff,
        0x4_0000_0000_0000,
    ];
    for e in exponents.iter() {
        for f in fractions.iter() {
            out.push((e << 52) | f);
            out.push((1u64 << 63) | (e << 52) | f);
        }
    }
    out
}

#[test]
fn to_uint32_agrees_with_truncation_modulo_two_to_32() {
    let mut patterns = Patterns::new(0x9e37_79b9_7f4a_7c15);
    let mut all: Vec<u64> = edge_patterns();
    for _ in 0..200_000 {
        all.push(patterns.next());
    }
    for bits in all {
        let x: f64 = f64::from_bits(bits);
        assert_eq!(Number { bits }.to_uint32(), reference_uint32(x), "bits {:#x}", bits);
        assert_eq!(Number { bits }.to_int32(), reference_uint32(x) as i32, "bits {:#x}", bits);
    }
}

#[test]
fn to_uint32_of_chosen_numbers() {
    assert_eq!(Number { bits: 5.0f64.to_bits() }.to_uint32(), 5);
    assert_eq!(Number { bits: 3.99f64.to_bits() }.to_uint32(), 3);
    assert_eq!(Number { bits: (-1.0f64).to_bits() }.to_uint32(), 4294967295);
    assert_eq!(Number { bits: (-1.5f64).to_bits() }.to_int32(), -1);
    assert_eq!(Number { bits: 4294967296.0f64.to_bits() }.to_uint32(), 0);
    assert_eq!(Number { bits: 4294967301.0f64.to_bits() }.to_uint32(), 5);
    assert_eq!(Number { bits: 2147483648.0f64.to_bits() }.to_int32(), -2147483648);
    assert_eq!(Number { bits: f64::NAN.to_bits() }.to_uint32(), 0);
    assert_eq!(Number { bits: f64::INFINITY.to_bits() }.to_int32(), 0);
    assert_eq!(Number { bits: f64::NEG_INFINITY.to_bits() }.to_uint32(), 0);
    assert_eq!(Number { bits: (-0.0f64).to_bits() }.to_uint32(), 0);
    assert_eq!(Number { bits: 1e300f64.to_bits() }.to_uint32(), 0);
    assert_eq!(Number { bits: 0.9999f64.to_bits() }.to_uint32(), 0);
}

#[test]
fn from_integers_agrees_with_the_machine() {
    let mut patterns = Patterns::new(0x2545_f491_4f6c_dd1d);
    let mut samples: Vec<u32> = vec![0, 1, 2, 3, 255, 256, 65535, 65536, 0x7fff_ffff, 0x8000_0000, 0xffff_ffff];
    for _ in 0..100_000 {
        samples.push(patterns.next() as u32);
    }
    for n in samples {
        assert_eq!(Number::from_u32(n).bits, (n as f64).to_bits());
        let signed: i32 = n as i32;
        assert_eq!(Number::from_i32(signed).bits, (signed as f64).to_bits());
        assert_eq!(Number::from_u32(n).to_uint32(), n);
        assert_eq!(Number::from_i32(signed).to_int32(), signed);
    }
}

#[test]
fn to_single_agrees_with_the_machine() {
    let mut patterns = Patterns::new(0xdead_beef_cafe_f00d);
    let mut all: Vec<u64> = edge_patterns();
    for _ in 0..200_000 {
        all.push(patterns.next());
    }
    // Random fractions at the exponents that binary32 can hold.
    for _ in 0..200_000 {
        let r: u64 = patterns.next();
        let exponent: u64 = 860 + (r >> 52) % 300;
        all.push((r & 0x800f_ffff_ffff_ffff) | (exponent << 52));
        all.push((r & 0x800f_ffff_e000_0000) | (exponent << 52) | 0x1000_0000);
    }
    for bits in all {
        let x: f64 = f64::from_bits(bits);
        let single: u32 = Number { bits }.to_single();
        if x.is_nan() {
            assert!(f32::from_bits(single).is_nan(), "bits {:#x}", bits);
        } else {
            assert_eq!(single, (x as f32).to_bits(), "bits {:#x}", bits);
        }
    }
}

#[test]
fn from_single_agrees_with_the_machine() {
    let mut patterns = Patterns::new(0x1234_5678_9abc_def1);
    let mut all: Vec<u32> = vec![
        0, 1, 2, 0x7f_ffff, 0x80_0000, 0x80_0001, 0x3f80_0000, 0x7f7f_ffff, 0x7f80_0000,
        0x8000_0000, 0x8000_0001, 0xff80_0000, 0x0040_0000, 0x0000_1000,
    ];
    for _ in 0..200_000 {
        all.push(patterns.next() as u32);
    }
    for _ in 0..50_000 {
        all.push((patterns.next() as u32) & 0x807f_ffff);
    }
    for single in all {
        let x: f32 = f32::from_bits(single);
        let number: Number = Number::from_single(single);
        if x.is_nan() {
            assert!(f64::from_bits(number.bits).is_nan());
        } else {
            assert_eq!(number.bits, (x as f64).to_bits(), "single {:#x}", single);
            assert_eq!(number.to_single(), single);
        }
    }
}
