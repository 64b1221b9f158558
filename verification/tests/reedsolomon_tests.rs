use qr_gen::config::{ECCLevel, Size};
use qr_gen::error::QrError;
use qr_gen::reedsolomon::{compute_block_ecc, construct_codewords, generator_polynomial, multiply};
use qr_gen::tables::lookup_capacity;

// an independent GF(256) with tables of powers and logarithms
fn power_table() -> Vec<u8> {
    let mut table = Vec::new();
    let mut x: u32 = 1;
    for _ in 0..255 {
        table.push(x as u8);
        x <<= 1;
        if x & 0x100 != 0 {
            x ^= 0x11D;
        }
    }
    table
}

fn table_product(powers: &[u8], a: u8, b: u8) -> u8 {
    if a == 0 || b == 0 {
        return 0;
    }
    let la = powers.iter().position(|&p| p == a).unwrap();
    let lb = powers.iter().position(|&p| p == b).unwrap();
    powers[(la + lb) % 255]
}

// value of the polynomial with the given coefficients, highest first, at x
fn evaluate(powers: &[u8], coefficients: &[u8], x: u8) -> u8 {
    let mut acc = 0u8;
    for &c in coefficients {
        acc = table_product(powers, acc, x) ^ c;
    }
    acc
}

#[test]
fn test_multiply_agrees_with_logarithm_tables() {
    let powers = power_table();
    for a in 0..=255u8 {
        for b in 0..=255u8 {
            assert_eq!(multiply(a, b), table_product(&powers, a, b));
        }
    }
}

#[test]
fn test_multiply_values() {
    assert_eq!(multiply(2, 128), 0x1D);
    assert_eq!(multiply(1, 77), 77);
    assert_eq!(multiply(0, 200), 0);
    assert_eq!(multiply(3, 3), 5);
    assert_eq!(multiply(0x80, 0x80), 0x13);
}

#[test]
fn test_generator_polynomials() {
    assert_eq!(generator_polynomial(0), [1]);
    assert_eq!(generator_polynomial(1), [1, 1]);
    assert_eq!(generator_polynomial(2), [1, 3, 2]);
    assert_eq!(generator_polynomial(7), [1, 127, 122, 154, 164, 11, 68, 117]);
    assert_eq!(
        generator_polynomial(10),
        [1, 216, 194, 159, 111, 199, 94, 95, 113, 157, 193]
    );
}

#[test]
fn test_generator_roots() {
    let powers = power_table();
    for e in [2usize, 7, 10, 13, 30] {
        let g = generator_polynomial(e);
        assert_eq!(g.len(), e + 1);
        for i in 0..e {
            assert_eq!(evaluate(&powers, &g, powers[i]), 0);
        }
        assert_ne!(evaluate(&powers, &g, powers[e]), 0);
    }
}

#[test]
fn test_block_ecc_known_vectors() {
    let g = generator_polynomial(10);
    let data = [32u8, 91, 11, 120, 209, 114, 220, 77, 67, 64, 236, 17, 236, 17, 236, 17];
    assert_eq!(compute_block_ecc(&data, &g), [196, 35, 39, 119, 235, 215, 231, 226, 93, 23]);
    // the example of the standard: "01234567" in a 1-M symbol
    let data = [0x10u8, 0x20, 0x0C, 0x56, 0x61, 0x80, 0xEC, 0x11, 0xEC, 0x11, 0xEC, 0x11, 0xEC, 0x11, 0xEC, 0x11];
    assert_eq!(
        compute_block_ecc(&data, &g),
        [0xA5, 0x24, 0xD4, 0xC1, 0xED, 0x36, 0xC7, 0x87, 0x2C, 0x55]
    );
}

#[test]
fn test_construct_codewords_single_block() {
    let data = [0x10u8, 0x20, 0x0C, 0x56, 0x61, 0x80, 0xEC, 0x11, 0xEC, 0x11, 0xEC, 0x11, 0xEC, 0x11, 0xEC, 0x11];
    let (d, e) = construct_codewords(&data, Size::Standard(1), ECCLevel::M).unwrap();
    assert_eq!(d, data);
    assert_eq!(e, [0xA5, 0x24, 0xD4, 0xC1, 0xED, 0x36, 0xC7, 0x87, 0x2C, 0x55]);
}

#[test]
fn test_construct_codewords_interleaves() {
    // 5-Q: two blocks of 15 and two blocks of 16 data codewords, 18 ecc each
    let data: Vec<u8> = (1..=62u8).collect();
    let (d, e) = construct_codewords(&data, Size::Standard(5), ECCLevel::Q).unwrap();
    assert_eq!(d.len(), 62);
    assert_eq!(e.len(), 72);
    // the first column holds the first codeword of each block
    assert_eq!(&d[0..4], &[1, 16, 31, 47]);
    assert_eq!(&d[4..8], &[2, 17, 32, 48]);
    // the last column has codewords of the long blocks only
    assert_eq!(&d[56..60], &[15, 30, 45, 61]);
    assert_eq!(&d[60..62], &[46, 62]);
    let g = generator_polynomial(18);
    let blocks = [&data[0..15], &data[15..30], &data[30..46], &data[46..62]];
    for (b, block) in blocks.iter().enumerate() {
        let ecc = compute_block_ecc(block, &g);
        for c in 0..18 {
            assert_eq!(e[4 * c + b], ecc[c]);
        }
    }
}

#[test]
fn test_codewords_of_every_block_are_divisible_by_the_generator() {
    // a word of the code has the roots of the generator
    let powers = power_table();
    let levels = [ECCLevel::L, ECCLevel::M, ECCLevel::Q, ECCLevel::H];
    for v in [1u8, 3, 5, 7, 10, 14, 21, 27, 33, 40] {
        for level in levels {
            let cap = lookup_capacity(Size::Standard(v), level);
            let n = cap.data_codewords() as usize;
            let data: Vec<u8> = (0..n).map(|i| (i * 37 + 11 * v as usize) as u8).collect();
            let (d, e) = construct_codewords(&data, Size::Standard(v), level).unwrap();
            assert_eq!(d.len(), n);
            assert_eq!(e.len(), cap.ecc_words() as usize);
            let n1 = cap.block_def1.num_blocks as usize;
            let count = n1 + cap.block_def2.num_blocks as usize;
            let d1 = cap.block_def1.data_codewords as usize;
            let per_block = cap.ecc_words_per_block() as usize;
            let mut offset = 0;
            for b in 0..count {
                let len = if b < n1 { d1 } else { d1 + 1 };
                let mut word: Vec<u8> = data[offset..offset + len].to_vec();
                // the data of the block stand at its places in the interleaved stream
                for c in 0..len {
                    let place = if c < d1 { c * count + b } else { d1 * count + (b - n1) };
                    assert_eq!(d[place], word[c]);
                }
                for c in 0..per_block {
                    word.push(e[c * count + b]);
                }
                for i in 0..per_block {
                    assert_eq!(evaluate(&powers, &word, powers[i]), 0);
                }
                offset += len;
            }
            assert_eq!(offset, n);
        }
    }
}

#[test]
fn test_construct_codewords_errors() {
    assert_eq!(
        construct_codewords(&[0u8; 15], Size::Standard(1), ECCLevel::M),
        Err(QrError::LengthMismatch)
    );
    assert_eq!(
        construct_codewords(&[0u8; 17], Size::Standard(1), ECCLevel::M),
        Err(QrError::LengthMismatch)
    );
    assert_eq!(
        construct_codewords(&[0u8; 3], Size::Micro(1), ECCLevel::M),
        Err(QrError::UnsupportedConfiguration)
    );
    let (d, e) = construct_codewords(&[0x12u8, 0x34, 0x50], Size::Micro(1), ECCLevel::L).unwrap();
    assert_eq!(d, [0x12, 0x34, 0x50]);
    assert_eq!(e.len(), 2);
}
