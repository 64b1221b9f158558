use qr_gen::config::{ECCLevel, Encoding, Size};
use qr_gen::create_qr_code;
use qr_gen::error::QrError;
use qr_gen::serialization::{Canvas, Module};
use qr_gen::tables::lookup_capacity;

// ------------------------------------------------------------------
// a reader for symbols, written apart from the library
// ------------------------------------------------------------------

const ALPHANUMERIC: &[u8] = b"0123456789ABCDEFGHIJKLMNOPQRSTUVWXYZ $%*+-./:";

fn dark(canvas: &Canvas, quiet: usize, r: usize, c: usize) -> bool {
    canvas.get(quiet + c, quiet + r) == Module::Dark
}

fn bch(data: u32, generator: u32, degree: u32, bits: u32) -> u32 {
    let mut v = data << degree;
    for k in (0..bits).rev() {
        if (v >> (degree + k)) & 1 == 1 {
            v ^= generator << k;
        }
    }
    (data << degree) | v
}

fn mask_bit(micro: bool, mask: u32, r: usize, c: usize) -> bool {
    let standard = if micro { [1, 4, 6, 7][mask as usize] } else { mask };
    match standard {
        0 => (r + c) % 2 == 0,
        1 => r % 2 == 0,
        2 => c % 3 == 0,
        3 => (r + c) % 3 == 0,
        4 => (r / 2 + c / 3) % 2 == 0,
        5 => (r * c) % 2 + (r * c) % 3 == 0,
        6 => ((r * c) % 2 + (r * c) % 3) % 2 == 0,
        _ => ((r + c) % 2 + (r * c) % 3) % 2 == 0,
    }
}

fn alignment_centres(version: usize) -> Vec<usize> {
    // Annex E of the standard, for the versions that the tests read
    match version {
        1 => vec![],
        2 => vec![6, 18],
        6 => vec![6, 34],
        7 => vec![6, 22, 38],
        14 => vec![6, 26, 46, 66],
        40 => vec![6, 30, 58, 86, 114, 142, 170],
        _ => panic!("no centres listed for version {}", version),
    }
}

fn is_function(micro: bool, version: usize, dim: usize, r: usize, c: usize) -> bool {
    if micro {
        return (r <= 8 && c <= 8) || r == 0 || c == 0;
    }
    if (r <= 8 && c <= 8) || (r <= 8 && c >= dim - 8) || (r >= dim - 8 && c <= 8) {
        return true;
    }
    if r == 6 || c == 6 {
        return true;
    }
    if version >= 7 && ((r <= 5 && c >= dim - 11) || (c <= 5 && r >= dim - 11)) {
        return true;
    }
    let centres = alignment_centres(version);
    let last = centres.len().saturating_sub(1);
    for (i, &y) in centres.iter().enumerate() {
        for (j, &x) in centres.iter().enumerate() {
            if (i == 0 && j == 0) || (i == 0 && j == last) || (i == last && j == 0) {
                continue;
            }
            if r + 2 >= y && r <= y + 2 && c + 2 >= x && c <= x + 2 {
                return true;
            }
        }
    }
    false
}

struct Reading {
    level: ECCLevel,
    mask: u32,
    data: Vec<u8>,
    ecc: Vec<u8>,
    data_bits: Vec<bool>,
}

fn read_symbol(canvas: &Canvas, size: Size) -> Reading {
    let micro = size.is_micro();
    let quiet = if micro { 2 } else { 4 };
    let dim = canvas.width() as usize - 2 * quiet;
    let version = size.version() as usize;
    assert_eq!(dim, if micro { 2 * version + 9 } else { 4 * version + 17 });
    // only light and dark modules, the quiet zone untouched
    for y in 0..dim + 2 * quiet {
        for x in 0..dim + 2 * quiet {
            let inside = x >= quiet && y >= quiet && x < quiet + dim && y < quiet + dim;
            let m = canvas.get(x, y);
            if inside {
                assert!(m == Module::Dark || m == Module::Light, "marker left at {} {}", x, y);
            } else {
                assert_eq!(m, Module::QuietZone);
            }
        }
    }
    // format information
    let cells: Vec<(usize, usize)> = if micro {
        vec![(1, 8), (2, 8), (3, 8), (4, 8), (5, 8), (6, 8), (7, 8), (8, 8),
             (8, 7), (8, 6), (8, 5), (8, 4), (8, 3), (8, 2), (8, 1)]
    } else {
        vec![(0, 8), (1, 8), (2, 8), (3, 8), (4, 8), (5, 8), (7, 8), (8, 8),
             (8, 7), (8, 5), (8, 4), (8, 3), (8, 2), (8, 1), (8, 0)]
    };
    let mut format = 0u32;
    for &(x, y) in &cells {
        format = (format << 1) | dark(canvas, quiet, y, x) as u32;
    }
    format ^= if micro { 0x4445 } else { 0x5412 };
    let five = format >> 10;
    assert_eq!(bch(five, 0x537, 10, 5), format, "format information is no code word");
    let (level, mask) = if micro {
        let level = match five >> 2 {
            0 | 1 | 3 | 5 => ECCLevel::L,
            2 | 4 | 6 => ECCLevel::M,
            _ => ECCLevel::Q,
        };
        assert_eq!([1, 2, 2, 3, 3, 4, 4, 4][(five >> 2) as usize], version);
        (level, five & 3)
    } else {
        let level = match five >> 3 {
            1 => ECCLevel::L,
            0 => ECCLevel::M,
            3 => ECCLevel::Q,
            _ => ECCLevel::H,
        };
        // the second copy
        let mut copy = 0u32;
        for i in 0..7 {
            copy = (copy << 1) | dark(canvas, quiet, dim - 1 - i, 8) as u32;
        }
        for i in 0..8 {
            copy = (copy << 1) | dark(canvas, quiet, 8, dim - 8 + i) as u32;
        }
        assert_eq!(copy ^ 0x5412, format);
        assert!(dark(canvas, quiet, dim - 8, 8));
        (level, five & 7)
    };
    // version information
    if !micro && version >= 7 {
        let mut a = 0u32;
        let mut b = 0u32;
        for i in (0..18).rev() {
            a = (a << 1) | dark(canvas, quiet, i / 3, dim - 11 + i % 3) as u32;
            b = (b << 1) | dark(canvas, quiet, dim - 11 + i % 3, i / 3) as u32;
        }
        assert_eq!(a, bch(version as u32, 0x1F25, 12, 6));
        assert_eq!(b, a);
    }
    // the functional patterns
    for i in 0..7 {
        for j in 0..7 {
            let ring = std::cmp::max((i as i32 - 3).abs(), (j as i32 - 3).abs());
            assert_eq!(dark(canvas, quiet, i, j), ring != 2);
            if !micro {
                assert_eq!(dark(canvas, quiet, i, dim - 7 + j), ring != 2);
                assert_eq!(dark(canvas, quiet, dim - 7 + i, j), ring != 2);
            }
        }
    }
    // the bits of the encoding region
    let mut bits = Vec::new();
    let mut right = dim as i32 - 1;
    let mut up = true;
    while right >= 1 {
        if !micro && right == 6 {
            right = 5;
        }
        for step in 0..dim {
            let r = if up { dim - 1 - step } else { step };
            for c in [right as usize, right as usize - 1] {
                if !is_function(micro, version, dim, r, c) {
                    bits.push(dark(canvas, quiet, r, c) ^ mask_bit(micro, mask, r, c));
                }
            }
        }
        up = !up;
        right -= 2;
    }
    let cap = lookup_capacity(size, level);
    let half = size == Size::Micro(1) || size == Size::Micro(3);
    let data_len = cap.data_codewords() as usize;
    let data_bit_len = 8 * data_len - if half { 4 } else { 0 };
    let ecc_len = cap.ecc_words() as usize;
    assert!(bits.len() >= data_bit_len + 8 * ecc_len);
    assert!(bits.len() < data_bit_len + 8 * ecc_len + 8);
    // remainder bits are zero before masking
    for bit in &bits[data_bit_len + 8 * ecc_len..] {
        assert!(!bit);
    }
    let pack = |bits: &[bool]| -> Vec<u8> {
        bits.chunks(8)
            .map(|chunk| {
                let mut byte = 0u8;
                for (i, bit) in chunk.iter().enumerate() {
                    byte |= (*bit as u8) << (7 - i);
                }
                byte
            })
            .collect()
    };
    let stream = pack(&bits[..data_bit_len]);
    let ecc_stream = pack(&bits[data_bit_len..data_bit_len + 8 * ecc_len]);
    // undo the interleaving
    let n1 = cap.block_def1.num_blocks as usize;
    let count = n1 + cap.block_def2.num_blocks as usize;
    let d1 = cap.block_def1.data_codewords as usize;
    let mut blocks: Vec<Vec<u8>> = vec![Vec::new(); count];
    let mut next = 0;
    for column in 0..d1 + 1 {
        for (b, block) in blocks.iter_mut().enumerate() {
            let len = if b < n1 { d1 } else { d1 + 1 };
            if column < len {
                block.push(stream[next]);
                next += 1;
            }
        }
    }
    assert_eq!(next, data_len);
    let per_block = cap.ecc_words_per_block() as usize;
    let mut corrections: Vec<Vec<u8>> = vec![Vec::new(); count];
    for column in 0..per_block {
        for (b, block) in corrections.iter_mut().enumerate() {
            block.push(ecc_stream[column * count + b]);
        }
    }
    // every block is a word of the Reed-Solomon code
    let mut powers = Vec::new();
    let mut x: u32 = 1;
    for _ in 0..255 {
        powers.push(x as u8);
        x <<= 1;
        if x & 0x100 != 0 {
            x ^= 0x11D;
        }
    }
    let product = |a: u8, b: u8| -> u8 {
        if a == 0 || b == 0 {
            0
        } else {
            let la = powers.iter().position(|&p| p == a).unwrap();
            let lb = powers.iter().position(|&p| p == b).unwrap();
            powers[(la + lb) % 255]
        }
    };
    for b in 0..count {
        for i in 0..per_block {
            let mut acc = 0u8;
            for &coefficient in blocks[b].iter().chain(corrections[b].iter()) {
                acc = product(acc, powers[i]) ^ coefficient;
            }
            assert_eq!(acc, 0, "block {} is no code word", b);
        }
    }
    let data: Vec<u8> = blocks.concat();
    let ecc: Vec<u8> = corrections.concat();
    let mut data_bits = Vec::new();
    for (i, byte) in data.iter().enumerate() {
        let width = if half && i == data.len() - 1 { 4 } else { 8 };
        for k in 0..width {
            data_bits.push((byte >> (7 - k)) & 1 == 1);
        }
    }
    Reading { level, mask, data, ecc, data_bits }
}

fn take(bits: &[bool], at: &mut usize, width: usize) -> u32 {
    let mut value = 0;
    for _ in 0..width {
        value = (value << 1) | bits[*at] as u32;
        *at += 1;
    }
    value
}

// the text of a symbol that holds one segment
fn read_text(size: Size, bits: &[bool]) -> (Encoding, Vec<u8>) {
    let mut at = 0;
    let mode = match size {
        Size::Micro(k) => [Encoding::Numeric, Encoding::Alphanumeric, Encoding::Bytes, Encoding::Kanji]
            [take(bits, &mut at, k as usize - 1) as usize],
        Size::Standard(_) => match take(bits, &mut at, 4) {
            1 => Encoding::Numeric,
            2 => Encoding::Alphanumeric,
            4 => Encoding::Bytes,
            8 => Encoding::Kanji,
            other => panic!("mode indicator {}", other),
        },
    };
    let count = take(bits, &mut at, mode.num_char_count_bits(size)) as usize;
    let mut text = Vec::new();
    match mode {
        Encoding::Numeric => {
            let mut left = count;
            while left >= 3 {
                let v = take(bits, &mut at, 10);
                assert!(v < 1000);
                text.extend(format!("{:03}", v).bytes());
                left -= 3;
            }
            if left == 2 {
                let v = take(bits, &mut at, 7);
                assert!(v < 100);
                text.extend(format!("{:02}", v).bytes());
            } else if left == 1 {
                let v = take(bits, &mut at, 4);
                assert!(v < 10);
                text.extend(format!("{}", v).bytes());
            }
        }
        Encoding::Alphanumeric => {
            let mut left = count;
            while left >= 2 {
                let v = take(bits, &mut at, 11) as usize;
                text.push(ALPHANUMERIC[v / 45]);
                text.push(ALPHANUMERIC[v % 45]);
                left -= 2;
            }
            if left == 1 {
                text.push(ALPHANUMERIC[take(bits, &mut at, 6) as usize]);
            }
        }
        Encoding::Bytes => {
            for _ in 0..count {
                text.push(take(bits, &mut at, 8) as u8);
            }
        }
        Encoding::Kanji => {
            for _ in 0..count {
                let v = take(bits, &mut at, 13);
                let m = ((v / 0xC0) << 8) | (v % 0xC0);
                let number = if m + 0x8140 <= 0x9FFC { m + 0x8140 } else { m + 0xC140 };
                text.push((number >> 8) as u8);
                text.push(number as u8);
            }
        }
    }
    // what follows is the terminator, zeros up to the byte, and pad codewords
    let terminator = std::cmp::min(size.terminator_length(), bits.len() - at);
    assert_eq!(take(bits, &mut at, terminator), 0);
    while at % 8 != 0 && at < bits.len() {
        assert_eq!(take(bits, &mut at, 1), 0);
    }
    let mut pad = 0;
    while at + 8 <= bits.len() {
        assert_eq!(take(bits, &mut at, 8), if pad % 2 == 0 { 0xEC } else { 0x11 });
        pad += 1;
    }
    while at < bits.len() {
        assert_eq!(take(bits, &mut at, 1), 0);
    }
    (mode, text)
}

fn round_trip(text: &[u8], size: Size, level: ECCLevel, mode: Encoding) -> Reading {
    let symbol = create_qr_code(text, size, level, Some(mode), None).unwrap();
    let side = size.dimensions() + 2 * size.quiet_region_size();
    assert_eq!(symbol.dimensions(), (side, side));
    let reading = read_symbol(&symbol, size);
    assert_eq!(reading.level, level);
    let (read_mode, read) = read_text(size, &reading.data_bits);
    assert_eq!(read_mode, mode);
    assert_eq!(read, text);
    reading
}

// ------------------------------------------------------------------

#[test]
fn test_micro_symbol() {
    // create symbol
    let masked_symbol = create_qr_code(b"1234567", Size::Micro(3), ECCLevel::M, Some(Encoding::Numeric), None).unwrap();
    assert_eq!(masked_symbol.dimensions(), (19, 19));
    let reading = read_symbol(&masked_symbol, Size::Micro(3));
    assert_eq!(reading.level, ECCLevel::M);
    assert_eq!(read_text(Size::Micro(3), &reading.data_bits), (Encoding::Numeric, b"1234567".to_vec()));
    assert_eq!(reading.data, [0b0000_1110, 0b0011_1101, 0b1011_1001, 0b0000_1110, 0x00, 0xEC, 0x11, 0xEC, 0x00]);
    assert_eq!(reading.ecc.len(), 8);
}

#[test]
fn test_standard_symbol_6H() {
    let masked_symbol = create_qr_code(b"AC-47", Size::Standard(6), ECCLevel::H, Some(Encoding::Alphanumeric), None).unwrap();
    assert_eq!(masked_symbol.dimensions(), (49, 49));
    let reading = read_symbol(&masked_symbol, Size::Standard(6));
    assert_eq!(reading.level, ECCLevel::H);
    assert_eq!(
        read_text(Size::Standard(6), &reading.data_bits),
        (Encoding::Alphanumeric, b"AC-47".to_vec())
    );
}

#[test]
fn test_standard_symbol_7Q() {
    let masked_symbol = create_qr_code(b"AC-47", Size::Standard(7), ECCLevel::Q, Some(Encoding::Alphanumeric), None).unwrap();
    assert_eq!(masked_symbol.dimensions(), (53, 53));
    let reading = read_symbol(&masked_symbol, Size::Standard(7));
    assert_eq!(reading.level, ECCLevel::Q);
    assert_eq!(
        read_text(Size::Standard(7), &reading.data_bits),
        (Encoding::Alphanumeric, b"AC-47".to_vec())
    );
}

#[test]
fn test_symbols_are_read_back() {
    round_trip(b"01234567", Size::Standard(1), ECCLevel::M, Encoding::Numeric);
    round_trip(b"HELLO WORLD", Size::Standard(1), ECCLevel::Q, Encoding::Alphanumeric);
    round_trip(b"hello, world", Size::Standard(2), ECCLevel::L, Encoding::Bytes);
    round_trip(&[0x93, 0x5F, 0xE4, 0xAA], Size::Standard(1), ECCLevel::H, Encoding::Kanji);
    round_trip(&[0x81, 0x40, 0x9F, 0xFC, 0xE0, 0x40, 0xEB, 0xBF], Size::Standard(2), ECCLevel::M, Encoding::Kanji);
    round_trip(b"12345", Size::Micro(1), ECCLevel::L, Encoding::Numeric);
    round_trip(b"1", Size::Micro(1), ECCLevel::L, Encoding::Numeric);
    round_trip(b"AB12", Size::Micro(2), ECCLevel::M, Encoding::Alphanumeric);
    round_trip(b"abc", Size::Micro(3), ECCLevel::L, Encoding::Bytes);
    round_trip(b"QR CODE 2015", Size::Micro(4), ECCLevel::Q, Encoding::Alphanumeric);
    round_trip(&[0x93, 0x5F], Size::Micro(4), ECCLevel::M, Encoding::Kanji);
    round_trip(b"A LONGER TEXT FOR A SYMBOL WITH SEVERAL BLOCKS: 0123456789", Size::Standard(14), ECCLevel::H, Encoding::Alphanumeric);
}

#[test]
fn test_largest_symbol_with_the_longest_payload() {
    let digits: Vec<u8> = (0..7089).map(|i| b'0' + (i * 7 % 10) as u8).collect();
    let reading = round_trip(&digits, Size::Standard(40), ECCLevel::L, Encoding::Numeric);
    assert_eq!(reading.data.len(), 2956);
    assert_eq!(reading.ecc.len(), 750);
    let mut longer = digits.clone();
    longer.push(b'1');
    assert_eq!(
        create_qr_code(&longer, Size::Standard(40), ECCLevel::L, Some(Encoding::Numeric), None),
        Err(QrError::PayloadTooLarge)
    );
}

#[test]
fn test_same_input_gives_the_same_symbol() {
    let a = create_qr_code(b"AC-47", Size::Standard(6), ECCLevel::H, Some(Encoding::Alphanumeric), None).unwrap();
    let b = create_qr_code(b"AC-47", Size::Standard(6), ECCLevel::H, Some(Encoding::Alphanumeric), None).unwrap();
    assert_eq!(a, b);
    let c = create_qr_code(b"AC-48", Size::Standard(6), ECCLevel::H, Some(Encoding::Alphanumeric), None).unwrap();
    assert_ne!(a, c);
}

#[test]
fn test_symbol_with_eci_header() {
    let symbol = create_qr_code(b"\xE4\xF6\xFC", Size::Standard(1), ECCLevel::L, Some(Encoding::Bytes), Some(4)).unwrap();
    let reading = read_symbol(&symbol, Size::Standard(1));
    // 0111 0 0000100, then the byte segment 0100 00000011
    assert_eq!(&reading.data[0..6], &[0x70, 0x44, 0x03, 0xE4, 0xF6, 0xFC]);
    assert_eq!(
        create_qr_code(b"abc", Size::Micro(3), ECCLevel::L, Some(Encoding::Bytes), Some(4)),
        Err(QrError::UnsupportedConfiguration)
    );
    assert_eq!(
        create_qr_code(b"abc", Size::Standard(1), ECCLevel::L, Some(Encoding::Bytes), Some(1_000_000)),
        Err(QrError::UnsupportedConfiguration)
    );
    assert!(create_qr_code(b"abc", Size::Standard(1), ECCLevel::L, Some(Encoding::Bytes), Some(999_999)).is_ok());
}

#[test]
fn test_build_errors() {
    assert_eq!(
        create_qr_code(b"123", Size::Standard(1), ECCLevel::L, None, None),
        Err(QrError::UnsupportedConfiguration)
    );
    assert_eq!(
        create_qr_code(b"123", Size::Micro(1), ECCLevel::M, Some(Encoding::Numeric), None),
        Err(QrError::UnsupportedConfiguration)
    );
    assert_eq!(
        create_qr_code(b"123", Size::Standard(41), ECCLevel::M, Some(Encoding::Numeric), None),
        Err(QrError::UnsupportedConfiguration)
    );
    assert_eq!(
        create_qr_code(b"abc", Size::Micro(2), ECCLevel::L, Some(Encoding::Bytes), None),
        Err(QrError::UnsupportedConfiguration)
    );
    assert_eq!(
        create_qr_code(b"12x", Size::Standard(1), ECCLevel::L, Some(Encoding::Numeric), None),
        Err(QrError::IllegalCharacter)
    );
    assert_eq!(
        create_qr_code(&[0x93], Size::Standard(1), ECCLevel::L, Some(Encoding::Kanji), None),
        Err(QrError::OddKanjiLength)
    );
    // 1-H holds 17 digits
    assert!(create_qr_code(b"12345678901234567", Size::Standard(1), ECCLevel::H, Some(Encoding::Numeric), None).is_ok());
    assert_eq!(
        create_qr_code(b"123456789012345678", Size::Standard(1), ECCLevel::H, Some(Encoding::Numeric), None),
        Err(QrError::PayloadTooLarge)
    );
    // M1 holds 5 digits
    assert!(create_qr_code(b"12345", Size::Micro(1), ECCLevel::L, Some(Encoding::Numeric), None).is_ok());
    assert_eq!(
        create_qr_code(b"123456", Size::Micro(1), ECCLevel::L, Some(Encoding::Numeric), None),
        Err(QrError::PayloadTooLarge)
    );
}

#[test]
fn test_every_configuration_builds() {
    let levels = [ECCLevel::L, ECCLevel::M, ECCLevel::Q, ECCLevel::H];
    let mut sizes: Vec<Size> = (1..=4u8).map(Size::Micro).collect();
    sizes.extend((1..=40u8).map(Size::Standard));
    for size in sizes {
        for level in levels {
            if !level.is_available_in(size) {
                continue;
            }
            let symbol = create_qr_code(b"123", size, level, Some(Encoding::Numeric), None).unwrap();
            let side = size.dimensions() + 2 * size.quiet_region_size();
            assert_eq!(symbol.dimensions(), (side, side));
            // the character capacity of the table is the longest payload
            let cap = lookup_capacity(size, level);
            let n = cap[Encoding::Numeric] as usize;
            let digits = vec![b'8'; n];
            assert!(create_qr_code(&digits, size, level, Some(Encoding::Numeric), None).is_ok());
            let digits = vec![b'8'; n + 1];
            assert_eq!(
                create_qr_code(&digits, size, level, Some(Encoding::Numeric), None),
                Err(QrError::PayloadTooLarge)
            );
        }
    }
}

#[test]
fn test_error_messages() {
    assert_eq!(QrError::PayloadTooLarge.message(), "payload too large for the symbol");
    assert_eq!(QrError::OddKanjiLength.message(), "odd number of bytes in Kanji payload");
}
