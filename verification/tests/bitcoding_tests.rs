use qr_gen::bitcoding::{
    encode_data_segment, finalize_bitstream, map_alphanumeric, write_eci_header, QrBitRecorder,
};
use qr_gen::config::{ECCLevel, Encoding, Size};
use qr_gen::error::QrError;

fn to_bytes(rec: QrBitRecorder) -> (Vec<u8>, u32, u8) {
    rec.to_bytes()
}

#[test]
fn test_numeric_example_1() {
    let mut recorder = QrBitRecorder::new();
    encode_data_segment(&mut recorder, b"01234567", Encoding::Numeric, Size::Standard(1)).unwrap();
    let (data, bits, value) = to_bytes(recorder);
    assert_eq!(data, [0b0001_0000, 0b0010_0000, 0b0000_1100, 0b0101_0110, 0b0110_0001]);
    assert_eq!(bits, 1);  // one bit left over
    assert_eq!(value, 1); // that bit is a 1
}

#[test]
fn test_numeric_example_2() {
    let mut recorder = QrBitRecorder::new();
    encode_data_segment(&mut recorder, b"0123456789012345", Encoding::Numeric, Size::Micro(3)).unwrap();
    let (data, bits, value) = to_bytes(recorder);
    assert_eq!(data, [0b0010_0000, 0b0000_0110, 0b0010_1011, 0b0011_0101, 0b0011_0111,
                      0b0000_1010, 0b0111_0101]);
    assert_eq!(bits, 5);  // five bits left over
    assert_eq!(value, 5); // value of those is 00101, so 5
}

#[test]
fn test_alphanumeric_example() {
    let mut recorder = QrBitRecorder::new();
    encode_data_segment(&mut recorder, b"AC-42", Encoding::Alphanumeric, Size::Standard(1)).unwrap();
    let (data, bits, value) = to_bytes(recorder);
    assert_eq!(data, [0b0010_0000, 0b0010_1001, 0b1100_1110, 0b1110_0111, 0b0010_0001]);
    assert_eq!(bits, 1);  // one bit left over
    assert_eq!(value, 0); // value of that bit is zero
}

#[test]
fn test_kanji_example() {
    let mut recorder = QrBitRecorder::new();
    encode_data_segment(&mut recorder, &[0x93, 0x5F, 0xE4, 0xAA], Encoding::Kanji, Size::Standard(1)).unwrap();
    let (data, bits, value) = to_bytes(recorder);
    assert_eq!(data, [0b1000_0000, 0b0010_0110, 0b1100_1111, 0b1110_1010]);
    assert_eq!(bits, 6);  // six bits left over
    assert_eq!(value, 0b101010); // those bits are 0b101010
}

#[test]
fn test_fresh_recorder_is_empty() {
    let recorder = QrBitRecorder::new();
    assert_eq!(recorder.written(), 0);
    assert_eq!(recorder.to_bytes(), (vec![], 0, 0));
}

#[test]
fn test_written_counts_bits() {
    let mut recorder = QrBitRecorder::new();
    encode_data_segment(&mut recorder, b"01234567", Encoding::Numeric, Size::Standard(1)).unwrap();
    // 4 mode bits, 10 count bits, 10 + 10 + 7 data bits
    assert_eq!(recorder.written(), 41);
    encode_data_segment(&mut recorder, b"AC-42", Encoding::Alphanumeric, Size::Standard(1)).unwrap();
    // 4 mode bits, 9 count bits, 11 + 11 + 6 data bits
    assert_eq!(recorder.written(), 82);
}

#[test]
fn test_byte_segment() {
    let mut recorder = QrBitRecorder::new();
    encode_data_segment(&mut recorder, &[0xAB, 0x01, 0xFF], Encoding::Bytes, Size::Standard(10)).unwrap();
    let (data, bits, value) = recorder.to_bytes();
    // 0100, count 3 in 16 bits, then the bytes
    assert_eq!(data, [0b0100_0000, 0b0000_0000, 0b0011_1010, 0b1011_0000, 0b0001_1111]);
    assert_eq!(bits, 4);
    assert_eq!(value, 0b1111);
}

#[test]
fn test_numeric_remainders() {
    // one digit left over: 4 bits
    let mut recorder = QrBitRecorder::new();
    encode_data_segment(&mut recorder, b"1234", Encoding::Numeric, Size::Standard(1)).unwrap();
    assert_eq!(recorder.written(), 4 + 10 + 10 + 4);
    let (data, bits, value) = recorder.to_bytes();
    // 0001 0000000100 0001111011 0100
    assert_eq!(data, [0b0001_0000, 0b0001_0000, 0b0111_1011]);
    assert_eq!(bits, 4);
    assert_eq!(value, 0b0100);
    // two digits left over: 7 bits
    let mut recorder = QrBitRecorder::new();
    encode_data_segment(&mut recorder, b"12345", Encoding::Numeric, Size::Standard(1)).unwrap();
    assert_eq!(recorder.written(), 4 + 10 + 10 + 7);
    let (data, bits, value) = recorder.to_bytes();
    // 0001 0000000101 0001111011 0101101
    assert_eq!(data, [0b0001_0000, 0b0001_0100, 0b0111_1011]);
    assert_eq!(bits, 7);
    assert_eq!(value, 0b0101101);
}

#[test]
fn test_micro_mode_indicators() {
    // M1 has no mode indicator: 3 count bits and 4 data bits
    let mut recorder = QrBitRecorder::new();
    encode_data_segment(&mut recorder, b"7", Encoding::Numeric, Size::Micro(1)).unwrap();
    assert_eq!(recorder.written(), 7);
    let (_, bits, value) = recorder.to_bytes();
    assert_eq!((bits, value), (7, 0b001_0111));
    // M2 alphanumeric: mode 1, count 1 in 3 bits, 6 data bits
    let mut recorder = QrBitRecorder::new();
    encode_data_segment(&mut recorder, b"A", Encoding::Alphanumeric, Size::Micro(2)).unwrap();
    let (data, bits, value) = recorder.to_bytes();
    assert_eq!(data, [0b1001_0010]);
    assert_eq!((bits, value), (2, 0b10));
    // M4 Kanji: mode 011, count 1 in 4 bits, 13 data bits
    let mut recorder = QrBitRecorder::new();
    encode_data_segment(&mut recorder, &[0x93, 0x5F], Encoding::Kanji, Size::Micro(4)).unwrap();
    let (data, bits, value) = recorder.to_bytes();
    assert_eq!(data, [0b0110_0010, 0b1101_1001]);
    assert_eq!((bits, value), (4, 0b1111));
}

#[test]
fn test_kanji_range_boundaries() {
    for (pair, code) in [
        ([0x81u8, 0x40u8], 0u32),
        ([0x9F, 0xFC], 0x1E * 0xC0 + 0xBC),
        ([0xE0, 0x40], 0x1F * 0xC0),
        ([0xEB, 0xBF], 0x2A * 0xC0 + 0x7F),
    ] {
        let mut recorder = QrBitRecorder::new();
        encode_data_segment(&mut recorder, &pair, Encoding::Kanji, Size::Standard(1)).unwrap();
        assert_eq!(recorder.written(), 4 + 8 + 13);
        let (data, bits, value) = recorder.to_bytes();
        // 1000 00000001 and the first four bits of the code
        assert_eq!(data[0], 0b1000_0000);
        assert_eq!(data[1] as u32, 0b0001_0000 | (code >> 9));
        assert_eq!(data[2] as u32, (code >> 1) & 0xFF);
        assert_eq!((bits, value as u32), (1, code & 1));
    }
    for pair in [[0x81u8, 0x3Fu8], [0x9F, 0xFD], [0xE0, 0x3F], [0xEB, 0xC0], [0x00, 0x00], [0xA0, 0x00]] {
        let mut recorder = QrBitRecorder::new();
        assert_eq!(
            encode_data_segment(&mut recorder, &pair, Encoding::Kanji, Size::Standard(1)),
            Err(QrError::IllegalCharacter)
        );
        assert_eq!(recorder.written(), 0);
    }
}

#[test]
fn test_alphanumeric_codes() {
    let set = b"0123456789ABCDEFGHIJKLMNOPQRSTUVWXYZ $%*+-./:";
    assert_eq!(set.len(), 45);
    for (i, c) in set.iter().enumerate() {
        assert_eq!(map_alphanumeric(*c) as usize, i);
    }
}

#[test]
fn test_segment_errors() {
    let mut recorder = QrBitRecorder::new();
    assert_eq!(
        encode_data_segment(&mut recorder, b"12a", Encoding::Numeric, Size::Standard(1)),
        Err(QrError::IllegalCharacter)
    );
    assert_eq!(
        encode_data_segment(&mut recorder, b"AB/c", Encoding::Alphanumeric, Size::Standard(1)),
        Err(QrError::IllegalCharacter)
    );
    assert_eq!(
        encode_data_segment(&mut recorder, &[0x93, 0x5F, 0xE4], Encoding::Kanji, Size::Standard(1)),
        Err(QrError::OddKanjiLength)
    );
    assert_eq!(
        encode_data_segment(&mut recorder, b"12", Encoding::Bytes, Size::Micro(1)),
        Err(QrError::UnsupportedConfiguration)
    );
    assert_eq!(
        encode_data_segment(&mut recorder, b"AB", Encoding::Alphanumeric, Size::Micro(1)),
        Err(QrError::UnsupportedConfiguration)
    );
    assert_eq!(
        encode_data_segment(&mut recorder, b"12", Encoding::Kanji, Size::Micro(2)),
        Err(QrError::UnsupportedConfiguration)
    );
    assert_eq!(
        encode_data_segment(&mut recorder, b"12", Encoding::Numeric, Size::Standard(41)),
        Err(QrError::UnsupportedConfiguration)
    );
    assert_eq!(
        encode_data_segment(&mut recorder, b"12", Encoding::Numeric, Size::Micro(0)),
        Err(QrError::UnsupportedConfiguration)
    );
    // the count of 8 digits does not fit into the 3 bits of an M1 symbol
    assert_eq!(
        encode_data_segment(&mut recorder, b"12345678", Encoding::Numeric, Size::Micro(1)),
        Err(QrError::PayloadTooLarge)
    );
    // 256 bytes do not fit into the 8 count bits of versions 1 to 9
    assert_eq!(
        encode_data_segment(&mut recorder, &[0u8; 256], Encoding::Bytes, Size::Standard(9)),
        Err(QrError::PayloadTooLarge)
    );
    // nothing was written by the rejected segments
    assert_eq!(recorder.written(), 0);
    assert_eq!(
        encode_data_segment(&mut recorder, &[0u8; 255], Encoding::Bytes, Size::Standard(9)),
        Ok(())
    );
    assert_eq!(recorder.written(), 4 + 8 + 8 * 255);
}

#[test]
fn test_first_violation_decides() {
    let mut recorder = QrBitRecorder::new();
    // odd length comes before the illegal pair
    assert_eq!(
        encode_data_segment(&mut recorder, &[0x00, 0x00, 0x00], Encoding::Kanji, Size::Standard(1)),
        Err(QrError::OddKanjiLength)
    );
    // the size comes before the characters
    assert_eq!(
        encode_data_segment(&mut recorder, b"x", Encoding::Alphanumeric, Size::Micro(1)),
        Err(QrError::UnsupportedConfiguration)
    );
    // the characters come before the count
    assert_eq!(
        encode_data_segment(&mut recorder, b"1234567x", Encoding::Numeric, Size::Micro(1)),
        Err(QrError::IllegalCharacter)
    );
}

#[test]
fn test_eci_header_forms() {
    let mut recorder = QrBitRecorder::new();
    write_eci_header(&mut recorder, 9);
    assert_eq!(recorder.written(), 12);
    let (data, bits, value) = recorder.to_bytes();
    assert_eq!(data, [0b0111_0000]);
    assert_eq!((bits, value), (4, 0b1001));

    let mut recorder = QrBitRecorder::new();
    write_eci_header(&mut recorder, 127);
    assert_eq!(recorder.to_bytes(), (vec![0b0111_0111], 4, 0b1111));

    let mut recorder = QrBitRecorder::new();
    write_eci_header(&mut recorder, 128);
    assert_eq!(recorder.written(), 20);
    assert_eq!(recorder.to_bytes(), (vec![0b0111_1000, 0b0000_1000], 4, 0b0000));

    let mut recorder = QrBitRecorder::new();
    write_eci_header(&mut recorder, 16383);
    assert_eq!(recorder.to_bytes(), (vec![0b0111_1011, 0b1111_1111], 4, 0b1111));

    let mut recorder = QrBitRecorder::new();
    write_eci_header(&mut recorder, 16384);
    assert_eq!(recorder.written(), 28);
    assert_eq!(recorder.to_bytes(), (vec![0b0111_1100, 0b0000_0100, 0b0000_0000], 4, 0b0000));

    let mut recorder = QrBitRecorder::new();
    write_eci_header(&mut recorder, 999_999);
    // 999999 = 0b0_1111_0100_0010_0011_1111
    assert_eq!(recorder.to_bytes(), (vec![0b0111_1100, 0b1111_0100, 0b0010_0011], 4, 0b1111));
}

#[test]
fn test_finalize_standard_example() {
    // the example of the standard: "01234567" in a 1-M symbol
    let mut recorder = QrBitRecorder::new();
    encode_data_segment(&mut recorder, b"01234567", Encoding::Numeric, Size::Standard(1)).unwrap();
    let data = finalize_bitstream(&mut recorder, Size::Standard(1), ECCLevel::M).unwrap();
    assert_eq!(
        data,
        [0x10, 0x20, 0x0C, 0x56, 0x61, 0x80, 0xEC, 0x11, 0xEC, 0x11, 0xEC, 0x11, 0xEC, 0x11, 0xEC, 0x11]
    );
    assert_eq!(recorder.written(), 128);
}

#[test]
fn test_finalize_micro_half_codeword() {
    // M3-M holds 68 bits: eight codewords and a half
    let mut recorder = QrBitRecorder::new();
    encode_data_segment(&mut recorder, b"1234567", Encoding::Numeric, Size::Micro(3)).unwrap();
    // 2 + 5 + 10 + 10 + 4 = 31 bits
    assert_eq!(recorder.written(), 31);
    let data = finalize_bitstream(&mut recorder, Size::Micro(3), ECCLevel::M).unwrap();
    // 00 00111 0001111011 0111001000 0111, terminator 0000000, alignment 00
    assert_eq!(data, [0b0000_1110, 0b0011_1101, 0b1011_1001, 0b0000_1110, 0x00, 0xEC, 0x11, 0xEC, 0x00]);
    // the stream ends at the capacity; the last codeword is filled up on the way out
    assert_eq!(recorder.written(), 68);
}

#[test]
fn test_finalize_micro1_full() {
    // five digits fill an M1 symbol: 3 + 10 + 7 = 20 bits
    let mut recorder = QrBitRecorder::new();
    encode_data_segment(&mut recorder, b"12345", Encoding::Numeric, Size::Micro(1)).unwrap();
    assert_eq!(recorder.written(), 20);
    let data = finalize_bitstream(&mut recorder, Size::Micro(1), ECCLevel::L).unwrap();
    // 101 0001111011 0101101 and four bits of filling
    assert_eq!(data, [0b1010_0011, 0b1101_1010, 0b1101_0000]);
    assert_eq!(recorder.written(), 20);
    assert_eq!(recorder.to_bytes(), (vec![0b1010_0011, 0b1101_1010], 4, 0b1101));
}

#[test]
fn test_finalize_into_half_codeword() {
    // four digits in M1: 3 + 10 + 4 = 17 bits, the terminator reaches the capacity
    let mut recorder = QrBitRecorder::new();
    encode_data_segment(&mut recorder, b"1234", Encoding::Numeric, Size::Micro(1)).unwrap();
    assert_eq!(recorder.written(), 17);
    let data = finalize_bitstream(&mut recorder, Size::Micro(1), ECCLevel::L).unwrap();
    assert_eq!(data, [0b1000_0011, 0b1101_1010, 0b0000_0000]);
    assert_eq!(recorder.written(), 20);
}

#[test]
fn test_finalize_exact_fit_and_one_below() {
    // 1-H holds 72 bits: 4 + 8 + 8 * 7 = 68 bits, then four terminator bits
    let mut recorder = QrBitRecorder::new();
    encode_data_segment(&mut recorder, b"abcdefg", Encoding::Bytes, Size::Standard(1)).unwrap();
    assert_eq!(recorder.written(), 68);
    let data = finalize_bitstream(&mut recorder, Size::Standard(1), ECCLevel::H).unwrap();
    assert_eq!(data.len(), 9);
    assert_eq!(data[0], 0x40);
    assert_eq!(data[1], 0x76);
    assert_eq!(data[8], 0x70);
    // 17 digits in 1-H: 4 + 10 + 50 + 7 = 71 bits, one below the capacity
    let mut recorder = QrBitRecorder::new();
    encode_data_segment(&mut recorder, b"12345678901234567", Encoding::Numeric, Size::Standard(1)).unwrap();
    assert_eq!(recorder.written(), 71);
    let data = finalize_bitstream(&mut recorder, Size::Standard(1), ECCLevel::H).unwrap();
    assert_eq!(data.len(), 9);
    assert_eq!(recorder.written(), 72);
    // 41 digits fill 1-L exactly: 4 + 10 + 130 + 7 = 151 of 152 bits
    let mut recorder = QrBitRecorder::new();
    encode_data_segment(&mut recorder, &[b'7'; 41], Encoding::Numeric, Size::Standard(1)).unwrap();
    assert_eq!(recorder.written(), 151);
    assert_eq!(finalize_bitstream(&mut recorder, Size::Standard(1), ECCLevel::L).unwrap().len(), 19);
}

#[test]
fn test_finalize_errors() {
    let mut recorder = QrBitRecorder::new();
    encode_data_segment(&mut recorder, b"abcdefgh", Encoding::Bytes, Size::Standard(1)).unwrap();
    // 76 bits do not fit into the 72 bits of 1-H
    assert_eq!(
        finalize_bitstream(&mut recorder, Size::Standard(1), ECCLevel::H),
        Err(QrError::PayloadTooLarge)
    );
    assert_eq!(recorder.written(), 76);
    assert_eq!(
        finalize_bitstream(&mut recorder, Size::Micro(1), ECCLevel::M),
        Err(QrError::UnsupportedConfiguration)
    );
    assert_eq!(
        finalize_bitstream(&mut recorder, Size::Standard(0), ECCLevel::M),
        Err(QrError::UnsupportedConfiguration)
    );
    assert_eq!(finalize_bitstream(&mut recorder, Size::Standard(1), ECCLevel::Q).unwrap().len(), 13);
}

#[test]
fn test_finalize_fills_capacity_of_every_configuration() {
    let levels = [ECCLevel::L, ECCLevel::M, ECCLevel::Q, ECCLevel::H];
    let mut sizes: Vec<Size> = (1..=4u8).map(Size::Micro).collect();
    sizes.extend((1..=40u8).map(Size::Standard));
    for size in sizes {
        for level in levels {
            if !level.is_available_in(size) {
                continue;
            }
            let cap = qr_gen::tables::lookup_capacity(size, level);
            let mut recorder = QrBitRecorder::new();
            encode_data_segment(&mut recorder, b"12", Encoding::Numeric, size).unwrap();
            let data = finalize_bitstream(&mut recorder, size, level).unwrap();
            assert_eq!(data.len() as u32, cap.data_codewords());
            assert_eq!(recorder.written(), cap.data_bits);
        }
    }
}
