use qr_gen::config::{ECCLevel, Encoding, Size, SymbolConfig};
use std::cmp::Ordering;

#[test]
fn test_symbol_code_parsing() {
    assert_eq!(SymbolConfig::from_str("M2-M"), SymbolConfig::new(Size::Micro(2), ECCLevel::M));
    assert_eq!(SymbolConfig::from_str("M3-H"), SymbolConfig::new(Size::Micro(3), ECCLevel::H));
    assert_eq!(SymbolConfig::from_str("2-L"), SymbolConfig::new(Size::Standard(2), ECCLevel::L));
    assert_eq!(SymbolConfig::from_str("20-Q"), SymbolConfig::new(Size::Standard(20), ECCLevel::Q));
    assert_eq!(SymbolConfig::from_str("38-M"), SymbolConfig::new(Size::Standard(38), ECCLevel::M));
}

#[test]
fn test_size_parsing_all_sizes() {
    for k in 1..=4u8 {
        assert_eq!(Size::from_str(&format!("M{}", k)), Size::Micro(k));
    }
    for v in 1..=40u8 {
        assert_eq!(Size::from_str(&format!("{}", v)), Size::Standard(v));
    }
}

#[test]
fn test_level_parsing() {
    assert_eq!(ECCLevel::from_str("L"), ECCLevel::L);
    assert_eq!(ECCLevel::from_str("M"), ECCLevel::M);
    assert_eq!(ECCLevel::from_str("Q"), ECCLevel::Q);
    assert_eq!(ECCLevel::from_str("H"), ECCLevel::H);
}

#[test]
fn test_config_parsing_splits_at_the_separator() {
    // would fail if the two pieces came back swapped or uncut
    assert_eq!(SymbolConfig::from_str("40-H"), SymbolConfig(Size::Standard(40), ECCLevel::H));
    assert_eq!(SymbolConfig::from_str("M1-L"), SymbolConfig(Size::Micro(1), ECCLevel::L));
    assert_eq!(SymbolConfig::from_str("1-Q"), SymbolConfig(Size::Standard(1), ECCLevel::Q));
}

#[test]
fn test_dimensions_and_quiet_zone() {
    assert_eq!(Size::Micro(1).dimensions(), 11);
    assert_eq!(Size::Micro(4).dimensions(), 17);
    assert_eq!(Size::Standard(1).dimensions(), 21);
    assert_eq!(Size::Standard(40).dimensions(), 177);
    assert_eq!(Size::Micro(2).quiet_region_size(), 2);
    assert_eq!(Size::Standard(7).quiet_region_size(), 4);
    assert_eq!(Size::Micro(3).version(), 3);
    assert_eq!(Size::Standard(17).version(), 17);
    assert!(Size::Micro(3).is_micro());
    assert!(!Size::Standard(3).is_micro());
}

#[test]
fn test_validity_of_sizes() {
    assert!(!Size::Micro(0).is_valid());
    assert!(Size::Micro(1).is_valid());
    assert!(Size::Micro(4).is_valid());
    assert!(!Size::Micro(5).is_valid());
    assert!(!Size::Standard(0).is_valid());
    assert!(Size::Standard(40).is_valid());
    assert!(!Size::Standard(41).is_valid());
}

#[test]
fn test_mode_indicator_and_terminator_widths() {
    assert_eq!(Size::Micro(1).num_mode_indicator_bits(), 0);
    assert_eq!(Size::Micro(2).num_mode_indicator_bits(), 1);
    assert_eq!(Size::Micro(3).num_mode_indicator_bits(), 2);
    assert_eq!(Size::Micro(4).num_mode_indicator_bits(), 3);
    assert_eq!(Size::Standard(12).num_mode_indicator_bits(), 4);
    assert_eq!(Size::Micro(1).terminator_length(), 3);
    assert_eq!(Size::Micro(2).terminator_length(), 5);
    assert_eq!(Size::Micro(3).terminator_length(), 7);
    assert_eq!(Size::Micro(4).terminator_length(), 9);
    assert_eq!(Size::Standard(40).terminator_length(), 4);
}

#[test]
fn test_char_count_bits_table() {
    let modes = [Encoding::Numeric, Encoding::Alphanumeric, Encoding::Bytes, Encoding::Kanji];
    let expect = |size: Size, widths: [usize; 4]| {
        for (mode, width) in modes.iter().zip(widths.iter()) {
            assert_eq!(mode.num_char_count_bits(size), *width);
        }
    };
    assert_eq!(Encoding::Numeric.num_char_count_bits(Size::Micro(1)), 3);
    assert_eq!(Encoding::Numeric.num_char_count_bits(Size::Micro(2)), 4);
    assert_eq!(Encoding::Alphanumeric.num_char_count_bits(Size::Micro(2)), 3);
    expect(Size::Micro(3), [5, 4, 4, 3]);
    expect(Size::Micro(4), [6, 5, 5, 4]);
    expect(Size::Standard(1), [10, 9, 8, 8]);
    expect(Size::Standard(9), [10, 9, 8, 8]);
    expect(Size::Standard(10), [12, 11, 16, 10]);
    expect(Size::Standard(26), [12, 11, 16, 10]);
    expect(Size::Standard(27), [14, 13, 16, 12]);
    expect(Size::Standard(40), [14, 13, 16, 12]);
}

#[test]
fn test_num_encoded_bits() {
    assert_eq!(Encoding::Numeric.num_encoded_bits(8), 27);
    assert_eq!(Encoding::Numeric.num_encoded_bits(3), 10);
    assert_eq!(Encoding::Numeric.num_encoded_bits(1), 4);
    assert_eq!(Encoding::Numeric.num_encoded_bits(2), 7);
    assert_eq!(Encoding::Alphanumeric.num_encoded_bits(5), 28);
    assert_eq!(Encoding::Alphanumeric.num_encoded_bits(2), 11);
    assert_eq!(Encoding::Bytes.num_encoded_bits(7), 56);
    assert_eq!(Encoding::Kanji.num_encoded_bits(2), 26);
}

#[test]
fn test_encoding_order() {
    let (numeric, alnum, bytes, kanji) =
        (Encoding::Numeric, Encoding::Alphanumeric, Encoding::Bytes, Encoding::Kanji);
    assert_eq!(numeric.partial_cmp(&alnum), Some(Ordering::Less));
    assert_eq!(numeric.partial_cmp(&bytes), Some(Ordering::Less));
    assert_eq!(alnum.partial_cmp(&bytes), Some(Ordering::Less));
    assert_eq!(kanji.partial_cmp(&bytes), Some(Ordering::Less));
    assert_eq!(bytes.partial_cmp(&kanji), Some(Ordering::Greater));
    assert_eq!(alnum.partial_cmp(&numeric), Some(Ordering::Greater));
    assert_eq!(kanji.partial_cmp(&kanji), Some(Ordering::Equal));
    assert_eq!(kanji.partial_cmp(&numeric), None);
    assert_eq!(alnum.partial_cmp(&kanji), None);
    assert!(numeric < bytes);
    assert!(!(kanji < alnum));
}

#[test]
fn test_upper_bound() {
    let (numeric, alnum, bytes, kanji) =
        (Encoding::Numeric, Encoding::Alphanumeric, Encoding::Bytes, Encoding::Kanji);
    assert_eq!(numeric.upper_bound(alnum), alnum);
    assert_eq!(alnum.upper_bound(numeric), alnum);
    assert_eq!(numeric.upper_bound(numeric), numeric);
    assert_eq!(kanji.upper_bound(numeric), bytes);
    assert_eq!(alnum.upper_bound(kanji), bytes);
    assert_eq!(kanji.upper_bound(bytes), bytes);
    assert_eq!(bytes.upper_bound(numeric), bytes);
    // the join is above both arguments, for all pairs
    let all = [numeric, alnum, bytes, kanji];
    for a in all {
        for b in all {
            let j = a.upper_bound(b);
            assert!(a <= j && b <= j);
            assert_eq!(j, b.upper_bound(a));
        }
    }
}

#[test]
fn test_availability() {
    assert!(ECCLevel::L.is_available_in(Size::Micro(1)));
    assert!(!ECCLevel::M.is_available_in(Size::Micro(1)));
    assert!(ECCLevel::M.is_available_in(Size::Micro(2)));
    assert!(!ECCLevel::Q.is_available_in(Size::Micro(3)));
    assert!(ECCLevel::Q.is_available_in(Size::Micro(4)));
    assert!(!ECCLevel::H.is_available_in(Size::Micro(4)));
    assert!(ECCLevel::H.is_available_in(Size::Standard(1)));
    assert!(!ECCLevel::L.is_available_in(Size::Standard(41)));
    assert!(Encoding::Numeric.is_available_in(Size::Micro(1)));
    assert!(!Encoding::Alphanumeric.is_available_in(Size::Micro(1)));
    assert!(Encoding::Alphanumeric.is_available_in(Size::Micro(2)));
    assert!(!Encoding::Bytes.is_available_in(Size::Micro(2)));
    assert!(Encoding::Kanji.is_available_in(Size::Micro(3)));
    assert!(Encoding::Kanji.is_available_in(Size::Standard(5)));
}
