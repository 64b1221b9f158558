use qr_gen::config::{ECCLevel, Encoding, Size};
use qr_gen::tables::{get_p_for_symbol, lookup_capacity, BlockDef, SymbolCapacity};

fn all_configurations() -> Vec<(Size, ECCLevel)> {
    let mut all = Vec::new();
    let levels = [ECCLevel::L, ECCLevel::M, ECCLevel::Q, ECCLevel::H];
    for k in 1..=4u8 {
        for l in levels {
            if l.is_available_in(Size::Micro(k)) {
                all.push((Size::Micro(k), l));
            }
        }
    }
    for v in 1..=40u8 {
        for l in levels {
            all.push((Size::Standard(v), l));
        }
    }
    all
}

#[test]
fn test_table1() {
    assert_eq!(lookup_capacity(Size::Micro(3), ECCLevel::M).data_codewords(), 9);
    assert_eq!(lookup_capacity(Size::Micro(3), ECCLevel::M)[Encoding::Bytes], 7);
    assert_eq!(lookup_capacity(Size::Standard(1), ECCLevel::Q).ecc_words(), 13);
}

#[test]
fn test_table2() {
    // check for all entries of a single size that all LMQH levels return the same number of
    // total codewords. If this fails, there is a transcription error in the table.
    // Do not check micro symbols as they are easy to check by hand.
    for i in 1..31 {
        let nl = lookup_capacity(Size::Standard(i), ECCLevel::L).codewords();
        let nm = lookup_capacity(Size::Standard(i), ECCLevel::M).codewords();
        let nq = lookup_capacity(Size::Standard(i), ECCLevel::Q).codewords();
        let nh = lookup_capacity(Size::Standard(i), ECCLevel::H).codewords();
        assert_eq!(nl, nm, "Error in total codewords number for symbol {}", i);
        assert_eq!(nl, nq, "Error in total codewords number for symbol {}", i);
        assert_eq!(nl, nh, "Error in total codewords number for symbol {}", i);
    }
}

#[test]
fn test_table3() {
    // check that all entries with two block sizes have the following property:
    // the second block size (resp. data size) is exactly one unit larger than
    // the first block size (resp. data size).
    for (sym, level) in all_configurations() {
        let cap = lookup_capacity(sym, level);
        if cap.block_def2.num_blocks != 0 {
            assert_eq!(cap.block_def1.codewords + 1, cap.block_def2.codewords,
                       "Error in codewords numbers for symbol {:?}", sym);
            assert_eq!(cap.block_def1.data_codewords + 1, cap.block_def2.data_codewords,
                       "Error in codewords numbers for symbol {:?}", sym);
        }
    }
}

#[test]
fn test_table4() {
    // check the number of data bits is exactly 8 times the number of data words
    // for all standard-size symbols
    for i in 1..31 {
        for l in [ECCLevel::L, ECCLevel::M, ECCLevel::Q, ECCLevel::H] {
            let cap = lookup_capacity(Size::Standard(i), l);

            assert_eq!(cap.data_codewords() * 8, cap.data_bits,
                       "Error in num data bits of symbol {}, level {:?}", i, l);
        }
    }
}

#[test]
fn test_total_codewords_same_at_all_levels_of_every_size() {
    for v in 1..=40u8 {
        let nl = lookup_capacity(Size::Standard(v), ECCLevel::L).codewords();
        for l in [ECCLevel::M, ECCLevel::Q, ECCLevel::H] {
            assert_eq!(lookup_capacity(Size::Standard(v), l).codewords(), nl);
        }
    }
    assert_eq!(lookup_capacity(Size::Micro(1), ECCLevel::L).codewords(), 5);
    for l in [ECCLevel::L, ECCLevel::M] {
        assert_eq!(lookup_capacity(Size::Micro(2), l).codewords(), 10);
        assert_eq!(lookup_capacity(Size::Micro(3), l).codewords(), 17);
    }
    for l in [ECCLevel::L, ECCLevel::M, ECCLevel::Q] {
        assert_eq!(lookup_capacity(Size::Micro(4), l).codewords(), 24);
    }
    assert_eq!(lookup_capacity(Size::Standard(1), ECCLevel::H).codewords(), 26);
    assert_eq!(lookup_capacity(Size::Standard(7), ECCLevel::Q).codewords(), 196);
    assert_eq!(lookup_capacity(Size::Standard(40), ECCLevel::L).codewords(), 3706);
}

#[test]
fn test_data_bits_of_all_standard_sizes() {
    for v in 1..=40u8 {
        for l in [ECCLevel::L, ECCLevel::M, ECCLevel::Q, ECCLevel::H] {
            let cap = lookup_capacity(Size::Standard(v), l);
            assert_eq!(cap.data_codewords() * 8, cap.data_bits);
        }
    }
}

#[test]
fn test_micro_data_bits() {
    assert_eq!(lookup_capacity(Size::Micro(1), ECCLevel::L).data_bits, 20);
    assert_eq!(lookup_capacity(Size::Micro(2), ECCLevel::L).data_bits, 40);
    assert_eq!(lookup_capacity(Size::Micro(2), ECCLevel::M).data_bits, 32);
    assert_eq!(lookup_capacity(Size::Micro(3), ECCLevel::L).data_bits, 84);
    assert_eq!(lookup_capacity(Size::Micro(3), ECCLevel::M).data_bits, 68);
    assert_eq!(lookup_capacity(Size::Micro(4), ECCLevel::L).data_bits, 128);
    assert_eq!(lookup_capacity(Size::Micro(4), ECCLevel::M).data_bits, 112);
    assert_eq!(lookup_capacity(Size::Micro(4), ECCLevel::Q).data_bits, 80);
}

#[test]
fn test_ecc_words_per_block_same_in_both_groups() {
    for (sym, level) in all_configurations() {
        let cap = lookup_capacity(sym, level);
        let per_block = cap.ecc_words_per_block();
        if cap.block_def2.num_blocks != 0 {
            assert_eq!(cap.block_def2.codewords - cap.block_def2.data_codewords, per_block);
        }
        assert_eq!(
            per_block * (cap.block_def1.num_blocks + cap.block_def2.num_blocks),
            cap.ecc_words()
        );
    }
}

#[test]
fn test_some_table_entries() {
    let cap = lookup_capacity(Size::Standard(5), ECCLevel::Q);
    assert_eq!(cap.data_bits, 496);
    assert_eq!(cap[Encoding::Numeric], 144);
    assert_eq!(cap[Encoding::Alphanumeric], 87);
    assert_eq!(cap[Encoding::Bytes], 60);
    assert_eq!(cap[Encoding::Kanji], 37);
    assert_eq!(cap.block_def1, BlockDef::new(2, 33, 15));
    assert_eq!(cap.block_def2, BlockDef::new(2, 34, 16));
    assert_eq!(
        lookup_capacity(Size::Standard(40), ECCLevel::H),
        SymbolCapacity::new(10208, 3057, 1852, 1273, 784, 20, 45, 15, 61, 46, 16)
    );
    assert_eq!(
        lookup_capacity(Size::Standard(21), ECCLevel::M),
        SymbolCapacity::new(5712, 1708, 1035, 711, 438, 17, 68, 42, 0, 0, 0)
    );
    assert_eq!(
        lookup_capacity(Size::Micro(1), ECCLevel::L),
        SymbolCapacity::new(20, 5, 0, 0, 0, 1, 5, 3, 0, 0, 0)
    );
}

#[test]
fn test_misdecode_protection() {
    assert_eq!(get_p_for_symbol(Size::Micro(1), ECCLevel::L), 2);
    assert_eq!(get_p_for_symbol(Size::Micro(2), ECCLevel::L), 3);
    assert_eq!(get_p_for_symbol(Size::Micro(2), ECCLevel::M), 2);
    assert_eq!(get_p_for_symbol(Size::Micro(3), ECCLevel::M), 2);
    assert_eq!(get_p_for_symbol(Size::Micro(4), ECCLevel::L), 2);
    assert_eq!(get_p_for_symbol(Size::Micro(4), ECCLevel::Q), 0);
    assert_eq!(get_p_for_symbol(Size::Standard(1), ECCLevel::L), 3);
    assert_eq!(get_p_for_symbol(Size::Standard(1), ECCLevel::M), 2);
    assert_eq!(get_p_for_symbol(Size::Standard(1), ECCLevel::H), 1);
    assert_eq!(get_p_for_symbol(Size::Standard(2), ECCLevel::L), 2);
    assert_eq!(get_p_for_symbol(Size::Standard(2), ECCLevel::M), 0);
    assert_eq!(get_p_for_symbol(Size::Standard(3), ECCLevel::L), 1);
    assert_eq!(get_p_for_symbol(Size::Standard(4), ECCLevel::L), 0);
}
