//! Capacity and block schedule of every symbol configuration, after
//! tables 7 and 9 of ISO/IEC 18004:2015.
use crate::bits::{lemma_two_to_values, two_to};
use crate::config::{ECCLevel, Encoding, Size};
use vstd::prelude::*;

verus! {

///////////////////////////////////////////////////////////////////////////////////////////////////
/// Definition of a block of data + ECC bytes
#[derive(Clone, Copy, Hash, Eq, PartialEq, Debug, Structural)]
pub struct BlockDef {
    /// the number of occurrences of this block type
    pub num_blocks: u32,
    /// total number of codewords in this block
    pub codewords: u32,
    /// of those codewords, how many carry data (as opposed to ecc)
    pub data_codewords: u32,
}

impl BlockDef {
    /// A group of `num_blocks` blocks of `words_total` codewords each, of
    /// which `words` carry data.
    pub fn new(num_blocks: u32, words_total: u32, words: u32) -> (def: BlockDef)
        ensures
            def == (BlockDef { num_blocks, codewords: words_total, data_codewords: words }),
    {
        BlockDef { num_blocks: num_blocks, codewords: words_total, data_codewords: words }
    }
}

///////////////////////////////////////////////////////////////////////////////////////////////////
/// What a symbol of one size and error correction level holds.
#[derive(Clone, Copy, Hash, Eq, PartialEq, Debug, Structural)]
pub struct SymbolCapacity {
    /// how many data bits?
    pub data_bits: u32,
    /// data capacity measured in digits when using numeric encoding
    pub chars_numeric: u32,
    /// data capacity measured in alphanum chars when using alphanum encoding
    pub chars_alphanum: u32,
    /// data capacity measured in bytes when using bytes encoding
    pub chars_bytes: u32,
    /// data capacity measured in kanji chars when using kanji encoding
    pub chars_kanji: u32,
    /// block definition for distributing the data over multiple blocks
    pub block_def1: BlockDef,
    /// secondary block definition, all zero where the schedule has one group
    pub block_def2: BlockDef,
}

/// The record with the given entries.
pub open spec fn capacity_record(
    bits: u32,
    charsnum: u32,
    charsalphanum: u32,
    charsbytes: u32,
    charskanji: u32,
    num_blocks1: u32,
    block_size1: u32,
    block_data_words1: u32,
    num_blocks2: u32,
    block_size2: u32,
    block_data_words2: u32,
) -> SymbolCapacity {
    SymbolCapacity {
        data_bits: bits,
        chars_numeric: charsnum,
        chars_alphanum: charsalphanum,
        chars_bytes: charsbytes,
        chars_kanji: charskanji,
        block_def1: BlockDef {
            num_blocks: num_blocks1,
            codewords: block_size1,
            data_codewords: block_data_words1,
        },
        block_def2: BlockDef {
            num_blocks: num_blocks2,
            codewords: block_size2,
            data_codewords: block_data_words2,
        },
    }
}

impl SymbolCapacity {
    /// Number of characters that fit in the given encoding.
    pub open spec fn chars(&self, ty: Encoding) -> u32 {
        match ty {
            Encoding::Numeric => self.chars_numeric,
            Encoding::Alphanumeric => self.chars_alphanum,
            Encoding::Bytes => self.chars_bytes,
            Encoding::Kanji => self.chars_kanji,
        }
    }

    /// Total number of codewords of the symbol.
    pub open spec fn total_codewords(&self) -> int {
        self.block_def1.num_blocks * self.block_def1.codewords + self.block_def2.num_blocks
            * self.block_def2.codewords
    }

    /// Number of data codewords of the symbol.
    pub open spec fn total_data_codewords(&self) -> int {
        self.block_def1.num_blocks * self.block_def1.data_codewords + self.block_def2.num_blocks
            * self.block_def2.data_codewords
    }

    /// Number of blocks of both groups.
    pub open spec fn total_blocks(&self) -> int {
        self.block_def1.num_blocks + self.block_def2.num_blocks
    }

    /// Number of error correction codewords in each block.
    pub open spec fn block_ecc_words(&self) -> int {
        self.block_def1.codewords - self.block_def1.data_codewords
    }

    /// The schedule is consistent: there is a block, every block carries
    /// data and fewer data codewords than it has codewords, and where there
    /// is a second group, its blocks are one codeword and one data codeword
    /// longer than those of the first. It stays within the limits of the
    /// largest symbol: at most 81 blocks, of at most 152 codewords in the
    /// first group.
    pub open spec fn wf(&self) -> bool {
        &&& self.block_def1.num_blocks >= 1
        &&& self.block_def1.data_codewords >= 1
        &&& self.block_def1.data_codewords < self.block_def1.codewords
        &&& self.block_def1.num_blocks + self.block_def2.num_blocks <= 81
        &&& self.block_def1.codewords <= 152
        &&& if self.block_def2.num_blocks == 0 {
            self.block_def2.codewords == 0 && self.block_def2.data_codewords == 0
        } else {
            self.block_def2.codewords == self.block_def1.codewords + 1
                && self.block_def2.data_codewords == self.block_def1.data_codewords + 1
        }
    }

    /// constructor for entries with two block types
    pub fn new(
        bits: u32,
        charsnum: u32,
        charsalphanum: u32,
        charsbytes: u32,
        charskanji: u32,
        num_blocks1: u32,
        block_size1: u32,
        block_data_words1: u32,
        num_blocks2: u32,
        block_size2: u32,
        block_data_words2: u32,
    ) -> (capacity: SymbolCapacity)
        ensures
            capacity == capacity_record(
                bits,
                charsnum,
                charsalphanum,
                charsbytes,
                charskanji,
                num_blocks1,
                block_size1,
                block_data_words1,
                num_blocks2,
                block_size2,
                block_data_words2,
            ),
    {
        SymbolCapacity {
            data_bits: bits,
            chars_numeric: charsnum,
            chars_alphanum: charsalphanum,
            chars_bytes: charsbytes,
            chars_kanji: charskanji,
            block_def1: BlockDef::new(num_blocks1, block_size1, block_data_words1),
            block_def2: BlockDef::new(num_blocks2, block_size2, block_data_words2),
        }
    }

    /// compute and return the total number of codewords for this symbol (capacity)
    pub fn codewords(&self) -> (n: u32)
        requires
            self.total_codewords() <= u32::MAX,
        ensures
            n == self.total_codewords(),
    {
        assert(self.block_def1.num_blocks * self.block_def1.codewords >= 0) by (nonlinear_arith);
        assert(self.block_def2.num_blocks * self.block_def2.codewords >= 0) by (nonlinear_arith);
        self.block_def1.num_blocks * self.block_def1.codewords + self.block_def2.num_blocks
            * self.block_def2.codewords
    }

    /// compute and return the number of data codewords for this symbol (capacity)
    pub fn data_codewords(&self) -> (n: u32)
        requires
            self.total_data_codewords() <= u32::MAX,
        ensures
            n == self.total_data_codewords(),
    {
        assert(self.block_def1.num_blocks * self.block_def1.data_codewords >= 0)
            by (nonlinear_arith);
        assert(self.block_def2.num_blocks * self.block_def2.data_codewords >= 0)
            by (nonlinear_arith);
        self.block_def1.num_blocks * self.block_def1.data_codewords + self.block_def2.num_blocks
            * self.block_def2.data_codewords
    }

    /// compute and return the number of ecc codewords for this symbol
    pub fn ecc_words(&self) -> (n: u32)
        requires
            self.total_data_codewords() <= self.total_codewords() <= u32::MAX,
        ensures
            n == self.total_codewords() - self.total_data_codewords(),
    {
        assert(self.block_def1.num_blocks * self.block_def1.data_codewords >= 0)
            by (nonlinear_arith);
        assert(self.block_def2.num_blocks * self.block_def2.data_codewords >= 0)
            by (nonlinear_arith);
        self.codewords() - self.data_codewords()
    }

    /// compute and return the number of ecc codewords per block for this symbol
    pub fn ecc_words_per_block(&self) -> (n: u32)
        requires
            self.block_def1.data_codewords <= self.block_def1.codewords,
        ensures
            n == self.block_ecc_words(),
    {
        self.block_def1.codewords - self.block_def1.data_codewords
    }
}

impl std::ops::Index<Encoding> for SymbolCapacity {
    type Output = u32;

    /// Number of characters that fit in the given encoding.
    fn index(&self, ty: Encoding) -> (n: &u32)
        ensures
            *n == self.chars(ty),
    {
        match ty {
            Encoding::Numeric => &self.chars_numeric,
            Encoding::Alphanumeric => &self.chars_alphanum,
            Encoding::Bytes => &self.chars_bytes,
            Encoding::Kanji => &self.chars_kanji,
        }
    }
}

impl vstd::std_specs::core::IndexSpecImpl<Encoding> for SymbolCapacity {
    open spec fn index_req(&self, index: &Encoding) -> bool {
        true
    }
}

///////////////////////////////////////////////////////////////////////////////////////////////////
/// The table for the Micro sizes. Levels that a size does not offer have an
/// all-zero record.
#[verifier::opaque]
pub open spec fn micro_capacity(v: u8, ecc: ECCLevel) -> SymbolCapacity {
    if v == 1 {
        match ecc {
            ECCLevel::L => capacity_record(20, 5, 0, 0, 0, 1, 5, 3, 0, 0, 0),
            _ => capacity_record(0, 0, 0, 0, 0, 0, 0, 0, 0, 0, 0),
        }
    } else if v == 2 {
        match ecc {
            ECCLevel::L => capacity_record(40, 10, 6, 0, 0, 1, 10, 5, 0, 0, 0),
            ECCLevel::M => capacity_record(32, 8, 5, 0, 0, 1, 10, 4, 0, 0, 0),
            _ => capacity_record(0, 0, 0, 0, 0, 0, 0, 0, 0, 0, 0),
        }
    } else if v == 3 {
        match ecc {
            ECCLevel::L => capacity_record(84, 23, 14, 9, 6, 1, 17, 11, 0, 0, 0),
            ECCLevel::M => capacity_record(68, 18, 11, 7, 4, 1, 17, 9, 0, 0, 0),
            _ => capacity_record(0, 0, 0, 0, 0, 0, 0, 0, 0, 0, 0),
        }
    } else if v == 4 {
        match ecc {
            ECCLevel::L => capacity_record(128, 35, 21, 15, 9, 1, 24, 16, 0, 0, 0),
            ECCLevel::M => capacity_record(112, 30, 18, 13, 8, 1, 24, 14, 0, 0, 0),
            ECCLevel::Q => capacity_record(80, 21, 13, 9, 4, 1, 24, 10, 0, 0, 0),
            _ => capacity_record(0, 0, 0, 0, 0, 0, 0, 0, 0, 0, 0),
        }
    } else {
        capacity_record(0, 0, 0, 0, 0, 0, 0, 0, 0, 0, 0)
    }
}

/// The table for the Standard sizes.
#[verifier::opaque]
pub open spec fn standard_capacity(v: u8, ecc: ECCLevel) -> SymbolCapacity {
    if v == 1 {
        match ecc {
            ECCLevel::L => capacity_record(152, 41, 25, 17, 10, 1, 26, 19, 0, 0, 0),
            ECCLevel::M => capacity_record(128, 34, 20, 14, 8, 1, 26, 16, 0, 0, 0),
            ECCLevel::Q => capacity_record(104, 27, 16, 11, 7, 1, 26, 13, 0, 0, 0),
            ECCLevel::H => capacity_record(72, 17, 10, 7, 4, 1, 26, 9, 0, 0, 0),
        }
    } else if v == 2 {
        match ecc {
            ECCLevel::L => capacity_record(272, 77, 47, 32, 20, 1, 44, 34, 0, 0, 0),
            ECCLevel::M => capacity_record(224, 63, 38, 26, 16, 1, 44, 28, 0, 0, 0),
            ECCLevel::Q => capacity_record(176, 48, 29, 20, 12, 1, 44, 22, 0, 0, 0),
            ECCLevel::H => capacity_record(128, 34, 20, 14, 8, 1, 44, 16, 0, 0, 0),
        }
    } else if v == 3 {
        match ecc {
            ECCLevel::L => capacity_record(440, 127, 77, 53, 32, 1, 70, 55, 0, 0, 0),
            ECCLevel::M => capacity_record(352, 101, 61, 42, 26, 1, 70, 44, 0, 0, 0),
            ECCLevel::Q => capacity_record(272, 77, 47, 32, 20, 2, 35, 17, 0, 0, 0),
            ECCLevel::H => capacity_record(208, 58, 35, 24, 15, 2, 35, 13, 0, 0, 0),
        }
    } else if v == 4 {
        match ecc {
            ECCLevel::L => capacity_record(640, 187, 114, 78, 48, 1, 100, 80, 0, 0, 0),
            ECCLevel::M => capacity_record(512, 149, 90, 62, 38, 2, 50, 32, 0, 0, 0),
            ECCLevel::Q => capacity_record(384, 111, 67, 46, 28, 2, 50, 24, 0, 0, 0),
            ECCLevel::H => capacity_record(288, 82, 50, 34, 21, 4, 25, 9, 0, 0, 0),
        }
    } else if v == 5 {
        match ecc {
            ECCLevel::L => capacity_record(864, 255, 154, 106, 65, 1, 134, 108, 0, 0, 0),
            ECCLevel::M => capacity_record(688, 202, 122, 84, 52, 2, 67, 43, 0, 0, 0),
            ECCLevel::Q => capacity_record(496, 144, 87, 60, 37, 2, 33, 15, 2, 34, 16),
            ECCLevel::H => capacity_record(368, 106, 64, 44, 27, 2, 33, 11, 2, 34, 12),
        }
    } else if v == 6 {
        match ecc {
            ECCLevel::L => capacity_record(1088, 322, 195, 134, 82, 2, 86, 68, 0, 0, 0),
            ECCLevel::M => capacity_record(864, 255, 154, 106, 65, 4, 43, 27, 0, 0, 0),
            ECCLevel::Q => capacity_record(608, 178, 108, 74, 45, 4, 43, 19, 0, 0, 0),
            ECCLevel::H => capacity_record(480, 139, 84, 58, 36, 4, 43, 15, 0, 0, 0),
        }
    } else if v == 7 {
        match ecc {
            ECCLevel::L => capacity_record(1248, 370, 224, 154, 95, 2, 98, 78, 0, 0, 0),
            ECCLevel::M => capacity_record(992, 293, 178, 122, 75, 4, 49, 31, 0, 0, 0),
            ECCLevel::Q => capacity_record(704, 207, 125, 86, 53, 2, 32, 14, 4, 33, 15),
            ECCLevel::H => capacity_record(528, 154, 93, 64, 39, 4, 39, 13, 1, 40, 14),
        }
    } else if v == 8 {
        match ecc {
            ECCLevel::L => capacity_record(1552, 461, 279, 192, 118, 2, 121, 97, 0, 0, 0),
            ECCLevel::M => capacity_record(1232, 365, 221, 152, 93, 2, 60, 38, 2, 61, 39),
            ECCLevel::Q => capacity_record(880, 259, 157, 108, 66, 4, 40, 18, 2, 41, 19),
            ECCLevel::H => capacity_record(688, 202, 122, 84, 52, 4, 40, 14, 2, 41, 15),
        }
    } else if v == 9 {
        match ecc {
            ECCLevel::L => capacity_record(1856, 552, 335, 230, 141, 2, 146, 116, 0, 0, 0),
            ECCLevel::M => capacity_record(1456, 432, 262, 180, 111, 3, 58, 36, 2, 59, 37),
            ECCLevel::Q => capacity_record(1056, 312, 189, 130, 80, 4, 36, 16, 4, 37, 17),
            ECCLevel::H => capacity_record(800, 235, 143, 98, 60, 4, 36, 12, 4, 37, 13),
        }
    } else if v == 10 {
        match ecc {
            ECCLevel::L => capacity_record(2192, 652, 395, 271, 167, 2, 86, 68, 2, 87, 69),
            ECCLevel::M => capacity_record(1728, 513, 311, 213, 131, 4, 69, 43, 1, 70, 44),
            ECCLevel::Q => capacity_record(1232, 364, 221, 151, 93, 6, 43, 19, 2, 44, 20),
            ECCLevel::H => capacity_record(976, 288, 174, 119, 74, 6, 43, 15, 2, 44, 16),
        }
    } else if v == 11 {
        match ecc {
            ECCLevel::L => capacity_record(2592, 772, 468, 321, 198, 4, 101, 81, 0, 0, 0),
            ECCLevel::M => capacity_record(2032, 604, 366, 251, 155, 1, 80, 50, 4, 81, 51),
            ECCLevel::Q => capacity_record(1440, 427, 259, 177, 109, 4, 50, 22, 4, 51, 23),
            ECCLevel::H => capacity_record(1120, 331, 200, 137, 85, 3, 36, 12, 8, 37, 13),
        }
    } else if v == 12 {
        match ecc {
            ECCLevel::L => capacity_record(2960, 883, 535, 367, 226, 2, 116, 92, 2, 117, 93),
            ECCLevel::M => capacity_record(2320, 691, 419, 287, 177, 6, 58, 36, 2, 59, 37),
            ECCLevel::Q => capacity_record(1648, 489, 296, 203, 125, 4, 46, 20, 6, 47, 21),
            ECCLevel::H => capacity_record(1264, 374, 227, 155, 96, 7, 42, 14, 4, 43, 15),
        }
    } else if v == 13 {
        match ecc {
            ECCLevel::L => capacity_record(3424, 1022, 619, 425, 262, 4, 133, 107, 0, 0, 0),
            ECCLevel::M => capacity_record(2672, 796, 483, 331, 204, 8, 59, 37, 1, 60, 38),
            ECCLevel::Q => capacity_record(1952, 580, 352, 241, 149, 8, 44, 20, 4, 45, 21),
            ECCLevel::H => capacity_record(1440, 427, 259, 177, 109, 12, 33, 11, 4, 34, 12),
        }
    } else if v == 14 {
        match ecc {
            ECCLevel::L => capacity_record(3688, 1101, 667, 458, 282, 3, 145, 115, 1, 146, 116),
            ECCLevel::M => capacity_record(2920, 871, 528, 362, 223, 4, 64, 40, 5, 65, 41),
            ECCLevel::Q => capacity_record(2088, 621, 376, 258, 159, 11, 36, 16, 5, 37, 17),
            ECCLevel::H => capacity_record(1576, 468, 283, 194, 120, 11, 36, 12, 5, 37, 13),
        }
    } else if v == 15 {
        match ecc {
            ECCLevel::L => capacity_record(4184, 1250, 758, 520, 320, 5, 109, 87, 1, 110, 88),
            ECCLevel::M => capacity_record(3320, 991, 600, 412, 254, 5, 65, 41, 5, 66, 42),
            ECCLevel::Q => capacity_record(2360, 703, 426, 292, 180, 5, 54, 24, 7, 55, 25),
            ECCLevel::H => capacity_record(1784, 530, 321, 220, 136, 11, 36, 12, 7, 37, 13),
        }
    } else if v == 16 {
        match ecc {
            ECCLevel::L => capacity_record(4712, 1408, 854, 586, 361, 5, 122, 98, 1, 123, 99),
            ECCLevel::M => capacity_record(3624, 1082, 656, 450, 277, 7, 73, 45, 3, 74, 46),
            ECCLevel::Q => capacity_record(2600, 775, 470, 322, 198, 15, 43, 19, 2, 44, 20),
            ECCLevel::H => capacity_record(2024, 602, 365, 250, 154, 3, 45, 15, 13, 46, 16),
        }
    } else if v == 17 {
        match ecc {
            ECCLevel::L => capacity_record(5176, 1548, 938, 644, 397, 1, 135, 107, 5, 136, 108),
            ECCLevel::M => capacity_record(4056, 1212, 734, 504, 310, 10, 74, 46, 1, 75, 47),
            ECCLevel::Q => capacity_record(2936, 876, 531, 364, 224, 1, 50, 22, 15, 51, 23),
            ECCLevel::H => capacity_record(2264, 674, 408, 280, 173, 2, 42, 14, 17, 43, 15),
        }
    } else if v == 18 {
        match ecc {
            ECCLevel::L => capacity_record(5768, 1725, 1046, 718, 442, 5, 150, 120, 1, 151, 121),
            ECCLevel::M => capacity_record(4504, 1346, 816, 560, 345, 9, 69, 43, 4, 70, 44),
            ECCLevel::Q => capacity_record(3176, 948, 574, 394, 243, 17, 50, 22, 1, 51, 23),
            ECCLevel::H => capacity_record(2504, 746, 452, 310, 191, 2, 42, 14, 19, 43, 15),
        }
    } else if v == 19 {
        match ecc {
            ECCLevel::L => capacity_record(6360, 1903, 1153, 792, 488, 3, 141, 113, 4, 142, 114),
            ECCLevel::M => capacity_record(5016, 1500, 909, 624, 384, 3, 70, 44, 11, 71, 45),
            ECCLevel::Q => capacity_record(3560, 1063, 644, 442, 272, 17, 47, 21, 4, 48, 22),
            ECCLevel::H => capacity_record(2728, 813, 493, 338, 208, 9, 39, 13, 16, 40, 14),
        }
    } else if v == 20 {
        match ecc {
            ECCLevel::L => capacity_record(6888, 2061, 1249, 858, 528, 3, 135, 107, 5, 136, 108),
            ECCLevel::M => capacity_record(5352, 1600, 970, 666, 410, 3, 67, 41, 13, 68, 42),
            ECCLevel::Q => capacity_record(3880, 1159, 702, 482, 297, 15, 54, 24, 5, 55, 25),
            ECCLevel::H => capacity_record(3080, 919, 557, 382, 235, 15, 43, 15, 10, 44, 16),
        }
    } else if v == 21 {
        match ecc {
            ECCLevel::L => capacity_record(7456, 2232, 1352, 929, 572, 4, 144, 116, 4, 145, 117),
            ECCLevel::M => capacity_record(5712, 1708, 1035, 711, 438, 17, 68, 42, 0, 0, 0),
            ECCLevel::Q => capacity_record(4096, 1224, 742, 509, 314, 17, 50, 22, 6, 51, 23),
            ECCLevel::H => capacity_record(3248, 969, 587, 403, 248, 19, 46, 16, 6, 47, 17),
        }
    } else if v == 22 {
        match ecc {
            ECCLevel::L => capacity_record(8048, 2409, 1460, 1003, 618, 2, 139, 111, 7, 140, 112),
            ECCLevel::M => capacity_record(6256, 1872, 1134, 779, 480, 17, 74, 46, 0, 0, 0),
            ECCLevel::Q => capacity_record(4544, 1358, 823, 565, 348, 7, 54, 24, 16, 55, 25),
            ECCLevel::H => capacity_record(3536, 1056, 640, 439, 270, 34, 37, 13, 0, 0, 0),
        }
    } else if v == 23 {
        match ecc {
            ECCLevel::L => capacity_record(8752, 2620, 1588, 1091, 672, 4, 151, 121, 5, 152, 122),
            ECCLevel::M => capacity_record(6880, 2059, 1248, 857, 528, 4, 75, 47, 14, 76, 48),
            ECCLevel::Q => capacity_record(4912, 1468, 890, 611, 376, 11, 54, 24, 14, 55, 25),
            ECCLevel::H => capacity_record(3712, 1108, 672, 461, 284, 16, 45, 15, 14, 46, 16),
        }
    } else if v == 24 {
        match ecc {
            ECCLevel::L => capacity_record(9392, 2812, 1704, 1171, 721, 6, 147, 117, 4, 148, 118),
            ECCLevel::M => capacity_record(7312, 2188, 1326, 911, 561, 6, 73, 45, 14, 74, 46),
            ECCLevel::Q => capacity_record(5312, 1588, 963, 661, 407, 11, 54, 24, 16, 55, 25),
            ECCLevel::H => capacity_record(4112, 1228, 744, 511, 315, 30, 46, 16, 2, 47, 17),
        }
    } else if v == 25 {
        match ecc {
            ECCLevel::L => capacity_record(10208, 3057, 1853, 1273, 784, 8, 132, 106, 4, 133, 107),
            ECCLevel::M => capacity_record(8000, 2395, 1451, 997, 614, 8, 75, 47, 13, 76, 48),
            ECCLevel::Q => capacity_record(5744, 1718, 1041, 715, 440, 7, 54, 24, 22, 55, 25),
            ECCLevel::H => capacity_record(4304, 1286, 779, 535, 330, 22, 45, 15, 13, 46, 16),
        }
    } else if v == 26 {
        match ecc {
            ECCLevel::L => capacity_record(10960, 3283, 1990, 1367, 842, 10, 142, 114, 2, 143, 115),
            ECCLevel::M => capacity_record(8496, 2544, 1542, 1059, 652, 19, 74, 46, 4, 75, 47),
            ECCLevel::Q => capacity_record(6032, 1804, 1094, 751, 462, 28, 50, 22, 6, 51, 23),
            ECCLevel::H => capacity_record(4768, 1425, 864, 593, 365, 33, 46, 16, 4, 47, 17),
        }
    } else if v == 27 {
        match ecc {
            ECCLevel::L => capacity_record(11744, 3517, 2132, 1465, 902, 8, 152, 122, 4, 153, 123),
            ECCLevel::M => capacity_record(9024, 2701, 1637, 1125, 692, 22, 73, 45, 3, 74, 46),
            ECCLevel::Q => capacity_record(6464, 1933, 1172, 805, 496, 8, 53, 23, 26, 54, 24),
            ECCLevel::H => capacity_record(5024, 1501, 910, 625, 385, 12, 45, 15, 28, 46, 16),
        }
    } else if v == 28 {
        match ecc {
            ECCLevel::L => capacity_record(12248, 3669, 2223, 1528, 940, 3, 147, 117, 10, 148, 118),
            ECCLevel::M => capacity_record(9544, 2857, 1732, 1190, 732, 3, 73, 45, 23, 74, 46),
            ECCLevel::Q => capacity_record(6968, 2085, 1263, 868, 534, 4, 54, 24, 31, 55, 25),
            ECCLevel::H => capacity_record(5288, 1581, 958, 658, 405, 11, 45, 15, 31, 46, 16),
        }
    } else if v == 29 {
        match ecc {
            ECCLevel::L => capacity_record(13048, 3909, 2369, 1628, 1002, 7, 146, 116, 7, 147, 117),
            ECCLevel::M => capacity_record(10136, 3035, 1839, 1264, 778, 21, 73, 45, 7, 74, 46),
            ECCLevel::Q => capacity_record(7288, 2181, 1322, 908, 559, 1, 53, 23, 37, 54, 24),
            ECCLevel::H => capacity_record(5608, 1677, 1016, 698, 430, 19, 45, 15, 26, 46, 16),
        }
    } else if v == 30 {
        match ecc {
            ECCLevel::L => capacity_record(13880, 4158, 2520, 1732, 1066, 5, 145, 115, 10, 146, 116),
            ECCLevel::M => capacity_record(10984, 3289, 1994, 1370, 843, 19, 75, 47, 10, 76, 48),
            ECCLevel::Q => capacity_record(7880, 2358, 1429, 982, 604, 15, 54, 24, 25, 55, 25),
            ECCLevel::H => capacity_record(5960, 1782, 1080, 742, 457, 23, 45, 15, 25, 46, 16),
        }
    } else if v == 31 {
        match ecc {
            ECCLevel::L => capacity_record(14744, 4417, 2677, 1840, 1132, 13, 145, 115, 3, 146, 116),
            ECCLevel::M => capacity_record(11640, 3486, 2113, 1452, 894, 2, 74, 46, 29, 75, 47),
            ECCLevel::Q => capacity_record(8264, 2473, 1499, 1030, 634, 42, 54, 24, 1, 55, 25),
            ECCLevel::H => capacity_record(6344, 1897, 1150, 790, 486, 23, 45, 15, 28, 46, 16),
        }
    } else if v == 32 {
        match ecc {
            ECCLevel::L => capacity_record(15640, 4686, 2840, 1952, 1201, 17, 145, 115, 0, 0, 0),
            ECCLevel::M => capacity_record(12328, 3693, 2238, 1538, 947, 10, 74, 46, 23, 75, 47),
            ECCLevel::Q => capacity_record(8920, 2670, 1618, 1112, 684, 10, 54, 24, 35, 55, 25),
            ECCLevel::H => capacity_record(6760, 2022, 1226, 842, 518, 19, 45, 15, 35, 46, 16),
        }
    } else if v == 33 {
        match ecc {
            ECCLevel::L => capacity_record(16568, 4965, 3009, 2068, 1273, 17, 145, 115, 1, 146, 116),
            ECCLevel::M => capacity_record(13048, 3909, 2369, 1628, 1002, 14, 74, 46, 21, 75, 47),
            ECCLevel::Q => capacity_record(9368, 2805, 1700, 1168, 719, 29, 54, 24, 19, 55, 25),
            ECCLevel::H => capacity_record(7208, 2157, 1307, 898, 553, 11, 45, 15, 46, 46, 16),
        }
    } else if v == 34 {
        match ecc {
            ECCLevel::L => capacity_record(17528, 5253, 3183, 2188, 1347, 13, 145, 115, 6, 146, 116),
            ECCLevel::M => capacity_record(13800, 4134, 2506, 1722, 1060, 14, 74, 46, 23, 75, 47),
            ECCLevel::Q => capacity_record(9848, 2949, 1787, 1228, 756, 44, 54, 24, 7, 55, 25),
            ECCLevel::H => capacity_record(7688, 2301, 1394, 958, 590, 59, 46, 16, 1, 47, 17),
        }
    } else if v == 35 {
        match ecc {
            ECCLevel::L => capacity_record(18448, 5529, 3351, 2303, 1417, 12, 151, 121, 7, 152, 122),
            ECCLevel::M => capacity_record(14496, 4343, 2632, 1809, 1113, 12, 75, 47, 26, 76, 48),
            ECCLevel::Q => capacity_record(10288, 3081, 1867, 1283, 790, 39, 54, 24, 14, 55, 25),
            ECCLevel::H => capacity_record(7888, 2361, 1431, 983, 605, 22, 45, 15, 41, 46, 16),
        }
    } else if v == 36 {
        match ecc {
            ECCLevel::L => capacity_record(19472, 5836, 3537, 2431, 1496, 6, 151, 121, 14, 152, 122),
            ECCLevel::M => capacity_record(15312, 4588, 2780, 1911, 1176, 6, 75, 47, 34, 76, 48),
            ECCLevel::Q => capacity_record(10832, 3244, 1966, 1351, 832, 46, 54, 24, 10, 55, 25),
            ECCLevel::H => capacity_record(8432, 2524, 1530, 1051, 647, 2, 45, 15, 64, 46, 16),
        }
    } else if v == 37 {
        match ecc {
            ECCLevel::L => capacity_record(20528, 6153, 3729, 2563, 1577, 17, 152, 122, 4, 153, 123),
            ECCLevel::M => capacity_record(15936, 4775, 2894, 1989, 1224, 29, 74, 46, 14, 75, 47),
            ECCLevel::Q => capacity_record(11408, 3417, 2071, 1423, 876, 49, 54, 24, 10, 55, 25),
            ECCLevel::H => capacity_record(8768, 2625, 1591, 1093, 673, 24, 45, 15, 46, 46, 16),
        }
    } else if v == 38 {
        match ecc {
            ECCLevel::L => capacity_record(21616, 6479, 3927, 2699, 1661, 4, 152, 122, 18, 153, 123),
            ECCLevel::M => capacity_record(16816, 5039, 3054, 2099, 1292, 13, 74, 46, 32, 75, 47),
            ECCLevel::Q => capacity_record(12016, 3599, 2181, 1499, 923, 48, 54, 24, 14, 55, 25),
            ECCLevel::H => capacity_record(9136, 2735, 1658, 1139, 701, 42, 45, 15, 32, 46, 16),
        }
    } else if v == 39 {
        match ecc {
            ECCLevel::L => capacity_record(22496, 6743, 4087, 2809, 1729, 20, 147, 117, 4, 148, 118),
            ECCLevel::M => capacity_record(17728, 5313, 3220, 2213, 1362, 40, 75, 47, 7, 76, 48),
            ECCLevel::Q => capacity_record(12656, 3791, 2298, 1579, 972, 43, 54, 24, 22, 55, 25),
            ECCLevel::H => capacity_record(9776, 2927, 1774, 1219, 750, 10, 45, 15, 67, 46, 16),
        }
    } else if v == 40 {
        match ecc {
            ECCLevel::L => capacity_record(23648, 7089, 4296, 2953, 1817, 19, 148, 118, 6, 149, 119),
            ECCLevel::M => capacity_record(18672, 5596, 3391, 2331, 1435, 18, 75, 47, 31, 76, 48),
            ECCLevel::Q => capacity_record(13328, 3993, 2420, 1663, 1024, 34, 54, 24, 34, 55, 25),
            ECCLevel::H => capacity_record(10208, 3057, 1852, 1273, 784, 20, 45, 15, 61, 46, 16),
        }
    } else {
        capacity_record(0, 0, 0, 0, 0, 0, 0, 0, 0, 0, 0)
    }
}

/// The capacity record of a symbol configuration.
pub open spec fn capacity(s: Size, ecc: ECCLevel) -> SymbolCapacity {
    match s {
        Size::Micro(v) => micro_capacity(v, ecc),
        Size::Standard(v) => standard_capacity(v, ecc),
    }
}

fn lookup_micro(v: u8, ecc: ECCLevel) -> (c: SymbolCapacity)
    ensures
        c == micro_capacity(v, ecc),
{
    reveal(micro_capacity);
    if v == 1 {
        match ecc {
            ECCLevel::L => SymbolCapacity::new(20, 5, 0, 0, 0, 1, 5, 3, 0, 0, 0),
            _ => SymbolCapacity::new(0, 0, 0, 0, 0, 0, 0, 0, 0, 0, 0),
        }
    } else if v == 2 {
        match ecc {
            ECCLevel::L => SymbolCapacity::new(40, 10, 6, 0, 0, 1, 10, 5, 0, 0, 0),
            ECCLevel::M => SymbolCapacity::new(32, 8, 5, 0, 0, 1, 10, 4, 0, 0, 0),
            _ => SymbolCapacity::new(0, 0, 0, 0, 0, 0, 0, 0, 0, 0, 0),
        }
    } else if v == 3 {
        match ecc {
            ECCLevel::L => SymbolCapacity::new(84, 23, 14, 9, 6, 1, 17, 11, 0, 0, 0),
            ECCLevel::M => SymbolCapacity::new(68, 18, 11, 7, 4, 1, 17, 9, 0, 0, 0),
            _ => SymbolCapacity::new(0, 0, 0, 0, 0, 0, 0, 0, 0, 0, 0),
        }
    } else if v == 4 {
        match ecc {
            ECCLevel::L => SymbolCapacity::new(128, 35, 21, 15, 9, 1, 24, 16, 0, 0, 0),
            ECCLevel::M => SymbolCapacity::new(112, 30, 18, 13, 8, 1, 24, 14, 0, 0, 0),
            ECCLevel::Q => SymbolCapacity::new(80, 21, 13, 9, 4, 1, 24, 10, 0, 0, 0),
            _ => SymbolCapacity::new(0, 0, 0, 0, 0, 0, 0, 0, 0, 0, 0),
        }
    } else {
        SymbolCapacity::new(0, 0, 0, 0, 0, 0, 0, 0, 0, 0, 0)
    }
}

fn lookup_standard_low(v: u8, ecc: ECCLevel) -> (c: SymbolCapacity)
    requires
        v <= 20,
    ensures
        c == standard_capacity(v, ecc),
{
    reveal(standard_capacity);
    if v == 1 {
        match ecc {
            ECCLevel::L => SymbolCapacity::new(152, 41, 25, 17, 10, 1, 26, 19, 0, 0, 0),
            ECCLevel::M => SymbolCapacity::new(128, 34, 20, 14, 8, 1, 26, 16, 0, 0, 0),
            ECCLevel::Q => SymbolCapacity::new(104, 27, 16, 11, 7, 1, 26, 13, 0, 0, 0),
            ECCLevel::H => SymbolCapacity::new(72, 17, 10, 7, 4, 1, 26, 9, 0, 0, 0),
        }
    } else if v == 2 {
        match ecc {
            ECCLevel::L => SymbolCapacity::new(272, 77, 47, 32, 20, 1, 44, 34, 0, 0, 0),
            ECCLevel::M => SymbolCapacity::new(224, 63, 38, 26, 16, 1, 44, 28, 0, 0, 0),
            ECCLevel::Q => SymbolCapacity::new(176, 48, 29, 20, 12, 1, 44, 22, 0, 0, 0),
            ECCLevel::H => SymbolCapacity::new(128, 34, 20, 14, 8, 1, 44, 16, 0, 0, 0),
        }
    } else if v == 3 {
        match ecc {
            ECCLevel::L => SymbolCapacity::new(440, 127, 77, 53, 32, 1, 70, 55, 0, 0, 0),
            ECCLevel::M => SymbolCapacity::new(352, 101, 61, 42, 26, 1, 70, 44, 0, 0, 0),
            ECCLevel::Q => SymbolCapacity::new(272, 77, 47, 32, 20, 2, 35, 17, 0, 0, 0),
            ECCLevel::H => SymbolCapacity::new(208, 58, 35, 24, 15, 2, 35, 13, 0, 0, 0),
        }
    } else if v == 4 {
        match ecc {
            ECCLevel::L => SymbolCapacity::new(640, 187, 114, 78, 48, 1, 100, 80, 0, 0, 0),
            ECCLevel::M => SymbolCapacity::new(512, 149, 90, 62, 38, 2, 50, 32, 0, 0, 0),
            ECCLevel::Q => SymbolCapacity::new(384, 111, 67, 46, 28, 2, 50, 24, 0, 0, 0),
            ECCLevel::H => SymbolCapacity::new(288, 82, 50, 34, 21, 4, 25, 9, 0, 0, 0),
        }
    } else if v == 5 {
        match ecc {
            ECCLevel::L => SymbolCapacity::new(864, 255, 154, 106, 65, 1, 134, 108, 0, 0, 0),
            ECCLevel::M => SymbolCapacity::new(688, 202, 122, 84, 52, 2, 67, 43, 0, 0, 0),
            ECCLevel::Q => SymbolCapacity::new(496, 144, 87, 60, 37, 2, 33, 15, 2, 34, 16),
            ECCLevel::H => SymbolCapacity::new(368, 106, 64, 44, 27, 2, 33, 11, 2, 34, 12),
        }
    } else if v == 6 {
        match ecc {
            ECCLevel::L => SymbolCapacity::new(1088, 322, 195, 134, 82, 2, 86, 68, 0, 0, 0),
            ECCLevel::M => SymbolCapacity::new(864, 255, 154, 106, 65, 4, 43, 27, 0, 0, 0),
            ECCLevel::Q => SymbolCapacity::new(608, 178, 108, 74, 45, 4, 43, 19, 0, 0, 0),
            ECCLevel::H => SymbolCapacity::new(480, 139, 84, 58, 36, 4, 43, 15, 0, 0, 0),
        }
    } else if v == 7 {
        match ecc {
            ECCLevel::L => SymbolCapacity::new(1248, 370, 224, 154, 95, 2, 98, 78, 0, 0, 0),
            ECCLevel::M => SymbolCapacity::new(992, 293, 178, 122, 75, 4, 49, 31, 0, 0, 0),
            ECCLevel::Q => SymbolCapacity::new(704, 207, 125, 86, 53, 2, 32, 14, 4, 33, 15),
            ECCLevel::H => SymbolCapacity::new(528, 154, 93, 64, 39, 4, 39, 13, 1, 40, 14),
        }
    } else if v == 8 {
        match ecc {
            ECCLevel::L => SymbolCapacity::new(1552, 461, 279, 192, 118, 2, 121, 97, 0, 0, 0),
            ECCLevel::M => SymbolCapacity::new(1232, 365, 221, 152, 93, 2, 60, 38, 2, 61, 39),
            ECCLevel::Q => SymbolCapacity::new(880, 259, 157, 108, 66, 4, 40, 18, 2, 41, 19),
            ECCLevel::H => SymbolCapacity::new(688, 202, 122, 84, 52, 4, 40, 14, 2, 41, 15),
        }
    } else if v == 9 {
        match ecc {
            ECCLevel::L => SymbolCapacity::new(1856, 552, 335, 230, 141, 2, 146, 116, 0, 0, 0),
            ECCLevel::M => SymbolCapacity::new(1456, 432, 262, 180, 111, 3, 58, 36, 2, 59, 37),
            ECCLevel::Q => SymbolCapacity::new(1056, 312, 189, 130, 80, 4, 36, 16, 4, 37, 17),
            ECCLevel::H => SymbolCapacity::new(800, 235, 143, 98, 60, 4, 36, 12, 4, 37, 13),
        }
    } else if v == 10 {
        match ecc {
            ECCLevel::L => SymbolCapacity::new(2192, 652, 395, 271, 167, 2, 86, 68, 2, 87, 69),
            ECCLevel::M => SymbolCapacity::new(1728, 513, 311, 213, 131, 4, 69, 43, 1, 70, 44),
            ECCLevel::Q => SymbolCapacity::new(1232, 364, 221, 151, 93, 6, 43, 19, 2, 44, 20),
            ECCLevel::H => SymbolCapacity::new(976, 288, 174, 119, 74, 6, 43, 15, 2, 44, 16),
        }
    } else if v == 11 {
        match ecc {
            ECCLevel::L => SymbolCapacity::new(2592, 772, 468, 321, 198, 4, 101, 81, 0, 0, 0),
            ECCLevel::M => SymbolCapacity::new(2032, 604, 366, 251, 155, 1, 80, 50, 4, 81, 51),
            ECCLevel::Q => SymbolCapacity::new(1440, 427, 259, 177, 109, 4, 50, 22, 4, 51, 23),
            ECCLevel::H => SymbolCapacity::new(1120, 331, 200, 137, 85, 3, 36, 12, 8, 37, 13),
        }
    } else if v == 12 {
        match ecc {
            ECCLevel::L => SymbolCapacity::new(2960, 883, 535, 367, 226, 2, 116, 92, 2, 117, 93),
            ECCLevel::M => SymbolCapacity::new(2320, 691, 419, 287, 177, 6, 58, 36, 2, 59, 37),
            ECCLevel::Q => SymbolCapacity::new(1648, 489, 296, 203, 125, 4, 46, 20, 6, 47, 21),
            ECCLevel::H => SymbolCapacity::new(1264, 374, 227, 155, 96, 7, 42, 14, 4, 43, 15),
        }
    } else if v == 13 {
        match ecc {
            ECCLevel::L => SymbolCapacity::new(3424, 1022, 619, 425, 262, 4, 133, 107, 0, 0, 0),
            ECCLevel::M => SymbolCapacity::new(2672, 796, 483, 331, 204, 8, 59, 37, 1, 60, 38),
            ECCLevel::Q => SymbolCapacity::new(1952, 580, 352, 241, 149, 8, 44, 20, 4, 45, 21),
            ECCLevel::H => SymbolCapacity::new(1440, 427, 259, 177, 109, 12, 33, 11, 4, 34, 12),
        }
    } else if v == 14 {
        match ecc {
            ECCLevel::L => SymbolCapacity::new(3688, 1101, 667, 458, 282, 3, 145, 115, 1, 146, 116),
            ECCLevel::M => SymbolCapacity::new(2920, 871, 528, 362, 223, 4, 64, 40, 5, 65, 41),
            ECCLevel::Q => SymbolCapacity::new(2088, 621, 376, 258, 159, 11, 36, 16, 5, 37, 17),
            ECCLevel::H => SymbolCapacity::new(1576, 468, 283, 194, 120, 11, 36, 12, 5, 37, 13),
        }
    } else if v == 15 {
        match ecc {
            ECCLevel::L => SymbolCapacity::new(4184, 1250, 758, 520, 320, 5, 109, 87, 1, 110, 88),
            ECCLevel::M => SymbolCapacity::new(3320, 991, 600, 412, 254, 5, 65, 41, 5, 66, 42),
            ECCLevel::Q => SymbolCapacity::new(2360, 703, 426, 292, 180, 5, 54, 24, 7, 55, 25),
            ECCLevel::H => SymbolCapacity::new(1784, 530, 321, 220, 136, 11, 36, 12, 7, 37, 13),
        }
    } else if v == 16 {
        match ecc {
            ECCLevel::L => SymbolCapacity::new(4712, 1408, 854, 586, 361, 5, 122, 98, 1, 123, 99),
            ECCLevel::M => SymbolCapacity::new(3624, 1082, 656, 450, 277, 7, 73, 45, 3, 74, 46),
            ECCLevel::Q => SymbolCapacity::new(2600, 775, 470, 322, 198, 15, 43, 19, 2, 44, 20),
            ECCLevel::H => SymbolCapacity::new(2024, 602, 365, 250, 154, 3, 45, 15, 13, 46, 16),
        }
    } else if v == 17 {
        match ecc {
            ECCLevel::L => SymbolCapacity::new(5176, 1548, 938, 644, 397, 1, 135, 107, 5, 136, 108),
            ECCLevel::M => SymbolCapacity::new(4056, 1212, 734, 504, 310, 10, 74, 46, 1, 75, 47),
            ECCLevel::Q => SymbolCapacity::new(2936, 876, 531, 364, 224, 1, 50, 22, 15, 51, 23),
            ECCLevel::H => SymbolCapacity::new(2264, 674, 408, 280, 173, 2, 42, 14, 17, 43, 15),
        }
    } else if v == 18 {
        match ecc {
            ECCLevel::L => SymbolCapacity::new(5768, 1725, 1046, 718, 442, 5, 150, 120, 1, 151, 121),
            ECCLevel::M => SymbolCapacity::new(4504, 1346, 816, 560, 345, 9, 69, 43, 4, 70, 44),
            ECCLevel::Q => SymbolCapacity::new(3176, 948, 574, 394, 243, 17, 50, 22, 1, 51, 23),
            ECCLevel::H => SymbolCapacity::new(2504, 746, 452, 310, 191, 2, 42, 14, 19, 43, 15),
        }
    } else if v == 19 {
        match ecc {
            ECCLevel::L => SymbolCapacity::new(6360, 1903, 1153, 792, 488, 3, 141, 113, 4, 142, 114),
            ECCLevel::M => SymbolCapacity::new(5016, 1500, 909, 624, 384, 3, 70, 44, 11, 71, 45),
            ECCLevel::Q => SymbolCapacity::new(3560, 1063, 644, 442, 272, 17, 47, 21, 4, 48, 22),
            ECCLevel::H => SymbolCapacity::new(2728, 813, 493, 338, 208, 9, 39, 13, 16, 40, 14),
        }
    } else if v == 20 {
        match ecc {
            ECCLevel::L => SymbolCapacity::new(6888, 2061, 1249, 858, 528, 3, 135, 107, 5, 136, 108),
            ECCLevel::M => SymbolCapacity::new(5352, 1600, 970, 666, 410, 3, 67, 41, 13, 68, 42),
            ECCLevel::Q => SymbolCapacity::new(3880, 1159, 702, 482, 297, 15, 54, 24, 5, 55, 25),
            ECCLevel::H => SymbolCapacity::new(3080, 919, 557, 382, 235, 15, 43, 15, 10, 44, 16),
        }
    } else {
        SymbolCapacity::new(0, 0, 0, 0, 0, 0, 0, 0, 0, 0, 0)
    }
}

fn lookup_standard_high(v: u8, ecc: ECCLevel) -> (c: SymbolCapacity)
    requires
        v > 20,
    ensures
        c == standard_capacity(v, ecc),
{
    reveal(standard_capacity);
    if v == 21 {
        match ecc {
            ECCLevel::L => SymbolCapacity::new(7456, 2232, 1352, 929, 572, 4, 144, 116, 4, 145, 117),
            ECCLevel::M => SymbolCapacity::new(5712, 1708, 1035, 711, 438, 17, 68, 42, 0, 0, 0),
            ECCLevel::Q => SymbolCapacity::new(4096, 1224, 742, 509, 314, 17, 50, 22, 6, 51, 23),
            ECCLevel::H => SymbolCapacity::new(3248, 969, 587, 403, 248, 19, 46, 16, 6, 47, 17),
        }
    } else if v == 22 {
        match ecc {
            ECCLevel::L => SymbolCapacity::new(8048, 2409, 1460, 1003, 618, 2, 139, 111, 7, 140, 112),
            ECCLevel::M => SymbolCapacity::new(6256, 1872, 1134, 779, 480, 17, 74, 46, 0, 0, 0),
            ECCLevel::Q => SymbolCapacity::new(4544, 1358, 823, 565, 348, 7, 54, 24, 16, 55, 25),
            ECCLevel::H => SymbolCapacity::new(3536, 1056, 640, 439, 270, 34, 37, 13, 0, 0, 0),
        }
    } else if v == 23 {
        match ecc {
            ECCLevel::L => SymbolCapacity::new(8752, 2620, 1588, 1091, 672, 4, 151, 121, 5, 152, 122),
            ECCLevel::M => SymbolCapacity::new(6880, 2059, 1248, 857, 528, 4, 75, 47, 14, 76, 48),
            ECCLevel::Q => SymbolCapacity::new(4912, 1468, 890, 611, 376, 11, 54, 24, 14, 55, 25),
            ECCLevel::H => SymbolCapacity::new(3712, 1108, 672, 461, 284, 16, 45, 15, 14, 46, 16),
        }
    } else if v == 24 {
        match ecc {
            ECCLevel::L => SymbolCapacity::new(9392, 2812, 1704, 1171, 721, 6, 147, 117, 4, 148, 118),
            ECCLevel::M => SymbolCapacity::new(7312, 2188, 1326, 911, 561, 6, 73, 45, 14, 74, 46),
            ECCLevel::Q => SymbolCapacity::new(5312, 1588, 963, 661, 407, 11, 54, 24, 16, 55, 25),
            ECCLevel::H => SymbolCapacity::new(4112, 1228, 744, 511, 315, 30, 46, 16, 2, 47, 17),
        }
    } else if v == 25 {
        match ecc {
            ECCLevel::L => SymbolCapacity::new(10208, 3057, 1853, 1273, 784, 8, 132, 106, 4, 133, 107),
            ECCLevel::M => SymbolCapacity::new(8000, 2395, 1451, 997, 614, 8, 75, 47, 13, 76, 48),
            ECCLevel::Q => SymbolCapacity::new(5744, 1718, 1041, 715, 440, 7, 54, 24, 22, 55, 25),
            ECCLevel::H => SymbolCapacity::new(4304, 1286, 779, 535, 330, 22, 45, 15, 13, 46, 16),
        }
    } else if v == 26 {
        match ecc {
            ECCLevel::L => SymbolCapacity::new(10960, 3283, 1990, 1367, 842, 10, 142, 114, 2, 143, 115),
            ECCLevel::M => SymbolCapacity::new(8496, 2544, 1542, 1059, 652, 19, 74, 46, 4, 75, 47),
            ECCLevel::Q => SymbolCapacity::new(6032, 1804, 1094, 751, 462, 28, 50, 22, 6, 51, 23),
            ECCLevel::H => SymbolCapacity::new(4768, 1425, 864, 593, 365, 33, 46, 16, 4, 47, 17),
        }
    } else if v == 27 {
        match ecc {
            ECCLevel::L => SymbolCapacity::new(11744, 3517, 2132, 1465, 902, 8, 152, 122, 4, 153, 123),
            ECCLevel::M => SymbolCapacity::new(9024, 2701, 1637, 1125, 692, 22, 73, 45, 3, 74, 46),
            ECCLevel::Q => SymbolCapacity::new(6464, 1933, 1172, 805, 496, 8, 53, 23, 26, 54, 24),
            ECCLevel::H => SymbolCapacity::new(5024, 1501, 910, 625, 385, 12, 45, 15, 28, 46, 16),
        }
    } else if v == 28 {
        match ecc {
            ECCLevel::L => SymbolCapacity::new(12248, 3669, 2223, 1528, 940, 3, 147, 117, 10, 148, 118),
            ECCLevel::M => SymbolCapacity::new(9544, 2857, 1732, 1190, 732, 3, 73, 45, 23, 74, 46),
            ECCLevel::Q => SymbolCapacity::new(6968, 2085, 1263, 868, 534, 4, 54, 24, 31, 55, 25),
            ECCLevel::H => SymbolCapacity::new(5288, 1581, 958, 658, 405, 11, 45, 15, 31, 46, 16),
        }
    } else if v == 29 {
        match ecc {
            ECCLevel::L => SymbolCapacity::new(13048, 3909, 2369, 1628, 1002, 7, 146, 116, 7, 147, 117),
            ECCLevel::M => SymbolCapacity::new(10136, 3035, 1839, 1264, 778, 21, 73, 45, 7, 74, 46),
            ECCLevel::Q => SymbolCapacity::new(7288, 2181, 1322, 908, 559, 1, 53, 23, 37, 54, 24),
            ECCLevel::H => SymbolCapacity::new(5608, 1677, 1016, 698, 430, 19, 45, 15, 26, 46, 16),
        }
    } else if v == 30 {
        match ecc {
            ECCLevel::L => SymbolCapacity::new(13880, 4158, 2520, 1732, 1066, 5, 145, 115, 10, 146, 116),
            ECCLevel::M => SymbolCapacity::new(10984, 3289, 1994, 1370, 843, 19, 75, 47, 10, 76, 48),
            ECCLevel::Q => SymbolCapacity::new(7880, 2358, 1429, 982, 604, 15, 54, 24, 25, 55, 25),
            ECCLevel::H => SymbolCapacity::new(5960, 1782, 1080, 742, 457, 23, 45, 15, 25, 46, 16),
        }
    } else if v == 31 {
        match ecc {
            ECCLevel::L => SymbolCapacity::new(14744, 4417, 2677, 1840, 1132, 13, 145, 115, 3, 146, 116),
            ECCLevel::M => SymbolCapacity::new(11640, 3486, 2113, 1452, 894, 2, 74, 46, 29, 75, 47),
            ECCLevel::Q => SymbolCapacity::new(8264, 2473, 1499, 1030, 634, 42, 54, 24, 1, 55, 25),
            ECCLevel::H => SymbolCapacity::new(6344, 1897, 1150, 790, 486, 23, 45, 15, 28, 46, 16),
        }
    } else if v == 32 {
        match ecc {
            ECCLevel::L => SymbolCapacity::new(15640, 4686, 2840, 1952, 1201, 17, 145, 115, 0, 0, 0),
            ECCLevel::M => SymbolCapacity::new(12328, 3693, 2238, 1538, 947, 10, 74, 46, 23, 75, 47),
            ECCLevel::Q => SymbolCapacity::new(8920, 2670, 1618, 1112, 684, 10, 54, 24, 35, 55, 25),
            ECCLevel::H => SymbolCapacity::new(6760, 2022, 1226, 842, 518, 19, 45, 15, 35, 46, 16),
        }
    } else if v == 33 {
        match ecc {
            ECCLevel::L => SymbolCapacity::new(16568, 4965, 3009, 2068, 1273, 17, 145, 115, 1, 146, 116),
            ECCLevel::M => SymbolCapacity::new(13048, 3909, 2369, 1628, 1002, 14, 74, 46, 21, 75, 47),
            ECCLevel::Q => SymbolCapacity::new(9368, 2805, 1700, 1168, 719, 29, 54, 24, 19, 55, 25),
            ECCLevel::H => SymbolCapacity::new(7208, 2157, 1307, 898, 553, 11, 45, 15, 46, 46, 16),
        }
    } else if v == 34 {
        match ecc {
            ECCLevel::L => SymbolCapacity::new(17528, 5253, 3183, 2188, 1347, 13, 145, 115, 6, 146, 116),
            ECCLevel::M => SymbolCapacity::new(13800, 4134, 2506, 1722, 1060, 14, 74, 46, 23, 75, 47),
            ECCLevel::Q => SymbolCapacity::new(9848, 2949, 1787, 1228, 756, 44, 54, 24, 7, 55, 25),
            ECCLevel::H => SymbolCapacity::new(7688, 2301, 1394, 958, 590, 59, 46, 16, 1, 47, 17),
        }
    } else if v == 35 {
        match ecc {
            ECCLevel::L => SymbolCapacity::new(18448, 5529, 3351, 2303, 1417, 12, 151, 121, 7, 152, 122),
            ECCLevel::M => SymbolCapacity::new(14496, 4343, 2632, 1809, 1113, 12, 75, 47, 26, 76, 48),
            ECCLevel::Q => SymbolCapacity::new(10288, 3081, 1867, 1283, 790, 39, 54, 24, 14, 55, 25),
            ECCLevel::H => SymbolCapacity::new(7888, 2361, 1431, 983, 605, 22, 45, 15, 41, 46, 16),
        }
    } else if v == 36 {
        match ecc {
            ECCLevel::L => SymbolCapacity::new(19472, 5836, 3537, 2431, 1496, 6, 151, 121, 14, 152, 122),
            ECCLevel::M => SymbolCapacity::new(15312, 4588, 2780, 1911, 1176, 6, 75, 47, 34, 76, 48),
            ECCLevel::Q => SymbolCapacity::new(10832, 3244, 1966, 1351, 832, 46, 54, 24, 10, 55, 25),
            ECCLevel::H => SymbolCapacity::new(8432, 2524, 1530, 1051, 647, 2, 45, 15, 64, 46, 16),
        }
    } else if v == 37 {
        match ecc {
            ECCLevel::L => SymbolCapacity::new(20528, 6153, 3729, 2563, 1577, 17, 152, 122, 4, 153, 123),
            ECCLevel::M => SymbolCapacity::new(15936, 4775, 2894, 1989, 1224, 29, 74, 46, 14, 75, 47),
            ECCLevel::Q => SymbolCapacity::new(11408, 3417, 2071, 1423, 876, 49, 54, 24, 10, 55, 25),
            ECCLevel::H => SymbolCapacity::new(8768, 2625, 1591, 1093, 673, 24, 45, 15, 46, 46, 16),
        }
    } else if v == 38 {
        match ecc {
            ECCLevel::L => SymbolCapacity::new(21616, 6479, 3927, 2699, 1661, 4, 152, 122, 18, 153, 123),
            ECCLevel::M => SymbolCapacity::new(16816, 5039, 3054, 2099, 1292, 13, 74, 46, 32, 75, 47),
            ECCLevel::Q => SymbolCapacity::new(12016, 3599, 2181, 1499, 923, 48, 54, 24, 14, 55, 25),
            ECCLevel::H => SymbolCapacity::new(9136, 2735, 1658, 1139, 701, 42, 45, 15, 32, 46, 16),
        }
    } else if v == 39 {
        match ecc {
            ECCLevel::L => SymbolCapacity::new(22496, 6743, 4087, 2809, 1729, 20, 147, 117, 4, 148, 118),
            ECCLevel::M => SymbolCapacity::new(17728, 5313, 3220, 2213, 1362, 40, 75, 47, 7, 76, 48),
            ECCLevel::Q => SymbolCapacity::new(12656, 3791, 2298, 1579, 972, 43, 54, 24, 22, 55, 25),
            ECCLevel::H => SymbolCapacity::new(9776, 2927, 1774, 1219, 750, 10, 45, 15, 67, 46, 16),
        }
    } else if v == 40 {
        match ecc {
            ECCLevel::L => SymbolCapacity::new(23648, 7089, 4296, 2953, 1817, 19, 148, 118, 6, 149, 119),
            ECCLevel::M => SymbolCapacity::new(18672, 5596, 3391, 2331, 1435, 18, 75, 47, 31, 76, 48),
            ECCLevel::Q => SymbolCapacity::new(13328, 3993, 2420, 1663, 1024, 34, 54, 24, 34, 55, 25),
            ECCLevel::H => SymbolCapacity::new(10208, 3057, 1852, 1273, 784, 20, 45, 15, 61, 46, 16),
        }
    } else {
        SymbolCapacity::new(0, 0, 0, 0, 0, 0, 0, 0, 0, 0, 0)
    }
}

/// Convenience function that just indexes into the static table
pub fn lookup_capacity(s: Size, ecc: ECCLevel) -> (c: SymbolCapacity)
    requires
        ecc.available_in(s),
    ensures
        c == capacity(s, ecc),
{
    match s {
        Size::Micro(v) => lookup_micro(v, ecc),
        Size::Standard(v) => if v <= 20 {
            lookup_standard_low(v, ecc)
        } else {
            lookup_standard_high(v, ecc)
        },
    }
}

/// The number of misdecode protection codewords p of a symbol.
pub open spec fn misdecode_protection(s: Size, ecc: ECCLevel) -> u8 {
    match s {
        Size::Micro(k) => if k == 1 {
            2
        } else if k == 2 {
            if ecc == ECCLevel::L {
                3
            } else {
                2
            }
        } else if k == 3 {
            2
        } else if k == 4 {
            if ecc == ECCLevel::L {
                2
            } else {
                0
            }
        } else {
            0
        },
        Size::Standard(v) => if v == 1 {
            match ecc {
                ECCLevel::L => 3,
                ECCLevel::M => 2,
                _ => 1,
            }
        } else if v == 2 {
            if ecc == ECCLevel::L {
                2
            } else {
                0
            }
        } else if v == 3 {
            if ecc == ECCLevel::L {
                1
            } else {
                0
            }
        } else {
            0
        },
    }
}

/// Returns the number of misdecode protection codewords p
pub fn get_p_for_symbol(s: Size, ecc: ECCLevel) -> (p: u8)
    ensures
        p == misdecode_protection(s, ecc),
{
    // by definition in the standard ISO/IEC 18004:2015
    match s {
        Size::Micro(k) => if k == 1 {
            2
        } else if k == 2 {
            if ecc == ECCLevel::L {
                3
            } else {
                2
            }
        } else if k == 3 {
            2
        } else if k == 4 {
            if ecc == ECCLevel::L {
                2
            } else {
                0
            }
        } else {
            0
        },
        Size::Standard(v) => if v == 1 {
            match ecc {
                ECCLevel::L => 3,
                ECCLevel::M => 2,
                _ => 1,
            }
        } else if v == 2 {
            if ecc == ECCLevel::L {
                2
            } else {
                0
            }
        } else if v == 3 {
            if ecc == ECCLevel::L {
                1
            } else {
                0
            }
        } else {
            0
        },
    }
}

/// The total number of codewords of a symbol of the given size.
pub open spec fn symbol_codewords(s: Size) -> int {
    match s {
        Size::Micro(k) => if k == 1 {
            5
        } else if k == 2 {
            10
        } else if k == 3 {
            17
        } else {
            24
        },
        Size::Standard(v) => if v == 1 {
            26
        } else if v == 2 {
            44
        } else if v == 3 {
            70
        } else if v == 4 {
            100
        } else if v == 5 {
            134
        } else if v == 6 {
            172
        } else if v == 7 {
            196
        } else if v == 8 {
            242
        } else if v == 9 {
            292
        } else if v == 10 {
            346
        } else if v == 11 {
            404
        } else if v == 12 {
            466
        } else if v == 13 {
            532
        } else if v == 14 {
            581
        } else if v == 15 {
            655
        } else if v == 16 {
            733
        } else if v == 17 {
            815
        } else if v == 18 {
            901
        } else if v == 19 {
            991
        } else if v == 20 {
            1085
        } else if v == 21 {
            1156
        } else if v == 22 {
            1258
        } else if v == 23 {
            1364
        } else if v == 24 {
            1474
        } else if v == 25 {
            1588
        } else if v == 26 {
            1706
        } else if v == 27 {
            1828
        } else if v == 28 {
            1921
        } else if v == 29 {
            2051
        } else if v == 30 {
            2185
        } else if v == 31 {
            2323
        } else if v == 32 {
            2465
        } else if v == 33 {
            2611
        } else if v == 34 {
            2761
        } else if v == 35 {
            2876
        } else if v == 36 {
            3034
        } else if v == 37 {
            3196
        } else if v == 38 {
            3362
        } else if v == 39 {
            3532
        } else {
            3706
        },
    }
}

/// Number of bits of a segment of `n` characters: mode indicator,
/// character count indicator and data.
pub open spec fn segment_length(size: Size, mode: Encoding, n: nat) -> int {
    size.mode_indicator_bits() + mode.char_count_bits(size) + mode.encoded_bits(n)
}

/// Whether the character capacity of a record for one encoding goes with
/// its data bits: a segment of that many characters fits into the data
/// bits, its character count fits into the count indicator, and, but for
/// Kanji in an M4-Q symbol, no longer segment fits. An encoding that the
/// size does not offer has capacity 0.
pub open spec fn holds_characters(c: SymbolCapacity, size: Size, ecc: ECCLevel, mode: Encoding)
    -> bool {
    if mode.available_in(size) {
        &&& segment_length(size, mode, c.chars(mode) as nat) <= c.data_bits
        &&& c.chars(mode) < two_to(mode.char_count_bits(size))
        &&& (size == Size::Micro(4) && ecc == ECCLevel::Q && mode == Encoding::Kanji)
            || segment_length(size, mode, (c.chars(mode) + 1) as nat) > c.data_bits
    } else {
        c.chars(mode) == 0
    }
}

/// Whether the character capacities of a record for all four encodings go
/// with its data bits.
pub open spec fn characters_consistent(c: SymbolCapacity, size: Size, ecc: ECCLevel) -> bool {
    &&& holds_characters(c, size, ecc, Encoding::Numeric)
    &&& holds_characters(c, size, ecc, Encoding::Alphanumeric)
    &&& holds_characters(c, size, ecc, Encoding::Bytes)
    &&& holds_characters(c, size, ecc, Encoding::Kanji)
}

/// Whether a record is consistent, within the limits of the largest
/// symbol, and holds the codewords of a symbol of size `s`.
pub open spec fn is_consistent(c: SymbolCapacity, s: Size) -> bool {
    &&& c.wf()
    &&& c.total_codewords() == symbol_codewords(s)
    &&& 1 <= c.total_data_codewords() < c.total_codewords()
    &&& 1 <= c.block_ecc_words() <= 30
    &&& c.data_bits == 8 * c.total_data_codewords() - if s.has_half_codeword() {
        4int
    } else {
        0int
    }
}

/// The totals of a record whose block schedule is known.
proof fn lemma_schedule_totals(
    c: SymbolCapacity,
    n1: int,
    c1: int,
    d1: int,
    n2: int,
    c2: int,
    d2: int,
)
    requires
        c.block_def1.num_blocks == n1,
        c.block_def1.codewords == c1,
        c.block_def1.data_codewords == d1,
        c.block_def2.num_blocks == n2,
        c.block_def2.codewords == c2,
        c.block_def2.data_codewords == d2,
    ensures
        c.total_codewords() == n1 * c1 + n2 * c2,
        c.total_data_codewords() == n1 * d1 + n2 * d2,
{
}

proof fn lemma_capacity_micro_1(ecc: ECCLevel)
    requires
        ecc.available_in(Size::Micro(1)),
    ensures
        is_consistent(capacity(Size::Micro(1), ecc), Size::Micro(1)),
        characters_consistent(capacity(Size::Micro(1), ecc), Size::Micro(1), ecc),
{
    reveal(micro_capacity);
    lemma_two_to_values();
    match ecc {
        ECCLevel::L => {
            lemma_schedule_totals(capacity(Size::Micro(1), ECCLevel::L), 1, 5, 3, 0, 0, 0);
            assert(is_consistent(capacity(Size::Micro(1), ECCLevel::L), Size::Micro(1)));
            assert(characters_consistent(capacity(Size::Micro(1), ECCLevel::L), Size::Micro(1), ECCLevel::L));
        },
        ECCLevel::M => {},
        ECCLevel::Q => {},
        ECCLevel::H => {},
    }
}

proof fn lemma_capacity_micro_2(ecc: ECCLevel)
    requires
        ecc.available_in(Size::Micro(2)),
    ensures
        is_consistent(capacity(Size::Micro(2), ecc), Size::Micro(2)),
        characters_consistent(capacity(Size::Micro(2), ecc), Size::Micro(2), ecc),
{
    reveal(micro_capacity);
    lemma_two_to_values();
    match ecc {
        ECCLevel::L => {
            lemma_schedule_totals(capacity(Size::Micro(2), ECCLevel::L), 1, 10, 5, 0, 0, 0);
            assert(is_consistent(capacity(Size::Micro(2), ECCLevel::L), Size::Micro(2)));
            assert(characters_consistent(capacity(Size::Micro(2), ECCLevel::L), Size::Micro(2), ECCLevel::L));
        },
        ECCLevel::M => {
            lemma_schedule_totals(capacity(Size::Micro(2), ECCLevel::M), 1, 10, 4, 0, 0, 0);
            assert(is_consistent(capacity(Size::Micro(2), ECCLevel::M), Size::Micro(2)));
            assert(characters_consistent(capacity(Size::Micro(2), ECCLevel::M), Size::Micro(2), ECCLevel::M));
        },
        ECCLevel::Q => {},
        ECCLevel::H => {},
    }
}

proof fn lemma_capacity_micro_3(ecc: ECCLevel)
    requires
        ecc.available_in(Size::Micro(3)),
    ensures
        is_consistent(capacity(Size::Micro(3), ecc), Size::Micro(3)),
        characters_consistent(capacity(Size::Micro(3), ecc), Size::Micro(3), ecc),
{
    reveal(micro_capacity);
    lemma_two_to_values();
    match ecc {
        ECCLevel::L => {
            lemma_schedule_totals(capacity(Size::Micro(3), ECCLevel::L), 1, 17, 11, 0, 0, 0);
            assert(is_consistent(capacity(Size::Micro(3), ECCLevel::L), Size::Micro(3)));
            assert(characters_consistent(capacity(Size::Micro(3), ECCLevel::L), Size::Micro(3), ECCLevel::L));
        },
        ECCLevel::M => {
            lemma_schedule_totals(capacity(Size::Micro(3), ECCLevel::M), 1, 17, 9, 0, 0, 0);
            assert(is_consistent(capacity(Size::Micro(3), ECCLevel::M), Size::Micro(3)));
            assert(characters_consistent(capacity(Size::Micro(3), ECCLevel::M), Size::Micro(3), ECCLevel::M));
        },
        ECCLevel::Q => {},
        ECCLevel::H => {},
    }
}

proof fn lemma_capacity_micro_4(ecc: ECCLevel)
    requires
        ecc.available_in(Size::Micro(4)),
    ensures
        is_consistent(capacity(Size::Micro(4), ecc), Size::Micro(4)),
        characters_consistent(capacity(Size::Micro(4), ecc), Size::Micro(4), ecc),
{
    reveal(micro_capacity);
    lemma_two_to_values();
    match ecc {
        ECCLevel::L => {
            lemma_schedule_totals(capacity(Size::Micro(4), ECCLevel::L), 1, 24, 16, 0, 0, 0);
            assert(is_consistent(capacity(Size::Micro(4), ECCLevel::L), Size::Micro(4)));
            assert(characters_consistent(capacity(Size::Micro(4), ECCLevel::L), Size::Micro(4), ECCLevel::L));
        },
        ECCLevel::M => {
            lemma_schedule_totals(capacity(Size::Micro(4), ECCLevel::M), 1, 24, 14, 0, 0, 0);
            assert(is_consistent(capacity(Size::Micro(4), ECCLevel::M), Size::Micro(4)));
            assert(characters_consistent(capacity(Size::Micro(4), ECCLevel::M), Size::Micro(4), ECCLevel::M));
        },
        ECCLevel::Q => {
            lemma_schedule_totals(capacity(Size::Micro(4), ECCLevel::Q), 1, 24, 10, 0, 0, 0);
            assert(is_consistent(capacity(Size::Micro(4), ECCLevel::Q), Size::Micro(4)));
            assert(characters_consistent(capacity(Size::Micro(4), ECCLevel::Q), Size::Micro(4), ECCLevel::Q));
        },
        ECCLevel::H => {},
    }
}

proof fn lemma_capacity_standard_1(ecc: ECCLevel)
    requires
        ecc.available_in(Size::Standard(1)),
    ensures
        is_consistent(capacity(Size::Standard(1), ecc), Size::Standard(1)),
        characters_consistent(capacity(Size::Standard(1), ecc), Size::Standard(1), ecc),
{
    reveal(standard_capacity);
    lemma_two_to_values();
    match ecc {
        ECCLevel::L => {
            lemma_schedule_totals(capacity(Size::Standard(1), ECCLevel::L), 1, 26, 19, 0, 0, 0);
            assert(is_consistent(capacity(Size::Standard(1), ECCLevel::L), Size::Standard(1)));
            assert(characters_consistent(capacity(Size::Standard(1), ECCLevel::L), Size::Standard(1), ECCLevel::L));
        },
        ECCLevel::M => {
            lemma_schedule_totals(capacity(Size::Standard(1), ECCLevel::M), 1, 26, 16, 0, 0, 0);
            assert(is_consistent(capacity(Size::Standard(1), ECCLevel::M), Size::Standard(1)));
            assert(characters_consistent(capacity(Size::Standard(1), ECCLevel::M), Size::Standard(1), ECCLevel::M));
        },
        ECCLevel::Q => {
            lemma_schedule_totals(capacity(Size::Standard(1), ECCLevel::Q), 1, 26, 13, 0, 0, 0);
            assert(is_consistent(capacity(Size::Standard(1), ECCLevel::Q), Size::Standard(1)));
            assert(characters_consistent(capacity(Size::Standard(1), ECCLevel::Q), Size::Standard(1), ECCLevel::Q));
        },
        ECCLevel::H => {
            lemma_schedule_totals(capacity(Size::Standard(1), ECCLevel::H), 1, 26, 9, 0, 0, 0);
            assert(is_consistent(capacity(Size::Standard(1), ECCLevel::H), Size::Standard(1)));
            assert(characters_consistent(capacity(Size::Standard(1), ECCLevel::H), Size::Standard(1), ECCLevel::H));
        },
    }
}

proof fn lemma_capacity_standard_2(ecc: ECCLevel)
    requires
        ecc.available_in(Size::Standard(2)),
    ensures
        is_consistent(capacity(Size::Standard(2), ecc), Size::Standard(2)),
        characters_consistent(capacity(Size::Standard(2), ecc), Size::Standard(2), ecc),
{
    reveal(standard_capacity);
    lemma_two_to_values();
    match ecc {
        ECCLevel::L => {
            lemma_schedule_totals(capacity(Size::Standard(2), ECCLevel::L), 1, 44, 34, 0, 0, 0);
            assert(is_consistent(capacity(Size::Standard(2), ECCLevel::L), Size::Standard(2)));
            assert(characters_consistent(capacity(Size::Standard(2), ECCLevel::L), Size::Standard(2), ECCLevel::L));
        },
        ECCLevel::M => {
            lemma_schedule_totals(capacity(Size::Standard(2), ECCLevel::M), 1, 44, 28, 0, 0, 0);
            assert(is_consistent(capacity(Size::Standard(2), ECCLevel::M), Size::Standard(2)));
            assert(characters_consistent(capacity(Size::Standard(2), ECCLevel::M), Size::Standard(2), ECCLevel::M));
        },
        ECCLevel::Q => {
            lemma_schedule_totals(capacity(Size::Standard(2), ECCLevel::Q), 1, 44, 22, 0, 0, 0);
            assert(is_consistent(capacity(Size::Standard(2), ECCLevel::Q), Size::Standard(2)));
            assert(characters_consistent(capacity(Size::Standard(2), ECCLevel::Q), Size::Standard(2), ECCLevel::Q));
        },
        ECCLevel::H => {
            lemma_schedule_totals(capacity(Size::Standard(2), ECCLevel::H), 1, 44, 16, 0, 0, 0);
            assert(is_consistent(capacity(Size::Standard(2), ECCLevel::H), Size::Standard(2)));
            assert(characters_consistent(capacity(Size::Standard(2), ECCLevel::H), Size::Standard(2), ECCLevel::H));
        },
    }
}

proof fn lemma_capacity_standard_3(ecc: ECCLevel)
    requires
        ecc.available_in(Size::Standard(3)),
    ensures
        is_consistent(capacity(Size::Standard(3), ecc), Size::Standard(3)),
        characters_consistent(capacity(Size::Standard(3), ecc), Size::Standard(3), ecc),
{
    reveal(standard_capacity);
    lemma_two_to_values();
    match ecc {
        ECCLevel::L => {
            lemma_schedule_totals(capacity(Size::Standard(3), ECCLevel::L), 1, 70, 55, 0, 0, 0);
            assert(is_consistent(capacity(Size::Standard(3), ECCLevel::L), Size::Standard(3)));
            assert(characters_consistent(capacity(Size::Standard(3), ECCLevel::L), Size::Standard(3), ECCLevel::L));
        },
        ECCLevel::M => {
            lemma_schedule_totals(capacity(Size::Standard(3), ECCLevel::M), 1, 70, 44, 0, 0, 0);
            assert(is_consistent(capacity(Size::Standard(3), ECCLevel::M), Size::Standard(3)));
            assert(characters_consistent(capacity(Size::Standard(3), ECCLevel::M), Size::Standard(3), ECCLevel::M));
        },
        ECCLevel::Q => {
            lemma_schedule_totals(capacity(Size::Standard(3), ECCLevel::Q), 2, 35, 17, 0, 0, 0);
            assert(is_consistent(capacity(Size::Standard(3), ECCLevel::Q), Size::Standard(3)));
            assert(characters_consistent(capacity(Size::Standard(3), ECCLevel::Q), Size::Standard(3), ECCLevel::Q));
        },
        ECCLevel::H => {
            lemma_schedule_totals(capacity(Size::Standard(3), ECCLevel::H), 2, 35, 13, 0, 0, 0);
            assert(is_consistent(capacity(Size::Standard(3), ECCLevel::H), Size::Standard(3)));
            assert(characters_consistent(capacity(Size::Standard(3), ECCLevel::H), Size::Standard(3), ECCLevel::H));
        },
    }
}

proof fn lemma_capacity_standard_4(ecc: ECCLevel)
    requires
        ecc.available_in(Size::Standard(4)),
    ensures
        is_consistent(capacity(Size::Standard(4), ecc), Size::Standard(4)),
        characters_consistent(capacity(Size::Standard(4), ecc), Size::Standard(4), ecc),
{
    reveal(standard_capacity);
    lemma_two_to_values();
    match ecc {
        ECCLevel::L => {
            lemma_schedule_totals(capacity(Size::Standard(4), ECCLevel::L), 1, 100, 80, 0, 0, 0);
            assert(is_consistent(capacity(Size::Standard(4), ECCLevel::L), Size::Standard(4)));
            assert(characters_consistent(capacity(Size::Standard(4), ECCLevel::L), Size::Standard(4), ECCLevel::L));
        },
        ECCLevel::M => {
            lemma_schedule_totals(capacity(Size::Standard(4), ECCLevel::M), 2, 50, 32, 0, 0, 0);
            assert(is_consistent(capacity(Size::Standard(4), ECCLevel::M), Size::Standard(4)));
            assert(characters_consistent(capacity(Size::Standard(4), ECCLevel::M), Size::Standard(4), ECCLevel::M));
        },
        ECCLevel::Q => {
            lemma_schedule_totals(capacity(Size::Standard(4), ECCLevel::Q), 2, 50, 24, 0, 0, 0);
            assert(is_consistent(capacity(Size::Standard(4), ECCLevel::Q), Size::Standard(4)));
            assert(characters_consistent(capacity(Size::Standard(4), ECCLevel::Q), Size::Standard(4), ECCLevel::Q));
        },
        ECCLevel::H => {
            lemma_schedule_totals(capacity(Size::Standard(4), ECCLevel::H), 4, 25, 9, 0, 0, 0);
            assert(is_consistent(capacity(Size::Standard(4), ECCLevel::H), Size::Standard(4)));
            assert(characters_consistent(capacity(Size::Standard(4), ECCLevel::H), Size::Standard(4), ECCLevel::H));
        },
    }
}

proof fn lemma_capacity_standard_5(ecc: ECCLevel)
    requires
        ecc.available_in(Size::Standard(5)),
    ensures
        is_consistent(capacity(Size::Standard(5), ecc), Size::Standard(5)),
        characters_consistent(capacity(Size::Standard(5), ecc), Size::Standard(5), ecc),
{
    reveal(standard_capacity);
    lemma_two_to_values();
    match ecc {
        ECCLevel::L => {
            lemma_schedule_totals(capacity(Size::Standard(5), ECCLevel::L), 1, 134, 108, 0, 0, 0);
            assert(is_consistent(capacity(Size::Standard(5), ECCLevel::L), Size::Standard(5)));
            assert(characters_consistent(capacity(Size::Standard(5), ECCLevel::L), Size::Standard(5), ECCLevel::L));
        },
        ECCLevel::M => {
            lemma_schedule_totals(capacity(Size::Standard(5), ECCLevel::M), 2, 67, 43, 0, 0, 0);
            assert(is_consistent(capacity(Size::Standard(5), ECCLevel::M), Size::Standard(5)));
            assert(characters_consistent(capacity(Size::Standard(5), ECCLevel::M), Size::Standard(5), ECCLevel::M));
        },
        ECCLevel::Q => {
            lemma_schedule_totals(capacity(Size::Standard(5), ECCLevel::Q), 2, 33, 15, 2, 34, 16);
            assert(is_consistent(capacity(Size::Standard(5), ECCLevel::Q), Size::Standard(5)));
            assert(characters_consistent(capacity(Size::Standard(5), ECCLevel::Q), Size::Standard(5), ECCLevel::Q));
        },
        ECCLevel::H => {
            lemma_schedule_totals(capacity(Size::Standard(5), ECCLevel::H), 2, 33, 11, 2, 34, 12);
            assert(is_consistent(capacity(Size::Standard(5), ECCLevel::H), Size::Standard(5)));
            assert(characters_consistent(capacity(Size::Standard(5), ECCLevel::H), Size::Standard(5), ECCLevel::H));
        },
    }
}

proof fn lemma_capacity_standard_6(ecc: ECCLevel)
    requires
        ecc.available_in(Size::Standard(6)),
    ensures
        is_consistent(capacity(Size::Standard(6), ecc), Size::Standard(6)),
        characters_consistent(capacity(Size::Standard(6), ecc), Size::Standard(6), ecc),
{
    reveal(standard_capacity);
    lemma_two_to_values();
    match ecc {
        ECCLevel::L => {
            lemma_schedule_totals(capacity(Size::Standard(6), ECCLevel::L), 2, 86, 68, 0, 0, 0);
            assert(is_consistent(capacity(Size::Standard(6), ECCLevel::L), Size::Standard(6)));
            assert(characters_consistent(capacity(Size::Standard(6), ECCLevel::L), Size::Standard(6), ECCLevel::L));
        },
        ECCLevel::M => {
            lemma_schedule_totals(capacity(Size::Standard(6), ECCLevel::M), 4, 43, 27, 0, 0, 0);
            assert(is_consistent(capacity(Size::Standard(6), ECCLevel::M), Size::Standard(6)));
            assert(characters_consistent(capacity(Size::Standard(6), ECCLevel::M), Size::Standard(6), ECCLevel::M));
        },
        ECCLevel::Q => {
            lemma_schedule_totals(capacity(Size::Standard(6), ECCLevel::Q), 4, 43, 19, 0, 0, 0);
            assert(is_consistent(capacity(Size::Standard(6), ECCLevel::Q), Size::Standard(6)));
            assert(characters_consistent(capacity(Size::Standard(6), ECCLevel::Q), Size::Standard(6), ECCLevel::Q));
        },
        ECCLevel::H => {
            lemma_schedule_totals(capacity(Size::Standard(6), ECCLevel::H), 4, 43, 15, 0, 0, 0);
            assert(is_consistent(capacity(Size::Standard(6), ECCLevel::H), Size::Standard(6)));
            assert(characters_consistent(capacity(Size::Standard(6), ECCLevel::H), Size::Standard(6), ECCLevel::H));
        },
    }
}

proof fn lemma_capacity_standard_7(ecc: ECCLevel)
    requires
        ecc.available_in(Size::Standard(7)),
    ensures
        is_consistent(capacity(Size::Standard(7), ecc), Size::Standard(7)),
        characters_consistent(capacity(Size::Standard(7), ecc), Size::Standard(7), ecc),
{
    reveal(standard_capacity);
    lemma_two_to_values();
    match ecc {
        ECCLevel::L => {
            lemma_schedule_totals(capacity(Size::Standard(7), ECCLevel::L), 2, 98, 78, 0, 0, 0);
            assert(is_consistent(capacity(Size::Standard(7), ECCLevel::L), Size::Standard(7)));
            assert(characters_consistent(capacity(Size::Standard(7), ECCLevel::L), Size::Standard(7), ECCLevel::L));
        },
        ECCLevel::M => {
            lemma_schedule_totals(capacity(Size::Standard(7), ECCLevel::M), 4, 49, 31, 0, 0, 0);
            assert(is_consistent(capacity(Size::Standard(7), ECCLevel::M), Size::Standard(7)));
            assert(characters_consistent(capacity(Size::Standard(7), ECCLevel::M), Size::Standard(7), ECCLevel::M));
        },
        ECCLevel::Q => {
            lemma_schedule_totals(capacity(Size::Standard(7), ECCLevel::Q), 2, 32, 14, 4, 33, 15);
            assert(is_consistent(capacity(Size::Standard(7), ECCLevel::Q), Size::Standard(7)));
            assert(characters_consistent(capacity(Size::Standard(7), ECCLevel::Q), Size::Standard(7), ECCLevel::Q));
        },
        ECCLevel::H => {
            lemma_schedule_totals(capacity(Size::Standard(7), ECCLevel::H), 4, 39, 13, 1, 40, 14);
            assert(is_consistent(capacity(Size::Standard(7), ECCLevel::H), Size::Standard(7)));
            assert(characters_consistent(capacity(Size::Standard(7), ECCLevel::H), Size::Standard(7), ECCLevel::H));
        },
    }
}

proof fn lemma_capacity_standard_8(ecc: ECCLevel)
    requires
        ecc.available_in(Size::Standard(8)),
    ensures
        is_consistent(capacity(Size::Standard(8), ecc), Size::Standard(8)),
        characters_consistent(capacity(Size::Standard(8), ecc), Size::Standard(8), ecc),
{
    reveal(standard_capacity);
    lemma_two_to_values();
    match ecc {
        ECCLevel::L => {
            lemma_schedule_totals(capacity(Size::Standard(8), ECCLevel::L), 2, 121, 97, 0, 0, 0);
            assert(is_consistent(capacity(Size::Standard(8), ECCLevel::L), Size::Standard(8)));
            assert(characters_consistent(capacity(Size::Standard(8), ECCLevel::L), Size::Standard(8), ECCLevel::L));
        },
        ECCLevel::M => {
            lemma_schedule_totals(capacity(Size::Standard(8), ECCLevel::M), 2, 60, 38, 2, 61, 39);
            assert(is_consistent(capacity(Size::Standard(8), ECCLevel::M), Size::Standard(8)));
            assert(characters_consistent(capacity(Size::Standard(8), ECCLevel::M), Size::Standard(8), ECCLevel::M));
        },
        ECCLevel::Q => {
            lemma_schedule_totals(capacity(Size::Standard(8), ECCLevel::Q), 4, 40, 18, 2, 41, 19);
            assert(is_consistent(capacity(Size::Standard(8), ECCLevel::Q), Size::Standard(8)));
            assert(characters_consistent(capacity(Size::Standard(8), ECCLevel::Q), Size::Standard(8), ECCLevel::Q));
        },
        ECCLevel::H => {
            lemma_schedule_totals(capacity(Size::Standard(8), ECCLevel::H), 4, 40, 14, 2, 41, 15);
            assert(is_consistent(capacity(Size::Standard(8), ECCLevel::H), Size::Standard(8)));
            assert(characters_consistent(capacity(Size::Standard(8), ECCLevel::H), Size::Standard(8), ECCLevel::H));
        },
    }
}

proof fn lemma_capacity_standard_9(ecc: ECCLevel)
    requires
        ecc.available_in(Size::Standard(9)),
    ensures
        is_consistent(capacity(Size::Standard(9), ecc), Size::Standard(9)),
        characters_consistent(capacity(Size::Standard(9), ecc), Size::Standard(9), ecc),
{
    reveal(standard_capacity);
    lemma_two_to_values();
    match ecc {
        ECCLevel::L => {
            lemma_schedule_totals(capacity(Size::Standard(9), ECCLevel::L), 2, 146, 116, 0, 0, 0);
            assert(is_consistent(capacity(Size::Standard(9), ECCLevel::L), Size::Standard(9)));
            assert(characters_consistent(capacity(Size::Standard(9), ECCLevel::L), Size::Standard(9), ECCLevel::L));
        },
        ECCLevel::M => {
            lemma_schedule_totals(capacity(Size::Standard(9), ECCLevel::M), 3, 58, 36, 2, 59, 37);
            assert(is_consistent(capacity(Size::Standard(9), ECCLevel::M), Size::Standard(9)));
            assert(characters_consistent(capacity(Size::Standard(9), ECCLevel::M), Size::Standard(9), ECCLevel::M));
        },
        ECCLevel::Q => {
            lemma_schedule_totals(capacity(Size::Standard(9), ECCLevel::Q), 4, 36, 16, 4, 37, 17);
            assert(is_consistent(capacity(Size::Standard(9), ECCLevel::Q), Size::Standard(9)));
            assert(characters_consistent(capacity(Size::Standard(9), ECCLevel::Q), Size::Standard(9), ECCLevel::Q));
        },
        ECCLevel::H => {
            lemma_schedule_totals(capacity(Size::Standard(9), ECCLevel::H), 4, 36, 12, 4, 37, 13);
            assert(is_consistent(capacity(Size::Standard(9), ECCLevel::H), Size::Standard(9)));
            assert(characters_consistent(capacity(Size::Standard(9), ECCLevel::H), Size::Standard(9), ECCLevel::H));
        },
    }
}

proof fn lemma_capacity_standard_10(ecc: ECCLevel)
    requires
        ecc.available_in(Size::Standard(10)),
    ensures
        is_consistent(capacity(Size::Standard(10), ecc), Size::Standard(10)),
        characters_consistent(capacity(Size::Standard(10), ecc), Size::Standard(10), ecc),
{
    reveal(standard_capacity);
    lemma_two_to_values();
    match ecc {
        ECCLevel::L => {
            lemma_schedule_totals(capacity(Size::Standard(10), ECCLevel::L), 2, 86, 68, 2, 87, 69);
            assert(is_consistent(capacity(Size::Standard(10), ECCLevel::L), Size::Standard(10)));
            assert(characters_consistent(capacity(Size::Standard(10), ECCLevel::L), Size::Standard(10), ECCLevel::L));
        },
        ECCLevel::M => {
            lemma_schedule_totals(capacity(Size::Standard(10), ECCLevel::M), 4, 69, 43, 1, 70, 44);
            assert(is_consistent(capacity(Size::Standard(10), ECCLevel::M), Size::Standard(10)));
            assert(characters_consistent(capacity(Size::Standard(10), ECCLevel::M), Size::Standard(10), ECCLevel::M));
        },
        ECCLevel::Q => {
            lemma_schedule_totals(capacity(Size::Standard(10), ECCLevel::Q), 6, 43, 19, 2, 44, 20);
            assert(is_consistent(capacity(Size::Standard(10), ECCLevel::Q), Size::Standard(10)));
            assert(characters_consistent(capacity(Size::Standard(10), ECCLevel::Q), Size::Standard(10), ECCLevel::Q));
        },
        ECCLevel::H => {
            lemma_schedule_totals(capacity(Size::Standard(10), ECCLevel::H), 6, 43, 15, 2, 44, 16);
            assert(is_consistent(capacity(Size::Standard(10), ECCLevel::H), Size::Standard(10)));
            assert(characters_consistent(capacity(Size::Standard(10), ECCLevel::H), Size::Standard(10), ECCLevel::H));
        },
    }
}

proof fn lemma_capacity_standard_11(ecc: ECCLevel)
    requires
        ecc.available_in(Size::Standard(11)),
    ensures
        is_consistent(capacity(Size::Standard(11), ecc), Size::Standard(11)),
        characters_consistent(capacity(Size::Standard(11), ecc), Size::Standard(11), ecc),
{
    reveal(standard_capacity);
    lemma_two_to_values();
    match ecc {
        ECCLevel::L => {
            lemma_schedule_totals(capacity(Size::Standard(11), ECCLevel::L), 4, 101, 81, 0, 0, 0);
            assert(is_consistent(capacity(Size::Standard(11), ECCLevel::L), Size::Standard(11)));
            assert(characters_consistent(capacity(Size::Standard(11), ECCLevel::L), Size::Standard(11), ECCLevel::L));
        },
        ECCLevel::M => {
            lemma_schedule_totals(capacity(Size::Standard(11), ECCLevel::M), 1, 80, 50, 4, 81, 51);
            assert(is_consistent(capacity(Size::Standard(11), ECCLevel::M), Size::Standard(11)));
            assert(characters_consistent(capacity(Size::Standard(11), ECCLevel::M), Size::Standard(11), ECCLevel::M));
        },
        ECCLevel::Q => {
            lemma_schedule_totals(capacity(Size::Standard(11), ECCLevel::Q), 4, 50, 22, 4, 51, 23);
            assert(is_consistent(capacity(Size::Standard(11), ECCLevel::Q), Size::Standard(11)));
            assert(characters_consistent(capacity(Size::Standard(11), ECCLevel::Q), Size::Standard(11), ECCLevel::Q));
        },
        ECCLevel::H => {
            lemma_schedule_totals(capacity(Size::Standard(11), ECCLevel::H), 3, 36, 12, 8, 37, 13);
            assert(is_consistent(capacity(Size::Standard(11), ECCLevel::H), Size::Standard(11)));
            assert(characters_consistent(capacity(Size::Standard(11), ECCLevel::H), Size::Standard(11), ECCLevel::H));
        },
    }
}

proof fn lemma_capacity_standard_12(ecc: ECCLevel)
    requires
        ecc.available_in(Size::Standard(12)),
    ensures
        is_consistent(capacity(Size::Standard(12), ecc), Size::Standard(12)),
        characters_consistent(capacity(Size::Standard(12), ecc), Size::Standard(12), ecc),
{
    reveal(standard_capacity);
    lemma_two_to_values();
    match ecc {
        ECCLevel::L => {
            lemma_schedule_totals(capacity(Size::Standard(12), ECCLevel::L), 2, 116, 92, 2, 117, 93);
            assert(is_consistent(capacity(Size::Standard(12), ECCLevel::L), Size::Standard(12)));
            assert(characters_consistent(capacity(Size::Standard(12), ECCLevel::L), Size::Standard(12), ECCLevel::L));
        },
        ECCLevel::M => {
            lemma_schedule_totals(capacity(Size::Standard(12), ECCLevel::M), 6, 58, 36, 2, 59, 37);
            assert(is_consistent(capacity(Size::Standard(12), ECCLevel::M), Size::Standard(12)));
            assert(characters_consistent(capacity(Size::Standard(12), ECCLevel::M), Size::Standard(12), ECCLevel::M));
        },
        ECCLevel::Q => {
            lemma_schedule_totals(capacity(Size::Standard(12), ECCLevel::Q), 4, 46, 20, 6, 47, 21);
            assert(is_consistent(capacity(Size::Standard(12), ECCLevel::Q), Size::Standard(12)));
            assert(characters_consistent(capacity(Size::Standard(12), ECCLevel::Q), Size::Standard(12), ECCLevel::Q));
        },
        ECCLevel::H => {
            lemma_schedule_totals(capacity(Size::Standard(12), ECCLevel::H), 7, 42, 14, 4, 43, 15);
            assert(is_consistent(capacity(Size::Standard(12), ECCLevel::H), Size::Standard(12)));
            assert(characters_consistent(capacity(Size::Standard(12), ECCLevel::H), Size::Standard(12), ECCLevel::H));
        },
    }
}

proof fn lemma_capacity_standard_13(ecc: ECCLevel)
    requires
        ecc.available_in(Size::Standard(13)),
    ensures
        is_consistent(capacity(Size::Standard(13), ecc), Size::Standard(13)),
        characters_consistent(capacity(Size::Standard(13), ecc), Size::Standard(13), ecc),
{
    reveal(standard_capacity);
    lemma_two_to_values();
    match ecc {
        ECCLevel::L => {
            lemma_schedule_totals(capacity(Size::Standard(13), ECCLevel::L), 4, 133, 107, 0, 0, 0);
            assert(is_consistent(capacity(Size::Standard(13), ECCLevel::L), Size::Standard(13)));
            assert(characters_consistent(capacity(Size::Standard(13), ECCLevel::L), Size::Standard(13), ECCLevel::L));
        },
        ECCLevel::M => {
            lemma_schedule_totals(capacity(Size::Standard(13), ECCLevel::M), 8, 59, 37, 1, 60, 38);
            assert(is_consistent(capacity(Size::Standard(13), ECCLevel::M), Size::Standard(13)));
            assert(characters_consistent(capacity(Size::Standard(13), ECCLevel::M), Size::Standard(13), ECCLevel::M));
        },
        ECCLevel::Q => {
            lemma_schedule_totals(capacity(Size::Standard(13), ECCLevel::Q), 8, 44, 20, 4, 45, 21);
            assert(is_consistent(capacity(Size::Standard(13), ECCLevel::Q), Size::Standard(13)));
            assert(characters_consistent(capacity(Size::Standard(13), ECCLevel::Q), Size::Standard(13), ECCLevel::Q));
        },
        ECCLevel::H => {
            lemma_schedule_totals(capacity(Size::Standard(13), ECCLevel::H), 12, 33, 11, 4, 34, 12);
            assert(is_consistent(capacity(Size::Standard(13), ECCLevel::H), Size::Standard(13)));
            assert(characters_consistent(capacity(Size::Standard(13), ECCLevel::H), Size::Standard(13), ECCLevel::H));
        },
    }
}

proof fn lemma_capacity_standard_14(ecc: ECCLevel)
    requires
        ecc.available_in(Size::Standard(14)),
    ensures
        is_consistent(capacity(Size::Standard(14), ecc), Size::Standard(14)),
        characters_consistent(capacity(Size::Standard(14), ecc), Size::Standard(14), ecc),
{
    reveal(standard_capacity);
    lemma_two_to_values();
    match ecc {
        ECCLevel::L => {
            lemma_schedule_totals(capacity(Size::Standard(14), ECCLevel::L), 3, 145, 115, 1, 146, 116);
            assert(is_consistent(capacity(Size::Standard(14), ECCLevel::L), Size::Standard(14)));
            assert(characters_consistent(capacity(Size::Standard(14), ECCLevel::L), Size::Standard(14), ECCLevel::L));
        },
        ECCLevel::M => {
            lemma_schedule_totals(capacity(Size::Standard(14), ECCLevel::M), 4, 64, 40, 5, 65, 41);
            assert(is_consistent(capacity(Size::Standard(14), ECCLevel::M), Size::Standard(14)));
            assert(characters_consistent(capacity(Size::Standard(14), ECCLevel::M), Size::Standard(14), ECCLevel::M));
        },
        ECCLevel::Q => {
            lemma_schedule_totals(capacity(Size::Standard(14), ECCLevel::Q), 11, 36, 16, 5, 37, 17);
            assert(is_consistent(capacity(Size::Standard(14), ECCLevel::Q), Size::Standard(14)));
            assert(characters_consistent(capacity(Size::Standard(14), ECCLevel::Q), Size::Standard(14), ECCLevel::Q));
        },
        ECCLevel::H => {
            lemma_schedule_totals(capacity(Size::Standard(14), ECCLevel::H), 11, 36, 12, 5, 37, 13);
            assert(is_consistent(capacity(Size::Standard(14), ECCLevel::H), Size::Standard(14)));
            assert(characters_consistent(capacity(Size::Standard(14), ECCLevel::H), Size::Standard(14), ECCLevel::H));
        },
    }
}

proof fn lemma_capacity_standard_15(ecc: ECCLevel)
    requires
        ecc.available_in(Size::Standard(15)),
    ensures
        is_consistent(capacity(Size::Standard(15), ecc), Size::Standard(15)),
        characters_consistent(capacity(Size::Standard(15), ecc), Size::Standard(15), ecc),
{
    reveal(standard_capacity);
    lemma_two_to_values();
    match ecc {
        ECCLevel::L => {
            lemma_schedule_totals(capacity(Size::Standard(15), ECCLevel::L), 5, 109, 87, 1, 110, 88);
            assert(is_consistent(capacity(Size::Standard(15), ECCLevel::L), Size::Standard(15)));
            assert(characters_consistent(capacity(Size::Standard(15), ECCLevel::L), Size::Standard(15), ECCLevel::L));
        },
        ECCLevel::M => {
            lemma_schedule_totals(capacity(Size::Standard(15), ECCLevel::M), 5, 65, 41, 5, 66, 42);
            assert(is_consistent(capacity(Size::Standard(15), ECCLevel::M), Size::Standard(15)));
            assert(characters_consistent(capacity(Size::Standard(15), ECCLevel::M), Size::Standard(15), ECCLevel::M));
        },
        ECCLevel::Q => {
            lemma_schedule_totals(capacity(Size::Standard(15), ECCLevel::Q), 5, 54, 24, 7, 55, 25);
            assert(is_consistent(capacity(Size::Standard(15), ECCLevel::Q), Size::Standard(15)));
            assert(characters_consistent(capacity(Size::Standard(15), ECCLevel::Q), Size::Standard(15), ECCLevel::Q));
        },
        ECCLevel::H => {
            lemma_schedule_totals(capacity(Size::Standard(15), ECCLevel::H), 11, 36, 12, 7, 37, 13);
            assert(is_consistent(capacity(Size::Standard(15), ECCLevel::H), Size::Standard(15)));
            assert(characters_consistent(capacity(Size::Standard(15), ECCLevel::H), Size::Standard(15), ECCLevel::H));
        },
    }
}

proof fn lemma_capacity_standard_16(ecc: ECCLevel)
    requires
        ecc.available_in(Size::Standard(16)),
    ensures
        is_consistent(capacity(Size::Standard(16), ecc), Size::Standard(16)),
        characters_consistent(capacity(Size::Standard(16), ecc), Size::Standard(16), ecc),
{
    reveal(standard_capacity);
    lemma_two_to_values();
    match ecc {
        ECCLevel::L => {
            lemma_schedule_totals(capacity(Size::Standard(16), ECCLevel::L), 5, 122, 98, 1, 123, 99);
            assert(is_consistent(capacity(Size::Standard(16), ECCLevel::L), Size::Standard(16)));
            assert(characters_consistent(capacity(Size::Standard(16), ECCLevel::L), Size::Standard(16), ECCLevel::L));
        },
        ECCLevel::M => {
            lemma_schedule_totals(capacity(Size::Standard(16), ECCLevel::M), 7, 73, 45, 3, 74, 46);
            assert(is_consistent(capacity(Size::Standard(16), ECCLevel::M), Size::Standard(16)));
            assert(characters_consistent(capacity(Size::Standard(16), ECCLevel::M), Size::Standard(16), ECCLevel::M));
        },
        ECCLevel::Q => {
            lemma_schedule_totals(capacity(Size::Standard(16), ECCLevel::Q), 15, 43, 19, 2, 44, 20);
            assert(is_consistent(capacity(Size::Standard(16), ECCLevel::Q), Size::Standard(16)));
            assert(characters_consistent(capacity(Size::Standard(16), ECCLevel::Q), Size::Standard(16), ECCLevel::Q));
        },
        ECCLevel::H => {
            lemma_schedule_totals(capacity(Size::Standard(16), ECCLevel::H), 3, 45, 15, 13, 46, 16);
            assert(is_consistent(capacity(Size::Standard(16), ECCLevel::H), Size::Standard(16)));
            assert(characters_consistent(capacity(Size::Standard(16), ECCLevel::H), Size::Standard(16), ECCLevel::H));
        },
    }
}

proof fn lemma_capacity_standard_17(ecc: ECCLevel)
    requires
        ecc.available_in(Size::Standard(17)),
    ensures
        is_consistent(capacity(Size::Standard(17), ecc), Size::Standard(17)),
        characters_consistent(capacity(Size::Standard(17), ecc), Size::Standard(17), ecc),
{
    reveal(standard_capacity);
    lemma_two_to_values();
    match ecc {
        ECCLevel::L => {
            lemma_schedule_totals(capacity(Size::Standard(17), ECCLevel::L), 1, 135, 107, 5, 136, 108);
            assert(is_consistent(capacity(Size::Standard(17), ECCLevel::L), Size::Standard(17)));
            assert(characters_consistent(capacity(Size::Standard(17), ECCLevel::L), Size::Standard(17), ECCLevel::L));
        },
        ECCLevel::M => {
            lemma_schedule_totals(capacity(Size::Standard(17), ECCLevel::M), 10, 74, 46, 1, 75, 47);
            assert(is_consistent(capacity(Size::Standard(17), ECCLevel::M), Size::Standard(17)));
            assert(characters_consistent(capacity(Size::Standard(17), ECCLevel::M), Size::Standard(17), ECCLevel::M));
        },
        ECCLevel::Q => {
            lemma_schedule_totals(capacity(Size::Standard(17), ECCLevel::Q), 1, 50, 22, 15, 51, 23);
            assert(is_consistent(capacity(Size::Standard(17), ECCLevel::Q), Size::Standard(17)));
            assert(characters_consistent(capacity(Size::Standard(17), ECCLevel::Q), Size::Standard(17), ECCLevel::Q));
        },
        ECCLevel::H => {
            lemma_schedule_totals(capacity(Size::Standard(17), ECCLevel::H), 2, 42, 14, 17, 43, 15);
            assert(is_consistent(capacity(Size::Standard(17), ECCLevel::H), Size::Standard(17)));
            assert(characters_consistent(capacity(Size::Standard(17), ECCLevel::H), Size::Standard(17), ECCLevel::H));
        },
    }
}

proof fn lemma_capacity_standard_18(ecc: ECCLevel)
    requires
        ecc.available_in(Size::Standard(18)),
    ensures
        is_consistent(capacity(Size::Standard(18), ecc), Size::Standard(18)),
        characters_consistent(capacity(Size::Standard(18), ecc), Size::Standard(18), ecc),
{
    reveal(standard_capacity);
    lemma_two_to_values();
    match ecc {
        ECCLevel::L => {
            lemma_schedule_totals(capacity(Size::Standard(18), ECCLevel::L), 5, 150, 120, 1, 151, 121);
            assert(is_consistent(capacity(Size::Standard(18), ECCLevel::L), Size::Standard(18)));
            assert(characters_consistent(capacity(Size::Standard(18), ECCLevel::L), Size::Standard(18), ECCLevel::L));
        },
        ECCLevel::M => {
            lemma_schedule_totals(capacity(Size::Standard(18), ECCLevel::M), 9, 69, 43, 4, 70, 44);
            assert(is_consistent(capacity(Size::Standard(18), ECCLevel::M), Size::Standard(18)));
            assert(characters_consistent(capacity(Size::Standard(18), ECCLevel::M), Size::Standard(18), ECCLevel::M));
        },
        ECCLevel::Q => {
            lemma_schedule_totals(capacity(Size::Standard(18), ECCLevel::Q), 17, 50, 22, 1, 51, 23);
            assert(is_consistent(capacity(Size::Standard(18), ECCLevel::Q), Size::Standard(18)));
            assert(characters_consistent(capacity(Size::Standard(18), ECCLevel::Q), Size::Standard(18), ECCLevel::Q));
        },
        ECCLevel::H => {
            lemma_schedule_totals(capacity(Size::Standard(18), ECCLevel::H), 2, 42, 14, 19, 43, 15);
            assert(is_consistent(capacity(Size::Standard(18), ECCLevel::H), Size::Standard(18)));
            assert(characters_consistent(capacity(Size::Standard(18), ECCLevel::H), Size::Standard(18), ECCLevel::H));
        },
    }
}

proof fn lemma_capacity_standard_19(ecc: ECCLevel)
    requires
        ecc.available_in(Size::Standard(19)),
    ensures
        is_consistent(capacity(Size::Standard(19), ecc), Size::Standard(19)),
        characters_consistent(capacity(Size::Standard(19), ecc), Size::Standard(19), ecc),
{
    reveal(standard_capacity);
    lemma_two_to_values();
    match ecc {
        ECCLevel::L => {
            lemma_schedule_totals(capacity(Size::Standard(19), ECCLevel::L), 3, 141, 113, 4, 142, 114);
            assert(is_consistent(capacity(Size::Standard(19), ECCLevel::L), Size::Standard(19)));
            assert(characters_consistent(capacity(Size::Standard(19), ECCLevel::L), Size::Standard(19), ECCLevel::L));
        },
        ECCLevel::M => {
            lemma_schedule_totals(capacity(Size::Standard(19), ECCLevel::M), 3, 70, 44, 11, 71, 45);
            assert(is_consistent(capacity(Size::Standard(19), ECCLevel::M), Size::Standard(19)));
            assert(characters_consistent(capacity(Size::Standard(19), ECCLevel::M), Size::Standard(19), ECCLevel::M));
        },
        ECCLevel::Q => {
            lemma_schedule_totals(capacity(Size::Standard(19), ECCLevel::Q), 17, 47, 21, 4, 48, 22);
            assert(is_consistent(capacity(Size::Standard(19), ECCLevel::Q), Size::Standard(19)));
            assert(characters_consistent(capacity(Size::Standard(19), ECCLevel::Q), Size::Standard(19), ECCLevel::Q));
        },
        ECCLevel::H => {
            lemma_schedule_totals(capacity(Size::Standard(19), ECCLevel::H), 9, 39, 13, 16, 40, 14);
            assert(is_consistent(capacity(Size::Standard(19), ECCLevel::H), Size::Standard(19)));
            assert(characters_consistent(capacity(Size::Standard(19), ECCLevel::H), Size::Standard(19), ECCLevel::H));
        },
    }
}

proof fn lemma_capacity_standard_20(ecc: ECCLevel)
    requires
        ecc.available_in(Size::Standard(20)),
    ensures
        is_consistent(capacity(Size::Standard(20), ecc), Size::Standard(20)),
        characters_consistent(capacity(Size::Standard(20), ecc), Size::Standard(20), ecc),
{
    reveal(standard_capacity);
    lemma_two_to_values();
    match ecc {
        ECCLevel::L => {
            lemma_schedule_totals(capacity(Size::Standard(20), ECCLevel::L), 3, 135, 107, 5, 136, 108);
            assert(is_consistent(capacity(Size::Standard(20), ECCLevel::L), Size::Standard(20)));
            assert(characters_consistent(capacity(Size::Standard(20), ECCLevel::L), Size::Standard(20), ECCLevel::L));
        },
        ECCLevel::M => {
            lemma_schedule_totals(capacity(Size::Standard(20), ECCLevel::M), 3, 67, 41, 13, 68, 42);
            assert(is_consistent(capacity(Size::Standard(20), ECCLevel::M), Size::Standard(20)));
            assert(characters_consistent(capacity(Size::Standard(20), ECCLevel::M), Size::Standard(20), ECCLevel::M));
        },
        ECCLevel::Q => {
            lemma_schedule_totals(capacity(Size::Standard(20), ECCLevel::Q), 15, 54, 24, 5, 55, 25);
            assert(is_consistent(capacity(Size::Standard(20), ECCLevel::Q), Size::Standard(20)));
            assert(characters_consistent(capacity(Size::Standard(20), ECCLevel::Q), Size::Standard(20), ECCLevel::Q));
        },
        ECCLevel::H => {
            lemma_schedule_totals(capacity(Size::Standard(20), ECCLevel::H), 15, 43, 15, 10, 44, 16);
            assert(is_consistent(capacity(Size::Standard(20), ECCLevel::H), Size::Standard(20)));
            assert(characters_consistent(capacity(Size::Standard(20), ECCLevel::H), Size::Standard(20), ECCLevel::H));
        },
    }
}

proof fn lemma_capacity_standard_21(ecc: ECCLevel)
    requires
        ecc.available_in(Size::Standard(21)),
    ensures
        is_consistent(capacity(Size::Standard(21), ecc), Size::Standard(21)),
        characters_consistent(capacity(Size::Standard(21), ecc), Size::Standard(21), ecc),
{
    reveal(standard_capacity);
    lemma_two_to_values();
    match ecc {
        ECCLevel::L => {
            lemma_schedule_totals(capacity(Size::Standard(21), ECCLevel::L), 4, 144, 116, 4, 145, 117);
            assert(is_consistent(capacity(Size::Standard(21), ECCLevel::L), Size::Standard(21)));
            assert(characters_consistent(capacity(Size::Standard(21), ECCLevel::L), Size::Standard(21), ECCLevel::L));
        },
        ECCLevel::M => {
            lemma_schedule_totals(capacity(Size::Standard(21), ECCLevel::M), 17, 68, 42, 0, 0, 0);
            assert(is_consistent(capacity(Size::Standard(21), ECCLevel::M), Size::Standard(21)));
            assert(characters_consistent(capacity(Size::Standard(21), ECCLevel::M), Size::Standard(21), ECCLevel::M));
        },
        ECCLevel::Q => {
            lemma_schedule_totals(capacity(Size::Standard(21), ECCLevel::Q), 17, 50, 22, 6, 51, 23);
            assert(is_consistent(capacity(Size::Standard(21), ECCLevel::Q), Size::Standard(21)));
            assert(characters_consistent(capacity(Size::Standard(21), ECCLevel::Q), Size::Standard(21), ECCLevel::Q));
        },
        ECCLevel::H => {
            lemma_schedule_totals(capacity(Size::Standard(21), ECCLevel::H), 19, 46, 16, 6, 47, 17);
            assert(is_consistent(capacity(Size::Standard(21), ECCLevel::H), Size::Standard(21)));
            assert(characters_consistent(capacity(Size::Standard(21), ECCLevel::H), Size::Standard(21), ECCLevel::H));
        },
    }
}

proof fn lemma_capacity_standard_22(ecc: ECCLevel)
    requires
        ecc.available_in(Size::Standard(22)),
    ensures
        is_consistent(capacity(Size::Standard(22), ecc), Size::Standard(22)),
        characters_consistent(capacity(Size::Standard(22), ecc), Size::Standard(22), ecc),
{
    reveal(standard_capacity);
    lemma_two_to_values();
    match ecc {
        ECCLevel::L => {
            lemma_schedule_totals(capacity(Size::Standard(22), ECCLevel::L), 2, 139, 111, 7, 140, 112);
            assert(is_consistent(capacity(Size::Standard(22), ECCLevel::L), Size::Standard(22)));
            assert(characters_consistent(capacity(Size::Standard(22), ECCLevel::L), Size::Standard(22), ECCLevel::L));
        },
        ECCLevel::M => {
            lemma_schedule_totals(capacity(Size::Standard(22), ECCLevel::M), 17, 74, 46, 0, 0, 0);
            assert(is_consistent(capacity(Size::Standard(22), ECCLevel::M), Size::Standard(22)));
            assert(characters_consistent(capacity(Size::Standard(22), ECCLevel::M), Size::Standard(22), ECCLevel::M));
        },
        ECCLevel::Q => {
            lemma_schedule_totals(capacity(Size::Standard(22), ECCLevel::Q), 7, 54, 24, 16, 55, 25);
            assert(is_consistent(capacity(Size::Standard(22), ECCLevel::Q), Size::Standard(22)));
            assert(characters_consistent(capacity(Size::Standard(22), ECCLevel::Q), Size::Standard(22), ECCLevel::Q));
        },
        ECCLevel::H => {
            lemma_schedule_totals(capacity(Size::Standard(22), ECCLevel::H), 34, 37, 13, 0, 0, 0);
            assert(is_consistent(capacity(Size::Standard(22), ECCLevel::H), Size::Standard(22)));
            assert(characters_consistent(capacity(Size::Standard(22), ECCLevel::H), Size::Standard(22), ECCLevel::H));
        },
    }
}

proof fn lemma_capacity_standard_23(ecc: ECCLevel)
    requires
        ecc.available_in(Size::Standard(23)),
    ensures
        is_consistent(capacity(Size::Standard(23), ecc), Size::Standard(23)),
        characters_consistent(capacity(Size::Standard(23), ecc), Size::Standard(23), ecc),
{
    reveal(standard_capacity);
    lemma_two_to_values();
    match ecc {
        ECCLevel::L => {
            lemma_schedule_totals(capacity(Size::Standard(23), ECCLevel::L), 4, 151, 121, 5, 152, 122);
            assert(is_consistent(capacity(Size::Standard(23), ECCLevel::L), Size::Standard(23)));
            assert(characters_consistent(capacity(Size::Standard(23), ECCLevel::L), Size::Standard(23), ECCLevel::L));
        },
        ECCLevel::M => {
            lemma_schedule_totals(capacity(Size::Standard(23), ECCLevel::M), 4, 75, 47, 14, 76, 48);
            assert(is_consistent(capacity(Size::Standard(23), ECCLevel::M), Size::Standard(23)));
            assert(characters_consistent(capacity(Size::Standard(23), ECCLevel::M), Size::Standard(23), ECCLevel::M));
        },
        ECCLevel::Q => {
            lemma_schedule_totals(capacity(Size::Standard(23), ECCLevel::Q), 11, 54, 24, 14, 55, 25);
            assert(is_consistent(capacity(Size::Standard(23), ECCLevel::Q), Size::Standard(23)));
            assert(characters_consistent(capacity(Size::Standard(23), ECCLevel::Q), Size::Standard(23), ECCLevel::Q));
        },
        ECCLevel::H => {
            lemma_schedule_totals(capacity(Size::Standard(23), ECCLevel::H), 16, 45, 15, 14, 46, 16);
            assert(is_consistent(capacity(Size::Standard(23), ECCLevel::H), Size::Standard(23)));
            assert(characters_consistent(capacity(Size::Standard(23), ECCLevel::H), Size::Standard(23), ECCLevel::H));
        },
    }
}

proof fn lemma_capacity_standard_24(ecc: ECCLevel)
    requires
        ecc.available_in(Size::Standard(24)),
    ensures
        is_consistent(capacity(Size::Standard(24), ecc), Size::Standard(24)),
        characters_consistent(capacity(Size::Standard(24), ecc), Size::Standard(24), ecc),
{
    reveal(standard_capacity);
    lemma_two_to_values();
    match ecc {
        ECCLevel::L => {
            lemma_schedule_totals(capacity(Size::Standard(24), ECCLevel::L), 6, 147, 117, 4, 148, 118);
            assert(is_consistent(capacity(Size::Standard(24), ECCLevel::L), Size::Standard(24)));
            assert(characters_consistent(capacity(Size::Standard(24), ECCLevel::L), Size::Standard(24), ECCLevel::L));
        },
        ECCLevel::M => {
            lemma_schedule_totals(capacity(Size::Standard(24), ECCLevel::M), 6, 73, 45, 14, 74, 46);
            assert(is_consistent(capacity(Size::Standard(24), ECCLevel::M), Size::Standard(24)));
            assert(characters_consistent(capacity(Size::Standard(24), ECCLevel::M), Size::Standard(24), ECCLevel::M));
        },
        ECCLevel::Q => {
            lemma_schedule_totals(capacity(Size::Standard(24), ECCLevel::Q), 11, 54, 24, 16, 55, 25);
            assert(is_consistent(capacity(Size::Standard(24), ECCLevel::Q), Size::Standard(24)));
            assert(characters_consistent(capacity(Size::Standard(24), ECCLevel::Q), Size::Standard(24), ECCLevel::Q));
        },
        ECCLevel::H => {
            lemma_schedule_totals(capacity(Size::Standard(24), ECCLevel::H), 30, 46, 16, 2, 47, 17);
            assert(is_consistent(capacity(Size::Standard(24), ECCLevel::H), Size::Standard(24)));
            assert(characters_consistent(capacity(Size::Standard(24), ECCLevel::H), Size::Standard(24), ECCLevel::H));
        },
    }
}

proof fn lemma_capacity_standard_25(ecc: ECCLevel)
    requires
        ecc.available_in(Size::Standard(25)),
    ensures
        is_consistent(capacity(Size::Standard(25), ecc), Size::Standard(25)),
        characters_consistent(capacity(Size::Standard(25), ecc), Size::Standard(25), ecc),
{
    reveal(standard_capacity);
    lemma_two_to_values();
    match ecc {
        ECCLevel::L => {
            lemma_schedule_totals(capacity(Size::Standard(25), ECCLevel::L), 8, 132, 106, 4, 133, 107);
            assert(is_consistent(capacity(Size::Standard(25), ECCLevel::L), Size::Standard(25)));
            assert(characters_consistent(capacity(Size::Standard(25), ECCLevel::L), Size::Standard(25), ECCLevel::L));
        },
        ECCLevel::M => {
            lemma_schedule_totals(capacity(Size::Standard(25), ECCLevel::M), 8, 75, 47, 13, 76, 48);
            assert(is_consistent(capacity(Size::Standard(25), ECCLevel::M), Size::Standard(25)));
            assert(characters_consistent(capacity(Size::Standard(25), ECCLevel::M), Size::Standard(25), ECCLevel::M));
        },
        ECCLevel::Q => {
            lemma_schedule_totals(capacity(Size::Standard(25), ECCLevel::Q), 7, 54, 24, 22, 55, 25);
            assert(is_consistent(capacity(Size::Standard(25), ECCLevel::Q), Size::Standard(25)));
            assert(characters_consistent(capacity(Size::Standard(25), ECCLevel::Q), Size::Standard(25), ECCLevel::Q));
        },
        ECCLevel::H => {
            lemma_schedule_totals(capacity(Size::Standard(25), ECCLevel::H), 22, 45, 15, 13, 46, 16);
            assert(is_consistent(capacity(Size::Standard(25), ECCLevel::H), Size::Standard(25)));
            assert(characters_consistent(capacity(Size::Standard(25), ECCLevel::H), Size::Standard(25), ECCLevel::H));
        },
    }
}

proof fn lemma_capacity_standard_26(ecc: ECCLevel)
    requires
        ecc.available_in(Size::Standard(26)),
    ensures
        is_consistent(capacity(Size::Standard(26), ecc), Size::Standard(26)),
        characters_consistent(capacity(Size::Standard(26), ecc), Size::Standard(26), ecc),
{
    reveal(standard_capacity);
    lemma_two_to_values();
    match ecc {
        ECCLevel::L => {
            lemma_schedule_totals(capacity(Size::Standard(26), ECCLevel::L), 10, 142, 114, 2, 143, 115);
            assert(is_consistent(capacity(Size::Standard(26), ECCLevel::L), Size::Standard(26)));
            assert(characters_consistent(capacity(Size::Standard(26), ECCLevel::L), Size::Standard(26), ECCLevel::L));
        },
        ECCLevel::M => {
            lemma_schedule_totals(capacity(Size::Standard(26), ECCLevel::M), 19, 74, 46, 4, 75, 47);
            assert(is_consistent(capacity(Size::Standard(26), ECCLevel::M), Size::Standard(26)));
            assert(characters_consistent(capacity(Size::Standard(26), ECCLevel::M), Size::Standard(26), ECCLevel::M));
        },
        ECCLevel::Q => {
            lemma_schedule_totals(capacity(Size::Standard(26), ECCLevel::Q), 28, 50, 22, 6, 51, 23);
            assert(is_consistent(capacity(Size::Standard(26), ECCLevel::Q), Size::Standard(26)));
            assert(characters_consistent(capacity(Size::Standard(26), ECCLevel::Q), Size::Standard(26), ECCLevel::Q));
        },
        ECCLevel::H => {
            lemma_schedule_totals(capacity(Size::Standard(26), ECCLevel::H), 33, 46, 16, 4, 47, 17);
            assert(is_consistent(capacity(Size::Standard(26), ECCLevel::H), Size::Standard(26)));
            assert(characters_consistent(capacity(Size::Standard(26), ECCLevel::H), Size::Standard(26), ECCLevel::H));
        },
    }
}

proof fn lemma_capacity_standard_27(ecc: ECCLevel)
    requires
        ecc.available_in(Size::Standard(27)),
    ensures
        is_consistent(capacity(Size::Standard(27), ecc), Size::Standard(27)),
        characters_consistent(capacity(Size::Standard(27), ecc), Size::Standard(27), ecc),
{
    reveal(standard_capacity);
    lemma_two_to_values();
    match ecc {
        ECCLevel::L => {
            lemma_schedule_totals(capacity(Size::Standard(27), ECCLevel::L), 8, 152, 122, 4, 153, 123);
            assert(is_consistent(capacity(Size::Standard(27), ECCLevel::L), Size::Standard(27)));
            assert(characters_consistent(capacity(Size::Standard(27), ECCLevel::L), Size::Standard(27), ECCLevel::L));
        },
        ECCLevel::M => {
            lemma_schedule_totals(capacity(Size::Standard(27), ECCLevel::M), 22, 73, 45, 3, 74, 46);
            assert(is_consistent(capacity(Size::Standard(27), ECCLevel::M), Size::Standard(27)));
            assert(characters_consistent(capacity(Size::Standard(27), ECCLevel::M), Size::Standard(27), ECCLevel::M));
        },
        ECCLevel::Q => {
            lemma_schedule_totals(capacity(Size::Standard(27), ECCLevel::Q), 8, 53, 23, 26, 54, 24);
            assert(is_consistent(capacity(Size::Standard(27), ECCLevel::Q), Size::Standard(27)));
            assert(characters_consistent(capacity(Size::Standard(27), ECCLevel::Q), Size::Standard(27), ECCLevel::Q));
        },
        ECCLevel::H => {
            lemma_schedule_totals(capacity(Size::Standard(27), ECCLevel::H), 12, 45, 15, 28, 46, 16);
            assert(is_consistent(capacity(Size::Standard(27), ECCLevel::H), Size::Standard(27)));
            assert(characters_consistent(capacity(Size::Standard(27), ECCLevel::H), Size::Standard(27), ECCLevel::H));
        },
    }
}

proof fn lemma_capacity_standard_28(ecc: ECCLevel)
    requires
        ecc.available_in(Size::Standard(28)),
    ensures
        is_consistent(capacity(Size::Standard(28), ecc), Size::Standard(28)),
        characters_consistent(capacity(Size::Standard(28), ecc), Size::Standard(28), ecc),
{
    reveal(standard_capacity);
    lemma_two_to_values();
    match ecc {
        ECCLevel::L => {
            lemma_schedule_totals(capacity(Size::Standard(28), ECCLevel::L), 3, 147, 117, 10, 148, 118);
            assert(is_consistent(capacity(Size::Standard(28), ECCLevel::L), Size::Standard(28)));
            assert(characters_consistent(capacity(Size::Standard(28), ECCLevel::L), Size::Standard(28), ECCLevel::L));
        },
        ECCLevel::M => {
            lemma_schedule_totals(capacity(Size::Standard(28), ECCLevel::M), 3, 73, 45, 23, 74, 46);
            assert(is_consistent(capacity(Size::Standard(28), ECCLevel::M), Size::Standard(28)));
            assert(characters_consistent(capacity(Size::Standard(28), ECCLevel::M), Size::Standard(28), ECCLevel::M));
        },
        ECCLevel::Q => {
            lemma_schedule_totals(capacity(Size::Standard(28), ECCLevel::Q), 4, 54, 24, 31, 55, 25);
            assert(is_consistent(capacity(Size::Standard(28), ECCLevel::Q), Size::Standard(28)));
            assert(characters_consistent(capacity(Size::Standard(28), ECCLevel::Q), Size::Standard(28), ECCLevel::Q));
        },
        ECCLevel::H => {
            lemma_schedule_totals(capacity(Size::Standard(28), ECCLevel::H), 11, 45, 15, 31, 46, 16);
            assert(is_consistent(capacity(Size::Standard(28), ECCLevel::H), Size::Standard(28)));
            assert(characters_consistent(capacity(Size::Standard(28), ECCLevel::H), Size::Standard(28), ECCLevel::H));
        },
    }
}

proof fn lemma_capacity_standard_29(ecc: ECCLevel)
    requires
        ecc.available_in(Size::Standard(29)),
    ensures
        is_consistent(capacity(Size::Standard(29), ecc), Size::Standard(29)),
        characters_consistent(capacity(Size::Standard(29), ecc), Size::Standard(29), ecc),
{
    reveal(standard_capacity);
    lemma_two_to_values();
    match ecc {
        ECCLevel::L => {
            lemma_schedule_totals(capacity(Size::Standard(29), ECCLevel::L), 7, 146, 116, 7, 147, 117);
            assert(is_consistent(capacity(Size::Standard(29), ECCLevel::L), Size::Standard(29)));
            assert(characters_consistent(capacity(Size::Standard(29), ECCLevel::L), Size::Standard(29), ECCLevel::L));
        },
        ECCLevel::M => {
            lemma_schedule_totals(capacity(Size::Standard(29), ECCLevel::M), 21, 73, 45, 7, 74, 46);
            assert(is_consistent(capacity(Size::Standard(29), ECCLevel::M), Size::Standard(29)));
            assert(characters_consistent(capacity(Size::Standard(29), ECCLevel::M), Size::Standard(29), ECCLevel::M));
        },
        ECCLevel::Q => {
            lemma_schedule_totals(capacity(Size::Standard(29), ECCLevel::Q), 1, 53, 23, 37, 54, 24);
            assert(is_consistent(capacity(Size::Standard(29), ECCLevel::Q), Size::Standard(29)));
            assert(characters_consistent(capacity(Size::Standard(29), ECCLevel::Q), Size::Standard(29), ECCLevel::Q));
        },
        ECCLevel::H => {
            lemma_schedule_totals(capacity(Size::Standard(29), ECCLevel::H), 19, 45, 15, 26, 46, 16);
            assert(is_consistent(capacity(Size::Standard(29), ECCLevel::H), Size::Standard(29)));
            assert(characters_consistent(capacity(Size::Standard(29), ECCLevel::H), Size::Standard(29), ECCLevel::H));
        },
    }
}

proof fn lemma_capacity_standard_30(ecc: ECCLevel)
    requires
        ecc.available_in(Size::Standard(30)),
    ensures
        is_consistent(capacity(Size::Standard(30), ecc), Size::Standard(30)),
        characters_consistent(capacity(Size::Standard(30), ecc), Size::Standard(30), ecc),
{
    reveal(standard_capacity);
    lemma_two_to_values();
    match ecc {
        ECCLevel::L => {
            lemma_schedule_totals(capacity(Size::Standard(30), ECCLevel::L), 5, 145, 115, 10, 146, 116);
            assert(is_consistent(capacity(Size::Standard(30), ECCLevel::L), Size::Standard(30)));
            assert(characters_consistent(capacity(Size::Standard(30), ECCLevel::L), Size::Standard(30), ECCLevel::L));
        },
        ECCLevel::M => {
            lemma_schedule_totals(capacity(Size::Standard(30), ECCLevel::M), 19, 75, 47, 10, 76, 48);
            assert(is_consistent(capacity(Size::Standard(30), ECCLevel::M), Size::Standard(30)));
            assert(characters_consistent(capacity(Size::Standard(30), ECCLevel::M), Size::Standard(30), ECCLevel::M));
        },
        ECCLevel::Q => {
            lemma_schedule_totals(capacity(Size::Standard(30), ECCLevel::Q), 15, 54, 24, 25, 55, 25);
            assert(is_consistent(capacity(Size::Standard(30), ECCLevel::Q), Size::Standard(30)));
            assert(characters_consistent(capacity(Size::Standard(30), ECCLevel::Q), Size::Standard(30), ECCLevel::Q));
        },
        ECCLevel::H => {
            lemma_schedule_totals(capacity(Size::Standard(30), ECCLevel::H), 23, 45, 15, 25, 46, 16);
            assert(is_consistent(capacity(Size::Standard(30), ECCLevel::H), Size::Standard(30)));
            assert(characters_consistent(capacity(Size::Standard(30), ECCLevel::H), Size::Standard(30), ECCLevel::H));
        },
    }
}

proof fn lemma_capacity_standard_31(ecc: ECCLevel)
    requires
        ecc.available_in(Size::Standard(31)),
    ensures
        is_consistent(capacity(Size::Standard(31), ecc), Size::Standard(31)),
        characters_consistent(capacity(Size::Standard(31), ecc), Size::Standard(31), ecc),
{
    reveal(standard_capacity);
    lemma_two_to_values();
    match ecc {
        ECCLevel::L => {
            lemma_schedule_totals(capacity(Size::Standard(31), ECCLevel::L), 13, 145, 115, 3, 146, 116);
            assert(is_consistent(capacity(Size::Standard(31), ECCLevel::L), Size::Standard(31)));
            assert(characters_consistent(capacity(Size::Standard(31), ECCLevel::L), Size::Standard(31), ECCLevel::L));
        },
        ECCLevel::M => {
            lemma_schedule_totals(capacity(Size::Standard(31), ECCLevel::M), 2, 74, 46, 29, 75, 47);
            assert(is_consistent(capacity(Size::Standard(31), ECCLevel::M), Size::Standard(31)));
            assert(characters_consistent(capacity(Size::Standard(31), ECCLevel::M), Size::Standard(31), ECCLevel::M));
        },
        ECCLevel::Q => {
            lemma_schedule_totals(capacity(Size::Standard(31), ECCLevel::Q), 42, 54, 24, 1, 55, 25);
            assert(is_consistent(capacity(Size::Standard(31), ECCLevel::Q), Size::Standard(31)));
            assert(characters_consistent(capacity(Size::Standard(31), ECCLevel::Q), Size::Standard(31), ECCLevel::Q));
        },
        ECCLevel::H => {
            lemma_schedule_totals(capacity(Size::Standard(31), ECCLevel::H), 23, 45, 15, 28, 46, 16);
            assert(is_consistent(capacity(Size::Standard(31), ECCLevel::H), Size::Standard(31)));
            assert(characters_consistent(capacity(Size::Standard(31), ECCLevel::H), Size::Standard(31), ECCLevel::H));
        },
    }
}

proof fn lemma_capacity_standard_32(ecc: ECCLevel)
    requires
        ecc.available_in(Size::Standard(32)),
    ensures
        is_consistent(capacity(Size::Standard(32), ecc), Size::Standard(32)),
        characters_consistent(capacity(Size::Standard(32), ecc), Size::Standard(32), ecc),
{
    reveal(standard_capacity);
    lemma_two_to_values();
    match ecc {
        ECCLevel::L => {
            lemma_schedule_totals(capacity(Size::Standard(32), ECCLevel::L), 17, 145, 115, 0, 0, 0);
            assert(is_consistent(capacity(Size::Standard(32), ECCLevel::L), Size::Standard(32)));
            assert(characters_consistent(capacity(Size::Standard(32), ECCLevel::L), Size::Standard(32), ECCLevel::L));
        },
        ECCLevel::M => {
            lemma_schedule_totals(capacity(Size::Standard(32), ECCLevel::M), 10, 74, 46, 23, 75, 47);
            assert(is_consistent(capacity(Size::Standard(32), ECCLevel::M), Size::Standard(32)));
            assert(characters_consistent(capacity(Size::Standard(32), ECCLevel::M), Size::Standard(32), ECCLevel::M));
        },
        ECCLevel::Q => {
            lemma_schedule_totals(capacity(Size::Standard(32), ECCLevel::Q), 10, 54, 24, 35, 55, 25);
            assert(is_consistent(capacity(Size::Standard(32), ECCLevel::Q), Size::Standard(32)));
            assert(characters_consistent(capacity(Size::Standard(32), ECCLevel::Q), Size::Standard(32), ECCLevel::Q));
        },
        ECCLevel::H => {
            lemma_schedule_totals(capacity(Size::Standard(32), ECCLevel::H), 19, 45, 15, 35, 46, 16);
            assert(is_consistent(capacity(Size::Standard(32), ECCLevel::H), Size::Standard(32)));
            assert(characters_consistent(capacity(Size::Standard(32), ECCLevel::H), Size::Standard(32), ECCLevel::H));
        },
    }
}

proof fn lemma_capacity_standard_33(ecc: ECCLevel)
    requires
        ecc.available_in(Size::Standard(33)),
    ensures
        is_consistent(capacity(Size::Standard(33), ecc), Size::Standard(33)),
        characters_consistent(capacity(Size::Standard(33), ecc), Size::Standard(33), ecc),
{
    reveal(standard_capacity);
    lemma_two_to_values();
    match ecc {
        ECCLevel::L => {
            lemma_schedule_totals(capacity(Size::Standard(33), ECCLevel::L), 17, 145, 115, 1, 146, 116);
            assert(is_consistent(capacity(Size::Standard(33), ECCLevel::L), Size::Standard(33)));
            assert(characters_consistent(capacity(Size::Standard(33), ECCLevel::L), Size::Standard(33), ECCLevel::L));
        },
        ECCLevel::M => {
            lemma_schedule_totals(capacity(Size::Standard(33), ECCLevel::M), 14, 74, 46, 21, 75, 47);
            assert(is_consistent(capacity(Size::Standard(33), ECCLevel::M), Size::Standard(33)));
            assert(characters_consistent(capacity(Size::Standard(33), ECCLevel::M), Size::Standard(33), ECCLevel::M));
        },
        ECCLevel::Q => {
            lemma_schedule_totals(capacity(Size::Standard(33), ECCLevel::Q), 29, 54, 24, 19, 55, 25);
            assert(is_consistent(capacity(Size::Standard(33), ECCLevel::Q), Size::Standard(33)));
            assert(characters_consistent(capacity(Size::Standard(33), ECCLevel::Q), Size::Standard(33), ECCLevel::Q));
        },
        ECCLevel::H => {
            lemma_schedule_totals(capacity(Size::Standard(33), ECCLevel::H), 11, 45, 15, 46, 46, 16);
            assert(is_consistent(capacity(Size::Standard(33), ECCLevel::H), Size::Standard(33)));
            assert(characters_consistent(capacity(Size::Standard(33), ECCLevel::H), Size::Standard(33), ECCLevel::H));
        },
    }
}

proof fn lemma_capacity_standard_34(ecc: ECCLevel)
    requires
        ecc.available_in(Size::Standard(34)),
    ensures
        is_consistent(capacity(Size::Standard(34), ecc), Size::Standard(34)),
        characters_consistent(capacity(Size::Standard(34), ecc), Size::Standard(34), ecc),
{
    reveal(standard_capacity);
    lemma_two_to_values();
    match ecc {
        ECCLevel::L => {
            lemma_schedule_totals(capacity(Size::Standard(34), ECCLevel::L), 13, 145, 115, 6, 146, 116);
            assert(is_consistent(capacity(Size::Standard(34), ECCLevel::L), Size::Standard(34)));
            assert(characters_consistent(capacity(Size::Standard(34), ECCLevel::L), Size::Standard(34), ECCLevel::L));
        },
        ECCLevel::M => {
            lemma_schedule_totals(capacity(Size::Standard(34), ECCLevel::M), 14, 74, 46, 23, 75, 47);
            assert(is_consistent(capacity(Size::Standard(34), ECCLevel::M), Size::Standard(34)));
            assert(characters_consistent(capacity(Size::Standard(34), ECCLevel::M), Size::Standard(34), ECCLevel::M));
        },
        ECCLevel::Q => {
            lemma_schedule_totals(capacity(Size::Standard(34), ECCLevel::Q), 44, 54, 24, 7, 55, 25);
            assert(is_consistent(capacity(Size::Standard(34), ECCLevel::Q), Size::Standard(34)));
            assert(characters_consistent(capacity(Size::Standard(34), ECCLevel::Q), Size::Standard(34), ECCLevel::Q));
        },
        ECCLevel::H => {
            lemma_schedule_totals(capacity(Size::Standard(34), ECCLevel::H), 59, 46, 16, 1, 47, 17);
            assert(is_consistent(capacity(Size::Standard(34), ECCLevel::H), Size::Standard(34)));
            assert(characters_consistent(capacity(Size::Standard(34), ECCLevel::H), Size::Standard(34), ECCLevel::H));
        },
    }
}

proof fn lemma_capacity_standard_35(ecc: ECCLevel)
    requires
        ecc.available_in(Size::Standard(35)),
    ensures
        is_consistent(capacity(Size::Standard(35), ecc), Size::Standard(35)),
        characters_consistent(capacity(Size::Standard(35), ecc), Size::Standard(35), ecc),
{
    reveal(standard_capacity);
    lemma_two_to_values();
    match ecc {
        ECCLevel::L => {
            lemma_schedule_totals(capacity(Size::Standard(35), ECCLevel::L), 12, 151, 121, 7, 152, 122);
            assert(is_consistent(capacity(Size::Standard(35), ECCLevel::L), Size::Standard(35)));
            assert(characters_consistent(capacity(Size::Standard(35), ECCLevel::L), Size::Standard(35), ECCLevel::L));
        },
        ECCLevel::M => {
            lemma_schedule_totals(capacity(Size::Standard(35), ECCLevel::M), 12, 75, 47, 26, 76, 48);
            assert(is_consistent(capacity(Size::Standard(35), ECCLevel::M), Size::Standard(35)));
            assert(characters_consistent(capacity(Size::Standard(35), ECCLevel::M), Size::Standard(35), ECCLevel::M));
        },
        ECCLevel::Q => {
            lemma_schedule_totals(capacity(Size::Standard(35), ECCLevel::Q), 39, 54, 24, 14, 55, 25);
            assert(is_consistent(capacity(Size::Standard(35), ECCLevel::Q), Size::Standard(35)));
            assert(characters_consistent(capacity(Size::Standard(35), ECCLevel::Q), Size::Standard(35), ECCLevel::Q));
        },
        ECCLevel::H => {
            lemma_schedule_totals(capacity(Size::Standard(35), ECCLevel::H), 22, 45, 15, 41, 46, 16);
            assert(is_consistent(capacity(Size::Standard(35), ECCLevel::H), Size::Standard(35)));
            assert(characters_consistent(capacity(Size::Standard(35), ECCLevel::H), Size::Standard(35), ECCLevel::H));
        },
    }
}

proof fn lemma_capacity_standard_36(ecc: ECCLevel)
    requires
        ecc.available_in(Size::Standard(36)),
    ensures
        is_consistent(capacity(Size::Standard(36), ecc), Size::Standard(36)),
        characters_consistent(capacity(Size::Standard(36), ecc), Size::Standard(36), ecc),
{
    reveal(standard_capacity);
    lemma_two_to_values();
    match ecc {
        ECCLevel::L => {
            lemma_schedule_totals(capacity(Size::Standard(36), ECCLevel::L), 6, 151, 121, 14, 152, 122);
            assert(is_consistent(capacity(Size::Standard(36), ECCLevel::L), Size::Standard(36)));
            assert(characters_consistent(capacity(Size::Standard(36), ECCLevel::L), Size::Standard(36), ECCLevel::L));
        },
        ECCLevel::M => {
            lemma_schedule_totals(capacity(Size::Standard(36), ECCLevel::M), 6, 75, 47, 34, 76, 48);
            assert(is_consistent(capacity(Size::Standard(36), ECCLevel::M), Size::Standard(36)));
            assert(characters_consistent(capacity(Size::Standard(36), ECCLevel::M), Size::Standard(36), ECCLevel::M));
        },
        ECCLevel::Q => {
            lemma_schedule_totals(capacity(Size::Standard(36), ECCLevel::Q), 46, 54, 24, 10, 55, 25);
            assert(is_consistent(capacity(Size::Standard(36), ECCLevel::Q), Size::Standard(36)));
            assert(characters_consistent(capacity(Size::Standard(36), ECCLevel::Q), Size::Standard(36), ECCLevel::Q));
        },
        ECCLevel::H => {
            lemma_schedule_totals(capacity(Size::Standard(36), ECCLevel::H), 2, 45, 15, 64, 46, 16);
            assert(is_consistent(capacity(Size::Standard(36), ECCLevel::H), Size::Standard(36)));
            assert(characters_consistent(capacity(Size::Standard(36), ECCLevel::H), Size::Standard(36), ECCLevel::H));
        },
    }
}

proof fn lemma_capacity_standard_37(ecc: ECCLevel)
    requires
        ecc.available_in(Size::Standard(37)),
    ensures
        is_consistent(capacity(Size::Standard(37), ecc), Size::Standard(37)),
        characters_consistent(capacity(Size::Standard(37), ecc), Size::Standard(37), ecc),
{
    reveal(standard_capacity);
    lemma_two_to_values();
    match ecc {
        ECCLevel::L => {
            lemma_schedule_totals(capacity(Size::Standard(37), ECCLevel::L), 17, 152, 122, 4, 153, 123);
            assert(is_consistent(capacity(Size::Standard(37), ECCLevel::L), Size::Standard(37)));
            assert(characters_consistent(capacity(Size::Standard(37), ECCLevel::L), Size::Standard(37), ECCLevel::L));
        },
        ECCLevel::M => {
            lemma_schedule_totals(capacity(Size::Standard(37), ECCLevel::M), 29, 74, 46, 14, 75, 47);
            assert(is_consistent(capacity(Size::Standard(37), ECCLevel::M), Size::Standard(37)));
            assert(characters_consistent(capacity(Size::Standard(37), ECCLevel::M), Size::Standard(37), ECCLevel::M));
        },
        ECCLevel::Q => {
            lemma_schedule_totals(capacity(Size::Standard(37), ECCLevel::Q), 49, 54, 24, 10, 55, 25);
            assert(is_consistent(capacity(Size::Standard(37), ECCLevel::Q), Size::Standard(37)));
            assert(characters_consistent(capacity(Size::Standard(37), ECCLevel::Q), Size::Standard(37), ECCLevel::Q));
        },
        ECCLevel::H => {
            lemma_schedule_totals(capacity(Size::Standard(37), ECCLevel::H), 24, 45, 15, 46, 46, 16);
            assert(is_consistent(capacity(Size::Standard(37), ECCLevel::H), Size::Standard(37)));
            assert(characters_consistent(capacity(Size::Standard(37), ECCLevel::H), Size::Standard(37), ECCLevel::H));
        },
    }
}

proof fn lemma_capacity_standard_38(ecc: ECCLevel)
    requires
        ecc.available_in(Size::Standard(38)),
    ensures
        is_consistent(capacity(Size::Standard(38), ecc), Size::Standard(38)),
        characters_consistent(capacity(Size::Standard(38), ecc), Size::Standard(38), ecc),
{
    reveal(standard_capacity);
    lemma_two_to_values();
    match ecc {
        ECCLevel::L => {
            lemma_schedule_totals(capacity(Size::Standard(38), ECCLevel::L), 4, 152, 122, 18, 153, 123);
            assert(is_consistent(capacity(Size::Standard(38), ECCLevel::L), Size::Standard(38)));
            assert(characters_consistent(capacity(Size::Standard(38), ECCLevel::L), Size::Standard(38), ECCLevel::L));
        },
        ECCLevel::M => {
            lemma_schedule_totals(capacity(Size::Standard(38), ECCLevel::M), 13, 74, 46, 32, 75, 47);
            assert(is_consistent(capacity(Size::Standard(38), ECCLevel::M), Size::Standard(38)));
            assert(characters_consistent(capacity(Size::Standard(38), ECCLevel::M), Size::Standard(38), ECCLevel::M));
        },
        ECCLevel::Q => {
            lemma_schedule_totals(capacity(Size::Standard(38), ECCLevel::Q), 48, 54, 24, 14, 55, 25);
            assert(is_consistent(capacity(Size::Standard(38), ECCLevel::Q), Size::Standard(38)));
            assert(characters_consistent(capacity(Size::Standard(38), ECCLevel::Q), Size::Standard(38), ECCLevel::Q));
        },
        ECCLevel::H => {
            lemma_schedule_totals(capacity(Size::Standard(38), ECCLevel::H), 42, 45, 15, 32, 46, 16);
            assert(is_consistent(capacity(Size::Standard(38), ECCLevel::H), Size::Standard(38)));
            assert(characters_consistent(capacity(Size::Standard(38), ECCLevel::H), Size::Standard(38), ECCLevel::H));
        },
    }
}

proof fn lemma_capacity_standard_39(ecc: ECCLevel)
    requires
        ecc.available_in(Size::Standard(39)),
    ensures
        is_consistent(capacity(Size::Standard(39), ecc), Size::Standard(39)),
        characters_consistent(capacity(Size::Standard(39), ecc), Size::Standard(39), ecc),
{
    reveal(standard_capacity);
    lemma_two_to_values();
    match ecc {
        ECCLevel::L => {
            lemma_schedule_totals(capacity(Size::Standard(39), ECCLevel::L), 20, 147, 117, 4, 148, 118);
            assert(is_consistent(capacity(Size::Standard(39), ECCLevel::L), Size::Standard(39)));
            assert(characters_consistent(capacity(Size::Standard(39), ECCLevel::L), Size::Standard(39), ECCLevel::L));
        },
        ECCLevel::M => {
            lemma_schedule_totals(capacity(Size::Standard(39), ECCLevel::M), 40, 75, 47, 7, 76, 48);
            assert(is_consistent(capacity(Size::Standard(39), ECCLevel::M), Size::Standard(39)));
            assert(characters_consistent(capacity(Size::Standard(39), ECCLevel::M), Size::Standard(39), ECCLevel::M));
        },
        ECCLevel::Q => {
            lemma_schedule_totals(capacity(Size::Standard(39), ECCLevel::Q), 43, 54, 24, 22, 55, 25);
            assert(is_consistent(capacity(Size::Standard(39), ECCLevel::Q), Size::Standard(39)));
            assert(characters_consistent(capacity(Size::Standard(39), ECCLevel::Q), Size::Standard(39), ECCLevel::Q));
        },
        ECCLevel::H => {
            lemma_schedule_totals(capacity(Size::Standard(39), ECCLevel::H), 10, 45, 15, 67, 46, 16);
            assert(is_consistent(capacity(Size::Standard(39), ECCLevel::H), Size::Standard(39)));
            assert(characters_consistent(capacity(Size::Standard(39), ECCLevel::H), Size::Standard(39), ECCLevel::H));
        },
    }
}

proof fn lemma_capacity_standard_40(ecc: ECCLevel)
    requires
        ecc.available_in(Size::Standard(40)),
    ensures
        is_consistent(capacity(Size::Standard(40), ecc), Size::Standard(40)),
        characters_consistent(capacity(Size::Standard(40), ecc), Size::Standard(40), ecc),
{
    reveal(standard_capacity);
    lemma_two_to_values();
    match ecc {
        ECCLevel::L => {
            lemma_schedule_totals(capacity(Size::Standard(40), ECCLevel::L), 19, 148, 118, 6, 149, 119);
            assert(is_consistent(capacity(Size::Standard(40), ECCLevel::L), Size::Standard(40)));
            assert(characters_consistent(capacity(Size::Standard(40), ECCLevel::L), Size::Standard(40), ECCLevel::L));
        },
        ECCLevel::M => {
            lemma_schedule_totals(capacity(Size::Standard(40), ECCLevel::M), 18, 75, 47, 31, 76, 48);
            assert(is_consistent(capacity(Size::Standard(40), ECCLevel::M), Size::Standard(40)));
            assert(characters_consistent(capacity(Size::Standard(40), ECCLevel::M), Size::Standard(40), ECCLevel::M));
        },
        ECCLevel::Q => {
            lemma_schedule_totals(capacity(Size::Standard(40), ECCLevel::Q), 34, 54, 24, 34, 55, 25);
            assert(is_consistent(capacity(Size::Standard(40), ECCLevel::Q), Size::Standard(40)));
            assert(characters_consistent(capacity(Size::Standard(40), ECCLevel::Q), Size::Standard(40), ECCLevel::Q));
        },
        ECCLevel::H => {
            lemma_schedule_totals(capacity(Size::Standard(40), ECCLevel::H), 20, 45, 15, 61, 46, 16);
            assert(is_consistent(capacity(Size::Standard(40), ECCLevel::H), Size::Standard(40)));
            assert(characters_consistent(capacity(Size::Standard(40), ECCLevel::H), Size::Standard(40), ECCLevel::H));
        },
    }
}

proof fn lemma_capacity_micro(v: u8, ecc: ECCLevel)
    requires
        1 <= v <= 4,
        ecc.available_in(Size::Micro(v)),
    ensures
        is_consistent(capacity(Size::Micro(v), ecc), Size::Micro(v)),
        characters_consistent(capacity(Size::Micro(v), ecc), Size::Micro(v), ecc),
{
    if v == 1 {
        lemma_capacity_micro_1(ecc);
    } else if v == 2 {
        lemma_capacity_micro_2(ecc);
    } else if v == 3 {
        lemma_capacity_micro_3(ecc);
    } else if v == 4 {
        lemma_capacity_micro_4(ecc);
    }
}

proof fn lemma_capacity_standard_1_to_10(v: u8, ecc: ECCLevel)
    requires
        1 <= v <= 10,
        ecc.available_in(Size::Standard(v)),
    ensures
        is_consistent(capacity(Size::Standard(v), ecc), Size::Standard(v)),
        characters_consistent(capacity(Size::Standard(v), ecc), Size::Standard(v), ecc),
{
    if v == 1 {
        lemma_capacity_standard_1(ecc);
    } else if v == 2 {
        lemma_capacity_standard_2(ecc);
    } else if v == 3 {
        lemma_capacity_standard_3(ecc);
    } else if v == 4 {
        lemma_capacity_standard_4(ecc);
    } else if v == 5 {
        lemma_capacity_standard_5(ecc);
    } else if v == 6 {
        lemma_capacity_standard_6(ecc);
    } else if v == 7 {
        lemma_capacity_standard_7(ecc);
    } else if v == 8 {
        lemma_capacity_standard_8(ecc);
    } else if v == 9 {
        lemma_capacity_standard_9(ecc);
    } else if v == 10 {
        lemma_capacity_standard_10(ecc);
    }
}

proof fn lemma_capacity_standard_11_to_20(v: u8, ecc: ECCLevel)
    requires
        11 <= v <= 20,
        ecc.available_in(Size::Standard(v)),
    ensures
        is_consistent(capacity(Size::Standard(v), ecc), Size::Standard(v)),
        characters_consistent(capacity(Size::Standard(v), ecc), Size::Standard(v), ecc),
{
    if v == 11 {
        lemma_capacity_standard_11(ecc);
    } else if v == 12 {
        lemma_capacity_standard_12(ecc);
    } else if v == 13 {
        lemma_capacity_standard_13(ecc);
    } else if v == 14 {
        lemma_capacity_standard_14(ecc);
    } else if v == 15 {
        lemma_capacity_standard_15(ecc);
    } else if v == 16 {
        lemma_capacity_standard_16(ecc);
    } else if v == 17 {
        lemma_capacity_standard_17(ecc);
    } else if v == 18 {
        lemma_capacity_standard_18(ecc);
    } else if v == 19 {
        lemma_capacity_standard_19(ecc);
    } else if v == 20 {
        lemma_capacity_standard_20(ecc);
    }
}

proof fn lemma_capacity_standard_21_to_30(v: u8, ecc: ECCLevel)
    requires
        21 <= v <= 30,
        ecc.available_in(Size::Standard(v)),
    ensures
        is_consistent(capacity(Size::Standard(v), ecc), Size::Standard(v)),
        characters_consistent(capacity(Size::Standard(v), ecc), Size::Standard(v), ecc),
{
    if v == 21 {
        lemma_capacity_standard_21(ecc);
    } else if v == 22 {
        lemma_capacity_standard_22(ecc);
    } else if v == 23 {
        lemma_capacity_standard_23(ecc);
    } else if v == 24 {
        lemma_capacity_standard_24(ecc);
    } else if v == 25 {
        lemma_capacity_standard_25(ecc);
    } else if v == 26 {
        lemma_capacity_standard_26(ecc);
    } else if v == 27 {
        lemma_capacity_standard_27(ecc);
    } else if v == 28 {
        lemma_capacity_standard_28(ecc);
    } else if v == 29 {
        lemma_capacity_standard_29(ecc);
    } else if v == 30 {
        lemma_capacity_standard_30(ecc);
    }
}

proof fn lemma_capacity_standard_31_to_40(v: u8, ecc: ECCLevel)
    requires
        31 <= v <= 40,
        ecc.available_in(Size::Standard(v)),
    ensures
        is_consistent(capacity(Size::Standard(v), ecc), Size::Standard(v)),
        characters_consistent(capacity(Size::Standard(v), ecc), Size::Standard(v), ecc),
{
    if v == 31 {
        lemma_capacity_standard_31(ecc);
    } else if v == 32 {
        lemma_capacity_standard_32(ecc);
    } else if v == 33 {
        lemma_capacity_standard_33(ecc);
    } else if v == 34 {
        lemma_capacity_standard_34(ecc);
    } else if v == 35 {
        lemma_capacity_standard_35(ecc);
    } else if v == 36 {
        lemma_capacity_standard_36(ecc);
    } else if v == 37 {
        lemma_capacity_standard_37(ecc);
    } else if v == 38 {
        lemma_capacity_standard_38(ecc);
    } else if v == 39 {
        lemma_capacity_standard_39(ecc);
    } else if v == 40 {
        lemma_capacity_standard_40(ecc);
    }
}

/// The record of every configuration is consistent and within the limits
/// of the largest symbol; its codewords are those of the symbol size. The
/// data bits fill the data codewords, but for the last four bits in M1 and
/// M3 symbols, whose last data codeword has only four bits.
pub proof fn lemma_capacity_wf(s: Size, ecc: ECCLevel)
    requires
        ecc.available_in(s),
    ensures
        capacity(s, ecc).wf(),
        capacity(s, ecc).total_codewords() == symbol_codewords(s),
        1 <= capacity(s, ecc).total_data_codewords() < capacity(s, ecc).total_codewords(),
        1 <= capacity(s, ecc).block_ecc_words() <= 30,
        capacity(s, ecc).data_bits == 8 * capacity(s, ecc).total_data_codewords()
            - if s.has_half_codeword() {
            4int
        } else {
            0int
        },
        capacity(s, ecc).total_codewords() <= 3706,
{
    match s {
        Size::Micro(v) => {
            lemma_capacity_micro(v, ecc);
        },
        Size::Standard(v) => {
            if v <= 10 {
                lemma_capacity_standard_1_to_10(v, ecc);
            } else if v <= 20 {
                lemma_capacity_standard_11_to_20(v, ecc);
            } else if v <= 30 {
                lemma_capacity_standard_21_to_30(v, ecc);
            } else {
                lemma_capacity_standard_31_to_40(v, ecc);
            }
        },
    }
}

/// The character capacities of every configuration go with its data bits:
/// a payload of as many characters as the record gives for an encoding
/// fits, with its character count, and a longer one does not. The one
/// exception is Kanji in an M4-Q symbol, where the record gives four
/// characters and five fit.
pub proof fn lemma_character_capacity(s: Size, ecc: ECCLevel)
    requires
        ecc.available_in(s),
    ensures
        characters_consistent(capacity(s, ecc), s, ecc),
{
    match s {
        Size::Micro(v) => {
            lemma_capacity_micro(v, ecc);
        },
        Size::Standard(v) => {
            if v <= 10 {
                lemma_capacity_standard_1_to_10(v, ecc);
            } else if v <= 20 {
                lemma_capacity_standard_11_to_20(v, ecc);
            } else if v <= 30 {
                lemma_capacity_standard_21_to_30(v, ecc);
            } else {
                lemma_capacity_standard_31_to_40(v, ecc);
            }
        },
    }
}

/// For every size, the total number of codewords is the same at all error
/// correction levels that the size offers.
pub proof fn lemma_total_codewords_independent_of_level(s: Size, a: ECCLevel, b: ECCLevel)
    requires
        a.available_in(s),
        b.available_in(s),
    ensures
        capacity(s, a).total_codewords() == capacity(s, b).total_codewords(),
{
    lemma_capacity_wf(s, a);
    lemma_capacity_wf(s, b);
}

/// For every Standard size, the number of data bits is eight times the
/// number of data codewords.
pub proof fn lemma_standard_data_bits(v: u8, ecc: ECCLevel)
    requires
        1 <= v <= 40,
    ensures
        capacity(Size::Standard(v), ecc).data_bits == 8 * capacity(
            Size::Standard(v),
            ecc,
        ).total_data_codewords(),
{
    lemma_capacity_wf(Size::Standard(v), ecc);
}

/// In every schedule with two block groups, the blocks of the second group
/// are one codeword longer than those of the first and carry one data
/// codeword more, so that the blocks of both groups have the same number
/// of error correction codewords.
pub proof fn lemma_second_group_one_larger(s: Size, ecc: ECCLevel)
    requires
        ecc.available_in(s),
        capacity(s, ecc).block_def2.num_blocks != 0,
    ensures
        capacity(s, ecc).block_def2.codewords == capacity(s, ecc).block_def1.codewords + 1,
        capacity(s, ecc).block_def2.data_codewords == capacity(s, ecc).block_def1.data_codewords
            + 1,
        capacity(s, ecc).block_def2.codewords - capacity(s, ecc).block_def2.data_codewords
            == capacity(s, ecc).block_ecc_words(),
{
    lemma_capacity_wf(s, ecc);
}

} // verus!
