//! Symbol configuration: encoding modes, symbol sizes and error correction
//! levels, together with the textual form `"{size}-{ecc}"` of a
//! configuration.
use itertools::Itertools;
use std::cmp::Ordering;
use vstd::prelude::*;
use vstd::string::*;

verus! {

//-------------------------------------------------------------------------------------------------
/// The way in which payload bytes are packed into bits.
#[derive(Clone, Copy, Hash, Eq, PartialEq, Debug, Structural)]
pub enum Encoding {
    /// Only the digits `0` to `9`.
    Numeric,
    /// Digits, capital letters, space and `$%*+-./:`.
    Alphanumeric,
    /// Arbitrary bytes, ISO/IEC 8859-1 unless an ECI header says otherwise.
    Bytes,
    /// Two-byte Shift JIS X 0208 characters.
    Kanji,
}

impl Encoding {
    /// `a.covered_by(b)` holds when every payload that `a` can carry can also be
    /// carried by `b`.
    pub open spec fn covered_by(self, other: Encoding) -> bool {
        self == other || other == Encoding::Bytes || (self == Encoding::Numeric && other
            == Encoding::Alphanumeric)
    }

    /// The least encoding that is above both `self` and `other`.
    pub open spec fn join(self, other: Encoding) -> Encoding {
        if self.covered_by(other) {
            other
        } else if other.covered_by(self) {
            self
        } else {
            Encoding::Bytes
        }
    }

    /// Width in bits of the character count indicator.
    pub open spec fn char_count_bits(self, size: Size) -> nat {
        match size {
            Size::Micro(k) => match self {
                Encoding::Numeric => (k + 2) as nat,
                Encoding::Alphanumeric | Encoding::Bytes => (k + 1) as nat,
                Encoding::Kanji => k as nat,
            },
            Size::Standard(v) => if 1 <= v <= 9 {
                match self {
                    Encoding::Numeric => 10,
                    Encoding::Alphanumeric => 9,
                    Encoding::Bytes | Encoding::Kanji => 8,
                }
            } else if 10 <= v <= 26 {
                match self {
                    Encoding::Numeric => 12,
                    Encoding::Alphanumeric => 11,
                    Encoding::Bytes => 16,
                    Encoding::Kanji => 10,
                }
            } else {
                match self {
                    Encoding::Numeric => 14,
                    Encoding::Alphanumeric => 13,
                    Encoding::Bytes => 16,
                    Encoding::Kanji => 12,
                }
            },
        }
    }

    /// Whether a symbol of the given size offers this encoding: every
    /// Standard size offers all four, M1 only Numeric, M2 Numeric and
    /// Alphanumeric, M3 and M4 all four.
    pub open spec fn available_in(self, size: Size) -> bool {
        match size {
            Size::Micro(k) => match self {
                Encoding::Numeric => true,
                Encoding::Alphanumeric => k >= 2,
                Encoding::Bytes | Encoding::Kanji => k >= 3,
            },
            Size::Standard(_) => true,
        }
    }

    /// Number of data bits that `num_chars` characters occupy.
    pub open spec fn encoded_bits(self, num_chars: nat) -> nat {
        match self {
            Encoding::Numeric => (10 * num_chars + 2) / 3,
            Encoding::Alphanumeric => (11 * num_chars + 1) / 2,
            Encoding::Bytes => num_chars * 8,
            Encoding::Kanji => num_chars * 13,
        }
    }

    /// Return the number of bits used in the given symbol version/size to encode the number of
    /// characters for the following encoded content.
    pub fn num_char_count_bits(self, size: Size) -> (bits: usize)
        ensures
            bits == self.char_count_bits(size),
            bits <= 257,
            size.valid() ==> bits <= 16,
    {
        match size {
            Size::Micro(i) => {
                let a: usize = i as usize;
                match self {
                    Encoding::Numeric => 2 + a,
                    Encoding::Alphanumeric | Encoding::Bytes => 1 + a,
                    Encoding::Kanji => a,
                }
            },
            Size::Standard(v) => {
                if 1 <= v && v <= 9 {
                    match self {
                        Encoding::Numeric => 10,
                        Encoding::Alphanumeric => 9,
                        Encoding::Bytes | Encoding::Kanji => 8,
                    }
                } else if 10 <= v && v <= 26 {
                    match self {
                        Encoding::Numeric => 12,
                        Encoding::Alphanumeric => 11,
                        Encoding::Bytes => 16,
                        Encoding::Kanji => 10,
                    }
                } else {
                    match self {
                        Encoding::Numeric => 14,
                        Encoding::Alphanumeric => 13,
                        Encoding::Bytes => 16,
                        Encoding::Kanji => 12,
                    }
                }
            },
        }
    }

    /// Whether a symbol of the given size offers this encoding.
    pub fn is_available_in(self, size: Size) -> (b: bool)
        ensures
            b == self.available_in(size),
    {
        match size {
            Size::Micro(k) => match self {
                Encoding::Numeric => true,
                Encoding::Alphanumeric => k >= 2,
                Encoding::Bytes | Encoding::Kanji => k >= 3,
            },
            Size::Standard(_) => true,
        }
    }

    /// Compute the number of bits needed to encode a sequence with the given length
    /// of characters. Note that in Kanji encodings this is half the number of bytes,
    /// while in the other encodings it is equivalent with the number of bytes.
    pub fn num_encoded_bits(self, num_chars: usize) -> (bits: usize)
        requires
            13 * num_chars + 2 <= usize::MAX,
        ensures
            bits == self.encoded_bits(num_chars as nat),
    {
        match self {
            Encoding::Numeric => (10 * num_chars + 2) / 3,
            Encoding::Alphanumeric => (11 * num_chars + 1) / 2,
            Encoding::Bytes => num_chars * 8,
            Encoding::Kanji => num_chars * 13,
        }
    }

    /// Compute the lowest common encoding of two encodings in the sense of the partial
    /// ordering defined below.
    pub fn upper_bound(self, other: Self) -> (r: Self)
        ensures
            r == self.join(other),
    {
        match self.partial_cmp(&other) {
            Some(Ordering::Less) | Some(Ordering::Equal) => other,
            Some(Ordering::Greater) => self,
            None => Encoding::Bytes  // bytes is an upper bound for every encoding
            ,
        }
    }
}

impl PartialOrd for Encoding {
    /// Defines a partial ordering for encodings, it is `a <= b` if `b` contains a superset of
    /// all characters supported by `a`.
    fn partial_cmp(&self, other: &Self) -> (r: Option<Ordering>) {
        match (*self, *other) {
            (Encoding::Numeric, Encoding::Alphanumeric)
            | (Encoding::Numeric, Encoding::Bytes)
            | (Encoding::Alphanumeric, Encoding::Bytes)
            | (Encoding::Kanji, Encoding::Bytes) => Some(Ordering::Less),
            (Encoding::Alphanumeric, Encoding::Numeric)
            | (Encoding::Bytes, Encoding::Numeric)
            | (Encoding::Bytes, Encoding::Alphanumeric)
            | (Encoding::Bytes, Encoding::Kanji) => Some(Ordering::Greater),
            (Encoding::Numeric, Encoding::Numeric)
            | (Encoding::Alphanumeric, Encoding::Alphanumeric)
            | (Encoding::Bytes, Encoding::Bytes)
            | (Encoding::Kanji, Encoding::Kanji) => Some(Ordering::Equal),
            _ => None,
        }
    }
}

impl vstd::std_specs::cmp::PartialOrdSpecImpl for Encoding {
    open spec fn obeys_partial_cmp_spec() -> bool {
        true
    }

    open spec fn partial_cmp_spec(&self, other: &Self) -> Option<Ordering> {
        if *self == *other {
            Some(Ordering::Equal)
        } else if self.covered_by(*other) {
            Some(Ordering::Less)
        } else if other.covered_by(*self) {
            Some(Ordering::Greater)
        } else {
            None
        }
    }
}

/// The order on encodings is a partial order, and `join` gives least upper
/// bounds in it: the join is above both arguments and below every other
/// encoding that is above both.
pub proof fn lemma_join_is_least_upper_bound(a: Encoding, b: Encoding, c: Encoding)
    ensures
        a.covered_by(a),
        a.covered_by(b) && b.covered_by(a) ==> a == b,
        a.covered_by(b) && b.covered_by(c) ==> a.covered_by(c),
        a.covered_by(a.join(b)),
        b.covered_by(a.join(b)),
        a.covered_by(c) && b.covered_by(c) ==> a.join(b).covered_by(c),
{
}

//-------------------------------------------------------------------------------------------------
/// The size of a symbol: Micro QR versions M1 to M4, or QR versions 1 to 40.
#[derive(Clone, Copy, Hash, Eq, PartialEq, Debug, Structural)]
pub enum Size {
    /// Versions M1 through M4.
    Micro(u8),
    /// Versions 1 through 40.
    Standard(u8),
}

/// The value of a decimal digit, if the character is one.
pub open spec fn digit_value(c: char) -> Option<u8> {
    if c == '0' {
        Some(0u8)
    } else if c == '1' {
        Some(1u8)
    } else if c == '2' {
        Some(2u8)
    } else if c == '3' {
        Some(3u8)
    } else if c == '4' {
        Some(4u8)
    } else if c == '5' {
        Some(5u8)
    } else if c == '6' {
        Some(6u8)
    } else if c == '7' {
        Some(7u8)
    } else if c == '8' {
        Some(8u8)
    } else if c == '9' {
        Some(9u8)
    } else {
        None
    }
}

/// The size that a string denotes: `M1` to `M4` for the Micro sizes, and
/// the decimal numbers `1` to `40`, without sign or leading zero, for the
/// Standard sizes.
pub open spec fn parse_size(s: Seq<char>) -> Option<Size> {
    if s.len() == 2 && s[0] == 'M' {
        match digit_value(s[1]) {
            Some(k) => if 1 <= k <= 4 {
                Some(Size::Micro(k))
            } else {
                None
            },
            None => None,
        }
    } else if s.len() == 1 {
        match digit_value(s[0]) {
            Some(v) => if 1 <= v {
                Some(Size::Standard(v))
            } else {
                None
            },
            None => None,
        }
    } else if s.len() == 2 {
        match (digit_value(s[0]), digit_value(s[1])) {
            (Some(t), Some(u)) => if 1 <= t && 10 * t + u <= 40 {
                Some(Size::Standard((10 * t + u) as u8))
            } else {
                None
            },
            _ => None,
        }
    } else {
        None
    }
}

fn digit_of(c: char) -> (d: Option<u8>)
    ensures
        d == digit_value(c),
        d matches Some(v) ==> v <= 9,
{
    if c == '0' {
        Some(0)
    } else if c == '1' {
        Some(1)
    } else if c == '2' {
        Some(2)
    } else if c == '3' {
        Some(3)
    } else if c == '4' {
        Some(4)
    } else if c == '5' {
        Some(5)
    } else if c == '6' {
        Some(6)
    } else if c == '7' {
        Some(7)
    } else if c == '8' {
        Some(8)
    } else if c == '9' {
        Some(9)
    } else {
        None
    }
}

impl Size {
    /// The version number lies in the range of its family.
    pub open spec fn valid(self) -> bool {
        match self {
            Size::Micro(k) => 1 <= k <= 4,
            Size::Standard(v) => 1 <= v <= 40,
        }
    }

    /// Number of modules along one side of the symbol, without the quiet
    /// zone.
    pub open spec fn interior(self) -> int {
        match self {
            Size::Micro(k) => 2 * k + 9,
            Size::Standard(v) => 4 * v + 17,
        }
    }

    /// Width of the quiet zone on each side.
    pub open spec fn quiet(self) -> int {
        match self {
            Size::Micro(_) => 2,
            Size::Standard(_) => 4,
        }
    }

    /// Number of modules along one side of the symbol, quiet zone included.
    pub open spec fn side(self) -> int {
        self.interior() + 2 * self.quiet()
    }

    /// Width in bits of the mode indicator.
    pub open spec fn mode_indicator_bits(self) -> int {
        match self {
            Size::Micro(k) => k - 1,
            Size::Standard(_) => 4,
        }
    }

    /// Greatest number of zero bits that end the data.
    pub open spec fn terminator_bits(self) -> int {
        match self {
            Size::Micro(k) => 2 * k + 1,
            Size::Standard(_) => 4,
        }
    }

    /// M1 and M3 symbols end their data with a codeword of four bits.
    pub open spec fn has_half_codeword(self) -> bool {
        self == Size::Micro(1) || self == Size::Micro(3)
    }

    /// Whether the version number lies in the range of its family.
    pub fn is_valid(self) -> (b: bool)
        ensures
            b == self.valid(),
    {
        match self {
            Size::Micro(k) => 1 <= k && k <= 4,
            Size::Standard(v) => 1 <= v && v <= 40,
        }
    }

    /// Convert a simple string description into a fitting enum
    /// value by parsing it. micro symbols are described as "M1"
    /// through "M4", the standard ones just by their size index, e.g. "6".
    pub fn from_str(decl: &str) -> (size: Size)
        requires
            parse_size(decl@) is Some,
        ensures
            parse_size(decl@) == Some(size),
            size.valid(),
    {
        let n: usize = decl.unicode_len();
        if n == 2 && decl.get_char(0) == 'M' {
            match digit_of(decl.get_char(1)) {
                Some(k) => Size::Micro(k),
                None => Size::Micro(1),
            }
        } else if n == 1 {
            match digit_of(decl.get_char(0)) {
                Some(v) => Size::Standard(v),
                None => Size::Standard(1),
            }
        } else if n == 2 {
            match (digit_of(decl.get_char(0)), digit_of(decl.get_char(1))) {
                (Some(t), Some(u)) => Size::Standard(10 * t + u),
                _ => Size::Standard(1),
            }
        } else {
            Size::Standard(1)
        }
    }

    /// Simply return only version number, without the micro or standard
    pub fn version(self) -> (v: u8)
        ensures
            v == match self {
                Size::Micro(i) => i,
                Size::Standard(i) => i,
            },
    {
        match self {
            Size::Micro(i) => i,
            Size::Standard(i) => i,
        }
    }

    /// Return quiet region size (counted only once)
    pub fn quiet_region_size(self) -> (q: u32)
        ensures
            q == self.quiet(),
    {
        match self {
            Size::Micro(_) => 2,
            Size::Standard(_) => 4,
        }
    }

    /// Return the width & height of the given size symbol, not counting the quiet region
    pub fn dimensions(self) -> (d: u32)
        ensures
            d == self.interior(),
    {
        match self {
            Size::Micro(i) => (i as u32) * 2 + 9,
            Size::Standard(i) => (i as u32) * 4 + 17,
        }
    }

    /// Return the number of mode indicator bits
    pub fn num_mode_indicator_bits(self) -> (bits: usize)
        requires
            self.valid(),
        ensures
            bits == self.mode_indicator_bits(),
    {
        match self {
            Size::Micro(i) => (i as usize) - 1,
            Size::Standard(_) => 4,
        }
    }

    /// Return terminator length (terminator is always only zero bits)
    pub fn terminator_length(self) -> (bits: usize)
        ensures
            bits == self.terminator_bits(),
    {
        match self {
            Size::Micro(i) => 1 + 2 * (i as usize),
            Size::Standard(_) => 4,
        }
    }

    /// turn micro vs standard into a boolean
    pub fn is_micro(self) -> (b: bool)
        ensures
            b == (self is Micro),
    {
        match self {
            Size::Micro(_) => true,
            Size::Standard(_) => false,
        }
    }
}

//-------------------------------------------------------------------------------------------------
/// The error correction level of a symbol.
#[derive(Clone, Copy, Hash, Eq, PartialEq, Debug, Structural)]
pub enum ECCLevel {
    /// Allows recovery of 7% of the data.
    L,
    /// Allows recovery of 15% of the data.
    M,
    /// Allows recovery of 25% of the data.
    Q,
    /// Allows recovery of 30% of the data.
    H,
}

/// The error correction level that a string denotes: one of the letters
/// `L`, `M`, `Q`, `H`.
pub open spec fn parse_ecc(s: Seq<char>) -> Option<ECCLevel> {
    if s.len() != 1 {
        None
    } else if s[0] == 'L' {
        Some(ECCLevel::L)
    } else if s[0] == 'M' {
        Some(ECCLevel::M)
    } else if s[0] == 'Q' {
        Some(ECCLevel::Q)
    } else if s[0] == 'H' {
        Some(ECCLevel::H)
    } else {
        None
    }
}

impl ECCLevel {
    /// Whether a symbol of the given size offers this level: every Standard
    /// size offers all four, M1 only L, M2 and M3 L and M, and M4 L, M and
    /// Q. No level is offered by a size whose version is out of range.
    pub open spec fn available_in(self, size: Size) -> bool {
        size.valid() && match size {
            Size::Micro(k) => match self {
                ECCLevel::L => true,
                ECCLevel::M => k >= 2,
                ECCLevel::Q => k == 4,
                ECCLevel::H => false,
            },
            Size::Standard(_) => true,
        }
    }

    /// Whether a symbol of the given size offers this level.
    pub fn is_available_in(self, size: Size) -> (b: bool)
        ensures
            b == self.available_in(size),
    {
        size.is_valid() && match size {
            Size::Micro(k) => match self {
                ECCLevel::L => true,
                ECCLevel::M => k >= 2,
                ECCLevel::Q => k == 4,
                ECCLevel::H => false,
            },
            Size::Standard(_) => true,
        }
    }

    /// Convert a simple string denoting the ECC level into
    /// the corresponding enum value
    pub fn from_str(desc: &str) -> (level: ECCLevel)
        requires
            parse_ecc(desc@) is Some,
        ensures
            parse_ecc(desc@) == Some(level),
    {
        let n: usize = desc.unicode_len();
        if n != 1 {
            ECCLevel::L
        } else {
            let c = desc.get_char(0);
            if c == 'L' {
                ECCLevel::L
            } else if c == 'M' {
                ECCLevel::M
            } else if c == 'Q' {
                ECCLevel::Q
            } else {
                ECCLevel::H
            }
        }
    }
}

//-------------------------------------------------------------------------------------------------
/// A symbol size together with an error correction level.
#[derive(Clone, Copy, Hash, Eq, PartialEq, Debug, Structural)]
pub struct SymbolConfig(pub Size, pub ECCLevel);

/// Index of the first occurrence of `c` in `s`, or the length of `s` where
/// `c` does not occur.
pub open spec fn find_char(s: Seq<char>, c: char) -> int
    decreases s.len(),
{
    if s.len() == 0 {
        0
    } else if s[0] == c {
        0
    } else {
        1 + find_char(s.drop_first(), c)
    }
}

/// The part of `s` before the first occurrence of `c`: all of `s` where `c`
/// does not occur.
pub open spec fn first_field(s: Seq<char>, c: char) -> Seq<char> {
    s.subrange(0, find_char(s, c))
}

/// The part of `s` behind the first occurrence of `c`.
pub open spec fn after_first(s: Seq<char>, c: char) -> Seq<char> {
    s.subrange(find_char(s, c) + 1, s.len() as int)
}

/// `find_char` returns a position in the sequence or its length.
pub proof fn lemma_find_char_bounds(s: Seq<char>, c: char)
    ensures
        0 <= find_char(s, c) <= s.len(),
        find_char(s, c) < s.len() ==> s[find_char(s, c)] == c,
    decreases s.len(),
{
    if s.len() > 0 && s[0] != c {
        lemma_find_char_bounds(s.drop_first(), c);
    }
}

/// The configuration that a string of the form `"{size}-{ecc}"` denotes.
pub open spec fn parse_config(s: Seq<char>) -> Option<SymbolConfig> {
    if find_char(s, '-') >= s.len() {
        None
    } else {
        match (parse_size(first_field(s, '-')), parse_ecc(after_first(s, '-'))) {
            (Some(size), Some(level)) => Some(SymbolConfig(size, level)),
            _ => None,
        }
    }
}

/// What cutting `text` at the separator `c` yields as its first two pieces:
/// nothing where the separator does not occur; otherwise what stands before
/// the first separator, and what stands behind it up to the next separator
/// or the end.
pub open spec fn first_two_fields(text: Seq<char>, c: char) -> Option<(Seq<char>, Seq<char>)> {
    if find_char(text, c) >= text.len() {
        None
    } else {
        Some((first_field(text, c), first_field(after_first(text, c), c)))
    }
}

/// The views of a pair of string slices.
pub open spec fn pair_view(r: Option<(&str, &str)>) -> Option<(Seq<char>, Seq<char>)> {
    match r {
        Some((a, b)) => Some((a@, b@)),
        None => None,
    }
}

/// The first two of the pieces into which the one-character separator `sep`
/// cuts `text`, by `str::split` of std and `Itertools::next_tuple` of
/// itertools. The contract claims that the result is `first_two_fields` of
/// the text: `split` yields the pieces between the separators in order, and
/// `next_tuple` hands out the first two of them, or nothing where there are
/// fewer than two.
#[verifier::external_body]
fn first_two_pieces<'a>(text: &'a str, sep: &str) -> (r: Option<(&'a str, &'a str)>)
    requires
        sep@.len() == 1,
    ensures
        pair_view(r) == first_two_fields(text@, sep@[0]),
{
    text.split(sep).next_tuple()
}

impl SymbolConfig {
    /// Constructor
    pub fn new(s: Size, e: ECCLevel) -> (c: SymbolConfig)
        ensures
            c == SymbolConfig(s, e),
    {
        SymbolConfig(s, e)
    }

    /// Convenience function that creates a SymbolConfig from
    /// a string in the form commonly used in the standard,
    /// such as 1-H, M3-L, 6-M, etc.
    pub fn from_str(decl: &str) -> (c: SymbolConfig)
        requires
            parse_config(decl@) is Some,
        ensures
            parse_config(decl@) == Some(c),
    {
        proof {
            reveal_strlit("-");
            lemma_find_char_bounds(decl@, '-');
        }
        match first_two_pieces(decl, "-") {
            Some((s, e)) => {
                proof {
                    let rest = after_first(decl@, '-');
                    lemma_find_char_bounds(rest, '-');
                    // the level is a single letter, so no further separator follows
                    assert(rest.len() == 1);
                    assert(rest[0] != '-');
                    assert(find_char(rest.drop_first(), '-') == 0);
                    assert(find_char(rest, '-') == 1);
                    assert(first_field(rest, '-') =~= rest);
                }
                SymbolConfig::new(Size::from_str(s), ECCLevel::from_str(e))
            },
            None => SymbolConfig::new(Size::Standard(1), ECCLevel::L),
        }
    }
}

} // verus!
