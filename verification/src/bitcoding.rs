//! The bit stream encoder: mode and character count indicators, the
//! packing of digits, alphanumeric characters, bytes and Kanji, ECI
//! headers, and the terminator, alignment and pad codewords that fill a
//! symbol's data capacity.
use crate::bits::{
    be_bits, bits_value, lemma_be_bits_len, lemma_be_bits_zero, lemma_pack_half_byte,
    lemma_two_to_values, pack_bytes, residue_bits, two_to, zero_bits,
};
use crate::config::{ECCLevel, Encoding, Size};
use crate::error::QrError;
use crate::tables::{capacity, lemma_capacity_wf, lookup_capacity, segment_length};
use bitstream_io::{BigEndian, BitRecorder, BitWrite, BitWriter};
use vstd::prelude::*;

verus! {

/// An append-only buffer of bits that need not end on a byte boundary. It
/// holds a `BitRecorder<u32, BigEndian>` of bitstream_io, which records
/// writes and plays them back into a byte stream.
#[verifier::external_body]
pub struct QrBitRecorder {
    inner: BitRecorder<u32, BigEndian>,
}

/// The bits that a recorder holds, in the order in which they were written.
pub uninterp spec fn recorded_bits(r: QrBitRecorder) -> Seq<bool>;

/// A recorder without bits, by `BitRecorder::new` of bitstream_io. The
/// contract claims that nothing is recorded in it.
#[verifier::external_body]
fn fresh_recorder() -> (r: QrBitRecorder)
    ensures
        recorded_bits(r) == Seq::<bool>::empty(),
{
    QrBitRecorder { inner: BitRecorder::new() }
}

/// The number of recorded bits, by `BitRecorder::written` of bitstream_io.
/// The contract claims that the count which the recorder keeps is the
/// number of bits it holds: every write advances both, and no write of this
/// library lets the count pass `u32::MAX`.
#[verifier::external_body]
fn recorded_count(stream: &QrBitRecorder) -> (n: u32)
    ensures
        n == recorded_bits(*stream).len(),
{
    stream.inner.written()
}

/// Appends the `bits` low-order bits of `value`, most significant first,
/// by `BitWrite::write` of bitstream_io on the recorder. That function
/// fails where more than 32 bits are asked for or the value does not fit
/// into the bits, and its count of bits overflows past `u32::MAX`; the
/// contract leaves these inputs out and claims that the bits of the value
/// are appended to what was recorded.
#[verifier::external_body]
fn record(stream: &mut QrBitRecorder, bits: u32, value: u32)
    requires
        bits <= 32,
        bits < 32 ==> value < two_to(bits as nat),
        recorded_bits(*old(stream)).len() + bits <= u32::MAX,
    ensures
        recorded_bits(*final(stream)) == recorded_bits(*old(stream)) + be_bits(
            value as nat,
            bits as nat,
        ),
{
    stream.inner.write(bits, value).unwrap();
}

/// What a playback of the bits yields: the full bytes, the number of bits
/// left over, and their value.
pub open spec fn playback_of(bits: Seq<bool>) -> (Seq<u8>, u32, u8) {
    (pack_bytes(bits), (bits.len() % 8) as u32, bits_value(residue_bits(bits)) as u8)
}

/// The view of the result of a playback.
pub open spec fn playback_view(r: (Vec<u8>, u32, u8)) -> (Seq<u8>, u32, u8) {
    (r.0@, r.1, r.2)
}

/// Plays the recorded bits back into a byte vector, by
/// `BitRecorder::playback` into a big-endian `BitWriter` of bitstream_io,
/// and takes what is left with `BitWriter::into_unwritten`. The contract
/// claims that the vector receives the recorded bits eight to a byte, most
/// significant bit first, and that the bits behind the last full byte stay
/// in the writer, which reports their number and value.
#[verifier::external_body]
fn played_back(stream: &QrBitRecorder) -> (r: (Vec<u8>, u32, u8))
    ensures
        playback_view(r) == playback_of(recorded_bits(*stream)),
{
    let mut data: Vec<u8> = Vec::new();
    let mut writer = BitWriter::endian(&mut data, BigEndian);
    stream.inner.playback(&mut writer).unwrap();
    let (bits, value) = writer.into_unwritten();
    (data, bits, value)
}

impl QrBitRecorder {
    /// A recorder that holds no bits.
    pub fn new() -> (r: QrBitRecorder)
        ensures
            recorded_bits(r) == Seq::<bool>::empty(),
    {
        fresh_recorder()
    }

    /// Number of bits recorded so far.
    pub fn written(&self) -> (n: u32)
        ensures
            n == recorded_bits(*self).len(),
    {
        recorded_count(self)
    }

    /// The recorded bits as bytes, most significant bit first, together
    /// with the number of bits behind the last full byte and their value.
    pub fn to_bytes(&self) -> (r: (Vec<u8>, u32, u8))
        ensures
            r.0@ == pack_bytes(recorded_bits(*self)),
            r.1 == recorded_bits(*self).len() % 8,
            r.2 == bits_value(residue_bits(recorded_bits(*self))) as u8,
    {
        played_back(self)
    }
}

/// The number that stands for an encoding in the mode indicator.
pub open spec fn mode_value(size: Size, ec: Encoding) -> nat {
    match size {
        Size::Micro(_) => match ec {
            Encoding::Numeric => 0,
            Encoding::Alphanumeric => 1,
            Encoding::Bytes => 2,
            Encoding::Kanji => 3,
        },
        Size::Standard(_) => match ec {
            Encoding::Numeric => 1,
            Encoding::Alphanumeric => 2,
            Encoding::Bytes => 4,
            Encoding::Kanji => 8,
        },
    }
}

/// The bits of the mode indicator: four in a Standard symbol, one less
/// than the version in a Micro symbol.
pub open spec fn mode_indicator(size: Size, ec: Encoding) -> Seq<bool> {
    be_bits(mode_value(size, ec), size.mode_indicator_bits() as nat)
}

fn write_mode_indicator(stream: &mut QrBitRecorder, size: Size, ec: Encoding)
    requires
        size.valid(),
        ec.available_in(size),
        recorded_bits(*old(stream)).len() + 4 <= u32::MAX,
    ensures
        recorded_bits(*final(stream)) == recorded_bits(*old(stream)) + mode_indicator(size, ec),
        recorded_bits(*final(stream)).len() == recorded_bits(*old(stream)).len()
            + size.mode_indicator_bits(),
{
    proof {
        lemma_two_to_values();
        lemma_be_bits_len(mode_value(size, ec), size.mode_indicator_bits() as nat);
    }
    match size {
        Size::Micro(k) => {
            let value: u32 = match ec {
                Encoding::Numeric => 0,
                Encoding::Alphanumeric => 1,
                Encoding::Bytes => 2,
                Encoding::Kanji => 3,
            };
            record(stream, (k - 1) as u32, value);
        },
        Size::Standard(_) => {
            let value: u32 = match ec {
                Encoding::Numeric => 0b0001,
                Encoding::Alphanumeric => 0b0010,
                Encoding::Bytes => 0b0100,
                Encoding::Kanji => 0b1000,
            };
            record(stream, 4, value);
        },
    }
}

/// write character count indicator to the bitstream. The interesting part is how many bits
/// are used for this, which is given by a helper member of Encoding
fn write_charcount_indicator(stream: &mut QrBitRecorder, count: u32, size: Size, ec: Encoding)
    requires
        size.valid(),
        count < two_to(ec.char_count_bits(size)),
        recorded_bits(*old(stream)).len() + 16 <= u32::MAX,
    ensures
        recorded_bits(*final(stream)) == recorded_bits(*old(stream)) + be_bits(
            count as nat,
            ec.char_count_bits(size),
        ),
        recorded_bits(*final(stream)).len() == recorded_bits(*old(stream)).len()
            + ec.char_count_bits(size),
{
    proof {
        lemma_be_bits_len(count as nat, ec.char_count_bits(size));
    }
    record(stream, ec.num_char_count_bits(size) as u32, count);
}

/// The bits of an ECI header: the mode indicator 0111, and the assignment
/// number in the shortest of three forms: a 0 and seven bits below 128, 10
/// and fourteen bits below 16384, 110 and twenty-one bits otherwise.
pub open spec fn eci_header_bits(assignment: u32) -> Seq<bool> {
    be_bits(0b0111, 4) + if assignment < 128 {
        be_bits(0, 1) + be_bits(assignment as nat, 7)
    } else if assignment < 16384 {
        be_bits(0b10, 2) + be_bits(assignment as nat, 14)
    } else {
        be_bits(0b110, 3) + be_bits(assignment as nat, 21)
    }
}

/// Write an ECI header to the bitstream, which changes the interpretation
/// of the following encoded message, until another ECI header is encountered.
///
/// assignment is a decimal 6-digit number between 000000 and 999999 that names
/// the encoding (as the AIM ECI registry assigns it).
///
/// The ECI header can be omitted completely; in that case, the default
/// interpretation is Shift JIS X 0208 for "kanji" mode and ISO/IEC 8859-1
/// for the other three modes.
pub fn write_eci_header(stream: &mut QrBitRecorder, assignment: u32)
    requires
        assignment <= 999_999,
        recorded_bits(*old(stream)).len() + 28 <= u32::MAX,
    ensures
        recorded_bits(*final(stream)) == recorded_bits(*old(stream)) + eci_header_bits(assignment),
        recorded_bits(*final(stream)).len() <= recorded_bits(*old(stream)).len() + 28,
{
    let ghost start = recorded_bits(*stream);
    proof {
        lemma_two_to_values();
        lemma_be_bits_len(0b0111, 4);
        lemma_be_bits_len(0, 1);
        lemma_be_bits_len(0b10, 2);
        lemma_be_bits_len(0b110, 3);
        lemma_be_bits_len(assignment as nat, 7);
        lemma_be_bits_len(assignment as nat, 14);
        lemma_be_bits_len(assignment as nat, 21);
    }
    // write ECI mode indicator
    record(stream, 4, 0b0111);
    // depending on value of assignment, encode it as either 1, 2 or 3
    // bytes
    if assignment < 128 {
        // encode as 0bbbbbbb
        record(stream, 1, 0);
        record(stream, 7, assignment);
        assert(recorded_bits(*stream) =~= start + eci_header_bits(assignment));
    } else if assignment >= 128 && assignment < 16384 {
        // encode as 10bbbbbb bbbbbbbb
        record(stream, 2, 0b10);
        record(stream, 14, assignment);
        assert(recorded_bits(*stream) =~= start + eci_header_bits(assignment));
    } else {
        // encode as 110bbbbb bbbbbbbb bbbbbbbb
        record(stream, 3, 0b110);
        record(stream, 21, assignment);
        assert(recorded_bits(*stream) =~= start + eci_header_bits(assignment));
    }
}

/// Whether a byte is an ASCII digit.
pub open spec fn is_digit(b: u8) -> bool {
    0x30 <= b <= 0x39
}

/// The value of an ASCII digit.
pub open spec fn digit(b: u8) -> nat {
    (b - 0x30) as nat
}

/// The bits of a digit string: ten bits for every three digits, seven for
/// two digits left over, four for one.
pub open spec fn numeric_bits(s: Seq<u8>) -> Seq<bool>
    decreases s.len(),
{
    if s.len() >= 3 {
        be_bits(100 * digit(s[0]) + 10 * digit(s[1]) + digit(s[2]), 10) + numeric_bits(s.skip(3))
    } else if s.len() == 2 {
        be_bits(10 * digit(s[0]) + digit(s[1]), 7)
    } else if s.len() == 1 {
        be_bits(digit(s[0]), 4)
    } else {
        Seq::<bool>::empty()
    }
}

/// Whether all bytes are digits.
pub open spec fn all_digits(s: Seq<u8>) -> bool {
    forall|i: int| 0 <= i < s.len() ==> is_digit(#[trigger] s[i])
}

fn encode_numeric_data(stream: &mut QrBitRecorder, input: &[u8])
    requires
        all_digits(input@),
        recorded_bits(*old(stream)).len() + 8 * input@.len() <= u32::MAX,
    ensures
        recorded_bits(*final(stream)) == recorded_bits(*old(stream)) + numeric_bits(input@),
{
    // iterate over input; group into
    // three digits and treat them as a decimal number between 0 and 999,
    // encode that number in 10 binary digits.
    let ghost target = recorded_bits(*stream) + numeric_bits(input@);
    let n: usize = input.len();
    let mut i: usize = 0;
    proof {
        lemma_two_to_values();
        assert(input@.skip(0) =~= input@);
    }
    while n - i >= 3
        invariant
            n == input@.len(),
            i <= n,
            all_digits(input@),
            recorded_bits(*stream).len() + 8 * (n - i) <= u32::MAX,
            recorded_bits(*stream) + numeric_bits(input@.skip(i as int)) == target,
            two_to(10) == 1024,
        decreases n - i,
    {
        let cur_code: u32 = ((input[i] - 0x30) as u32) * 100 + ((input[i + 1] - 0x30) as u32) * 10
            + ((input[i + 2] - 0x30) as u32);
        let ghost before = recorded_bits(*stream);
        let ghost rest = input@.skip(i as int);
        proof {
            lemma_be_bits_len(cur_code as nat, 10);
            assert(rest.skip(3) =~= input@.skip(i as int + 3));
        }
        // got triplet. write the code to the bitstream
        record(stream, 10, cur_code);
        proof {
            assert(recorded_bits(*stream) + numeric_bits(input@.skip(i as int + 3)) =~= before
                + numeric_bits(rest));
        }
        i += 3;
    }
    // potentially encode last incomplete triplet
    let ghost before = recorded_bits(*stream);
    let ghost rest = input@.skip(i as int);
    if n - i == 1 {
        record(stream, 4, (input[i] - 0x30) as u32);
        assert(recorded_bits(*stream) =~= before + numeric_bits(rest));
    } else if n - i == 2 {
        record(stream, 7, ((input[i] - 0x30) as u32) * 10 + ((input[i + 1] - 0x30) as u32));
        assert(recorded_bits(*stream) =~= before + numeric_bits(rest));
    } else {
        assert(recorded_bits(*stream) =~= before + numeric_bits(rest));
    }
}

/// The number of a character in the alphanumeric set: the digits, the
/// capital letters, and space `$` `%` `*` `+` `-` `.` `/` `:`, in this
/// order.
pub open spec fn alphanumeric_code(c: u8) -> Option<u8> {
    if 0x30 <= c <= 0x39 {
        Some((c - 0x30) as u8)
    } else if 0x41 <= c <= 0x5A {
        Some((c - 0x37) as u8)
    } else if c == 0x20 {
        Some(36u8)
    } else if c == 0x24 {
        Some(37u8)
    } else if c == 0x25 {
        Some(38u8)
    } else if c == 0x2A {
        Some(39u8)
    } else if c == 0x2B {
        Some(40u8)
    } else if c == 0x2D {
        Some(41u8)
    } else if c == 0x2E {
        Some(42u8)
    } else if c == 0x2F {
        Some(43u8)
    } else if c == 0x3A {
        Some(44u8)
    } else {
        None
    }
}

/// The number of a character of the alphanumeric set.
pub fn map_alphanumeric(in_char: u8) -> (code: u8)
    requires
        alphanumeric_code(in_char) is Some,
    ensures
        alphanumeric_code(in_char) == Some(code),
        code <= 44,
{
    if 0x30 <= in_char && in_char <= 0x39 {
        in_char - 0x30  // a digit in [0-9] maps to that value

    } else if 0x41 <= in_char && in_char <= 0x5A {
        in_char - 0x37  // capital letters in [A-Z] map to the next 26 values

    } else if in_char == 0x20 {
        36  // space

    } else if in_char == 0x24 {
        37  // dollar $

    } else if in_char == 0x25 {
        38  // percent %

    } else if in_char == 0x2A {
        39  // asterisk *

    } else if in_char == 0x2B {
        40  // plus +

    } else if in_char == 0x2D {
        41  // minus -

    } else if in_char == 0x2E {
        42  // period .

    } else if in_char == 0x2F {
        43  // slash /

    } else {
        44  // colon :

    }
}

/// Whether a byte belongs to the alphanumeric set.
fn is_alphanumeric(c: u8) -> (b: bool)
    ensures
        b == (alphanumeric_code(c) is Some),
{
    (0x30 <= c && c <= 0x39) || (0x41 <= c && c <= 0x5A) || c == 0x20 || c == 0x24 || c == 0x25
        || c == 0x2A || c == 0x2B || c == 0x2D || c == 0x2E || c == 0x2F || c == 0x3A
}

/// The code of a character of the alphanumeric set, 0 for other bytes.
pub open spec fn alphanumeric_value(c: u8) -> nat {
    match alphanumeric_code(c) {
        Some(v) => v as nat,
        None => 0,
    }
}

/// The bits of an alphanumeric string: eleven bits for every two
/// characters, 45 times the first plus the second, and six bits for one
/// character left over.
pub open spec fn alphanumeric_bits(s: Seq<u8>) -> Seq<bool>
    decreases s.len(),
{
    if s.len() >= 2 {
        be_bits(45 * alphanumeric_value(s[0]) + alphanumeric_value(s[1]), 11) + alphanumeric_bits(
            s.skip(2),
        )
    } else if s.len() == 1 {
        be_bits(alphanumeric_value(s[0]), 6)
    } else {
        Seq::<bool>::empty()
    }
}

/// Whether all bytes belong to the alphanumeric set.
pub open spec fn all_alphanumeric(s: Seq<u8>) -> bool {
    forall|i: int| 0 <= i < s.len() ==> alphanumeric_code(#[trigger] s[i]) is Some
}

fn encode_alphanumeric_data(stream: &mut QrBitRecorder, input: &[u8])
    requires
        all_alphanumeric(input@),
        recorded_bits(*old(stream)).len() + 8 * input@.len() <= u32::MAX,
    ensures
        recorded_bits(*final(stream)) == recorded_bits(*old(stream)) + alphanumeric_bits(input@),
{
    // iterate over input; group into
    // two chars and multiply the first by 45, sum with second one.
    // encode that number in 11 binary digits.
    let ghost target = recorded_bits(*stream) + alphanumeric_bits(input@);
    let n: usize = input.len();
    let mut i: usize = 0;
    proof {
        lemma_two_to_values();
        assert(input@.skip(0) =~= input@);
    }
    while n - i >= 2
        invariant
            n == input@.len(),
            i <= n,
            all_alphanumeric(input@),
            recorded_bits(*stream).len() + 8 * (n - i) <= u32::MAX,
            recorded_bits(*stream) + alphanumeric_bits(input@.skip(i as int)) == target,
            two_to(11) == 2048,
        decreases n - i,
    {
        let cur_code: u32 = (map_alphanumeric(input[i]) as u32) * 45 + (map_alphanumeric(
            input[i + 1],
        ) as u32);
        let ghost before = recorded_bits(*stream);
        let ghost rest = input@.skip(i as int);
        proof {
            lemma_be_bits_len(cur_code as nat, 11);
            assert(rest.skip(2) =~= input@.skip(i as int + 2));
        }
        // got pair. write the code to the bitstream
        record(stream, 11, cur_code);
        proof {
            assert(recorded_bits(*stream) + alphanumeric_bits(input@.skip(i as int + 2)) =~= before
                + alphanumeric_bits(rest));
        }
        i += 2;
    }
    // potentially write remaining char as 6bit code
    let ghost before = recorded_bits(*stream);
    let ghost rest = input@.skip(i as int);
    if n - i == 1 {
        record(stream, 6, map_alphanumeric(input[i]) as u32);
        assert(recorded_bits(*stream) =~= before + alphanumeric_bits(rest));
    } else {
        assert(recorded_bits(*stream) =~= before + alphanumeric_bits(rest));
    }
}

/// The bits of a byte string: eight bits for every byte.
pub open spec fn byte_bits(s: Seq<u8>) -> Seq<bool>
    decreases s.len(),
{
    if s.len() >= 1 {
        be_bits(s[0] as nat, 8) + byte_bits(s.skip(1))
    } else {
        Seq::<bool>::empty()
    }
}

fn encode_byte_data(stream: &mut QrBitRecorder, input: &[u8])
    requires
        recorded_bits(*old(stream)).len() + 8 * input@.len() <= u32::MAX,
    ensures
        recorded_bits(*final(stream)) == recorded_bits(*old(stream)) + byte_bits(input@),
{
    // assume byte data is already ISO8859-1 encoded,
    // so just write those as bits
    let ghost target = recorded_bits(*stream) + byte_bits(input@);
    let n: usize = input.len();
    let mut i: usize = 0;
    proof {
        lemma_two_to_values();
        assert(input@.skip(0) =~= input@);
    }
    while i < n
        invariant
            n == input@.len(),
            i <= n,
            recorded_bits(*stream).len() + 8 * (n - i) <= u32::MAX,
            recorded_bits(*stream) + byte_bits(input@.skip(i as int)) == target,
            two_to(8) == 256,
        decreases n - i,
    {
        let ghost before = recorded_bits(*stream);
        let ghost rest = input@.skip(i as int);
        proof {
            lemma_be_bits_len(input@[i as int] as nat, 8);
            assert(rest.skip(1) =~= input@.skip(i as int + 1));
        }
        record(stream, 8, input[i] as u32);
        proof {
            assert(recorded_bits(*stream) + byte_bits(input@.skip(i as int + 1)) =~= before
                + byte_bits(rest));
        }
        i += 1;
    }
    assert(recorded_bits(*stream) =~= recorded_bits(*stream) + byte_bits(input@.skip(i as int)));
}

/// The number that two bytes of a Shift JIS character make.
pub open spec fn kanji_number(hi: u8, lo: u8) -> int {
    hi * 0x100 + lo
}

/// Whether two bytes lie in one of the two ranges of Shift JIS X 0208 that
/// Kanji mode can encode.
pub open spec fn is_kanji(hi: u8, lo: u8) -> bool {
    (0x8140 <= kanji_number(hi, lo) <= 0x9FFC) || (0xE040 <= kanji_number(hi, lo) <= 0xEBBF)
}

/// The thirteen-bit code of a Kanji character: 0x8140 is taken from a
/// number of the first range and 0xC140 from a number of the second; of the
/// difference, 0xC0 times the high byte plus the low byte.
pub open spec fn kanji_code(hi: u8, lo: u8) -> nat {
    let number = kanji_number(hi, lo);
    let reduced = if number <= 0x9FFC {
        number - 0x8140
    } else {
        number - 0xC140
    };
    ((reduced / 0x100) * 0xC0 + reduced % 0x100) as nat
}

/// The bits of a Kanji string: thirteen bits for every two bytes.
pub open spec fn kanji_bits(s: Seq<u8>) -> Seq<bool>
    decreases s.len(),
{
    if s.len() >= 2 {
        be_bits(kanji_code(s[0], s[1]), 13) + kanji_bits(s.skip(2))
    } else {
        Seq::<bool>::empty()
    }
}

/// Whether the bytes are pairs that Kanji mode can encode.
pub open spec fn all_kanji(s: Seq<u8>) -> bool {
    &&& s.len() % 2 == 0
    &&& forall|j: int| 0 <= j < s.len() / 2 ==> is_kanji(#[trigger] s[2 * j], s[2 * j + 1])
}

fn encode_kanji_data(stream: &mut QrBitRecorder, input: &[u8])
    requires
        all_kanji(input@),
        recorded_bits(*old(stream)).len() + 8 * input@.len() <= u32::MAX,
    ensures
        recorded_bits(*final(stream)) == recorded_bits(*old(stream)) + kanji_bits(input@),
{
    // we assume input is encoded in Shift JIS (see JIS X 0208)
    // using two bytes per character. Every character is compacted
    // into a 13bit codeword and written to the output.
    let ghost target = recorded_bits(*stream) + kanji_bits(input@);
    let n: usize = input.len();
    let mut i: usize = 0;
    proof {
        lemma_two_to_values();
        assert(input@.skip(0) =~= input@);
    }
    while n - i >= 2
        invariant
            n == input@.len(),
            i <= n,
            i % 2 == 0,
            all_kanji(input@),
            recorded_bits(*stream).len() + 8 * (n - i) <= u32::MAX,
            recorded_bits(*stream) + kanji_bits(input@.skip(i as int)) == target,
            two_to(13) == 8192,
        decreases n - i,
    {
        assert(is_kanji(input@[2 * (i as int / 2)], input@[2 * (i as int / 2) + 1]));
        let number: u32 = (input[i] as u32) * 0x100 + (input[i + 1] as u32);
        let reduced: u32 = if number <= 0x9FFC {
            number - 0x8140
        } else {
            number - 0xC140
        };
        let code: u32 = (reduced / 0x100) * 0xC0 + reduced % 0x100;
        let ghost before = recorded_bits(*stream);
        let ghost rest = input@.skip(i as int);
        proof {
            lemma_be_bits_len(code as nat, 13);
            assert(rest.skip(2) =~= input@.skip(i as int + 2));
        }
        record(stream, 13, code);
        proof {
            assert(recorded_bits(*stream) + kanji_bits(input@.skip(i as int + 2)) =~= before
                + kanji_bits(rest));
        }
        i += 2;
    }
    assert(recorded_bits(*stream) =~= recorded_bits(*stream) + kanji_bits(input@.skip(i as int)));
}

/// Whether every character of the payload belongs to the alphabet of the
/// encoding.
pub open spec fn legal_characters(input: Seq<u8>, ec: Encoding) -> bool {
    match ec {
        Encoding::Numeric => all_digits(input),
        Encoding::Alphanumeric => all_alphanumeric(input),
        Encoding::Bytes => true,
        Encoding::Kanji => all_kanji(input),
    }
}

/// Number of characters of a payload: half the number of bytes in Kanji
/// mode, the number of bytes otherwise.
pub open spec fn char_count(input: Seq<u8>, ec: Encoding) -> nat {
    if ec == Encoding::Kanji {
        input.len() / 2
    } else {
        input.len()
    }
}

/// The data bits of a payload in the given encoding.
pub open spec fn data_bits(input: Seq<u8>, ec: Encoding) -> Seq<bool> {
    match ec {
        Encoding::Numeric => numeric_bits(input),
        Encoding::Alphanumeric => alphanumeric_bits(input),
        Encoding::Bytes => byte_bits(input),
        Encoding::Kanji => kanji_bits(input),
    }
}

/// The bits of a segment: mode indicator, character count, data.
pub open spec fn segment_bits(input: Seq<u8>, ec: Encoding, size: Size) -> Seq<bool> {
    mode_indicator(size, ec) + be_bits(char_count(input, ec), ec.char_count_bits(size)) + data_bits(
        input,
        ec,
    )
}

/// Why a segment is rejected, if it is, where the recorder holds
/// `recorded` bits. The first of these that applies decides: the size is
/// out of range or does not offer the encoding; a Kanji payload has an odd
/// number of bytes; a character lies outside the alphabet of the encoding;
/// the character count does not fit into its indicator, or the recorder
/// has no room for twenty bits of header and eight bits for each byte.
pub open spec fn segment_error(recorded: nat, input: Seq<u8>, ec: Encoding, size: Size) -> Option<
    QrError,
> {
    if !size.valid() || !ec.available_in(size) {
        Some(QrError::UnsupportedConfiguration)
    } else if ec == Encoding::Kanji && input.len() % 2 == 1 {
        Some(QrError::OddKanjiLength)
    } else if !legal_characters(input, ec) {
        Some(QrError::IllegalCharacter)
    } else if char_count(input, ec) >= two_to(ec.char_count_bits(size)) || recorded + 20 + 8
        * input.len() > u32::MAX {
        Some(QrError::PayloadTooLarge)
    } else {
        None
    }
}

proof fn lemma_numeric_bits_len(s: Seq<u8>)
    ensures
        numeric_bits(s).len() == (10 * s.len() + 2) / 3,
    decreases s.len(),
{
    if s.len() >= 3 {
        lemma_numeric_bits_len(s.skip(3));
        lemma_be_bits_len(100 * digit(s[0]) + 10 * digit(s[1]) + digit(s[2]), 10);
    } else if s.len() == 2 {
        lemma_be_bits_len(10 * digit(s[0]) + digit(s[1]), 7);
    } else if s.len() == 1 {
        lemma_be_bits_len(digit(s[0]), 4);
    }
}

proof fn lemma_alphanumeric_bits_len(s: Seq<u8>)
    ensures
        alphanumeric_bits(s).len() == (11 * s.len() + 1) / 2,
    decreases s.len(),
{
    if s.len() >= 2 {
        lemma_alphanumeric_bits_len(s.skip(2));
        lemma_be_bits_len(45 * alphanumeric_value(s[0]) + alphanumeric_value(s[1]), 11);
    } else if s.len() == 1 {
        lemma_be_bits_len(alphanumeric_value(s[0]), 6);
    }
}

proof fn lemma_byte_bits_len(s: Seq<u8>)
    ensures
        byte_bits(s).len() == 8 * s.len(),
    decreases s.len(),
{
    if s.len() >= 1 {
        lemma_byte_bits_len(s.skip(1));
        lemma_be_bits_len(s[0] as nat, 8);
    }
}

proof fn lemma_kanji_bits_len(s: Seq<u8>)
    requires
        s.len() % 2 == 0,
    ensures
        kanji_bits(s).len() == 13 * (s.len() / 2),
    decreases s.len(),
{
    if s.len() >= 2 {
        lemma_kanji_bits_len(s.skip(2));
        lemma_be_bits_len(kanji_code(s[0], s[1]), 13);
    }
}

/// A segment has the bits of its mode indicator, those of its character
/// count indicator, and as many data bits as the encoding takes for the
/// number of its characters.
pub proof fn lemma_segment_bits_len(input: Seq<u8>, ec: Encoding, size: Size)
    requires
        size.valid(),
        ec == Encoding::Kanji ==> input.len() % 2 == 0,
    ensures
        data_bits(input, ec).len() == ec.encoded_bits(char_count(input, ec)),
        segment_bits(input, ec, size).len() == segment_length(size, ec, char_count(input, ec)),
{
    lemma_numeric_bits_len(input);
    lemma_alphanumeric_bits_len(input);
    lemma_byte_bits_len(input);
    if ec == Encoding::Kanji {
        lemma_kanji_bits_len(input);
    }
    lemma_be_bits_len(mode_value(size, ec), size.mode_indicator_bits() as nat);
    lemma_be_bits_len(char_count(input, ec), ec.char_count_bits(size));
}

fn check_digits(input: &[u8]) -> (b: bool)
    ensures
        b == all_digits(input@),
{
    let mut i: usize = 0;
    while i < input.len()
        invariant
            i <= input@.len(),
            forall|k: int| 0 <= k < i ==> is_digit(#[trigger] input@[k]),
        decreases input@.len() - i,
    {
        if !(0x30 <= input[i] && input[i] <= 0x39) {
            return false;
        }
        i += 1;
    }
    true
}

fn check_alphanumeric(input: &[u8]) -> (b: bool)
    ensures
        b == all_alphanumeric(input@),
{
    let mut i: usize = 0;
    while i < input.len()
        invariant
            i <= input@.len(),
            forall|k: int| 0 <= k < i ==> alphanumeric_code(#[trigger] input@[k]) is Some,
        decreases input@.len() - i,
    {
        if !is_alphanumeric(input[i]) {
            return false;
        }
        i += 1;
    }
    true
}

fn check_kanji(input: &[u8]) -> (b: bool)
    requires
        input@.len() % 2 == 0,
    ensures
        b == all_kanji(input@),
{
    let n: usize = input.len();
    let mut j: usize = 0;
    while j < n / 2
        invariant
            n == input@.len(),
            n % 2 == 0,
            j <= n / 2,
            forall|k: int| 0 <= k < j ==> is_kanji(#[trigger] input@[2 * k], input@[2 * k + 1]),
        decreases n / 2 - j,
    {
        let number: u32 = (input[2 * j] as u32) * 0x100 + (input[2 * j + 1] as u32);
        if !((0x8140 <= number && number <= 0x9FFC) || (0xE040 <= number && number <= 0xEBBF)) {
            assert(!is_kanji(input@[2 * (j as int)], input@[2 * (j as int) + 1]));
            return false;
        }
        j += 1;
    }
    true
}

fn check_characters(input: &[u8], ec: Encoding) -> (b: bool)
    requires
        ec == Encoding::Kanji ==> input@.len() % 2 == 0,
    ensures
        b == legal_characters(input@, ec),
{
    match ec {
        Encoding::Numeric => check_digits(input),
        Encoding::Alphanumeric => check_alphanumeric(input),
        Encoding::Bytes => true,
        Encoding::Kanji => check_kanji(input),
    }
}

/// Two to the power `n`.
fn power_of_two(n: usize) -> (p: u32)
    requires
        n <= 16,
    ensures
        p == two_to(n as nat),
{
    let mut p: u32 = 1;
    let mut i: usize = 0;
    while i < n
        invariant
            i <= n <= 16,
            p == two_to(i as nat),
            p <= 65536,
        decreases n - i,
    {
        proof {
            lemma_two_to_values();
        }
        p = p * 2;
        i += 1;
    }
    p
}

/// Write a given sequence of ISO/IEC 8859-1 or Shift JIS X 0208 encoded bytes
/// to a bitstream (default ECI). For simple QR codes this is the entire coded message.
///
/// Segments can be chained to encode parts of the message in different modes.
///
/// To use non-default ECIs, write the ECI header to the stream first, then call this
/// function to write data in any of the four supported encoding modes. The ECI changes the
/// interpretation of the encoded data. In most cases you will want to use the "bytes" encoding
/// there.
///
/// The input is checked before the first bit is written: a rejected
/// segment leaves the stream as it was.
pub fn encode_data_segment(stream: &mut QrBitRecorder, input: &[u8], ec: Encoding, size: Size) -> (r:
    Result<(), QrError>)
    ensures
        match segment_error(recorded_bits(*old(stream)).len(), input@, ec, size) {
            Some(e) => r == Err::<(), QrError>(e) && recorded_bits(*final(stream)) == recorded_bits(
                *old(stream),
            ),
            None => r is Ok && recorded_bits(*final(stream)) == recorded_bits(*old(stream))
                + segment_bits(input@, ec, size),
        },
{
    if !size.is_valid() || !ec.is_available_in(size) {
        return Err(QrError::UnsupportedConfiguration);
    }
    let is_kanji_mode: bool = match ec {
        Encoding::Kanji => true,
        _ => false,
    };
    if is_kanji_mode && input.len() % 2 == 1 {
        return Err(QrError::OddKanjiLength);
    }
    if !check_characters(input, ec) {
        return Err(QrError::IllegalCharacter);
    }
    let count: usize = if is_kanji_mode {
        input.len() / 2
    } else {
        input.len()
    };
    let limit: u32 = power_of_two(ec.num_char_count_bits(size));
    if count >= limit as usize {
        return Err(QrError::PayloadTooLarge);
    }
    let recorded: u32 = stream.written();
    if recorded as u64 + 20 + 8 * (input.len() as u64) > u32::MAX as u64 {
        return Err(QrError::PayloadTooLarge);
    }
    let ghost start = recorded_bits(*stream);
    write_mode_indicator(stream, size, ec);
    write_charcount_indicator(stream, count as u32, size, ec);
    match ec {
        Encoding::Numeric => {
            encode_numeric_data(stream, input);
        },
        Encoding::Alphanumeric => {
            encode_alphanumeric_data(stream, input);
        },
        Encoding::Bytes => {
            encode_byte_data(stream, input);
        },
        Encoding::Kanji => {
            encode_kanji_data(stream, input);
        },
    }
    assert(recorded_bits(*stream) =~= start + segment_bits(input@, ec, size));
    Ok(())
}

/// One of the two pad codewords, 11101100 and 00010001, which take turns.
pub open spec fn pad_codeword(i: int) -> nat {
    if i % 2 == 0 {
        0b11101100
    } else {
        0b00010001
    }
}

/// The bits of the first `k` pad codewords.
pub open spec fn pad_bits(k: nat) -> Seq<bool>
    decreases k,
{
    if k == 0 {
        Seq::<bool>::empty()
    } else {
        pad_bits((k - 1) as nat) + be_bits(pad_codeword(k - 1), 8)
    }
}

/// The bits with the terminator: as many zero bits as the size asks for,
/// or as many as the capacity `cap` leaves room for, where that is less.
pub open spec fn terminated(bits: Seq<bool>, size: Size, cap: int) -> Seq<bool> {
    let room = cap - bits.len();
    bits + zero_bits(
        (if room < size.terminator_bits() {
            room
        } else {
            size.terminator_bits()
        }) as nat,
    )
}

/// The bits filled up with zeros to the next byte boundary. Where the
/// bits already reach into the last, four-bit codeword of an M1 or M3
/// symbol, they are filled up to the capacity.
pub open spec fn aligned(bits: Seq<bool>, size: Size, cap: int) -> Seq<bool> {
    let over = bits.len() % 8;
    bits + zero_bits(
        (if over == 0 {
            0
        } else if size.has_half_codeword() && bits.len() + 4 > cap {
            cap - bits.len()
        } else {
            8 - over
        }) as nat,
    )
}

/// The bits filled up with pad codewords as long as a whole codeword fits
/// into the capacity.
pub open spec fn padded(bits: Seq<bool>, cap: int) -> Seq<bool> {
    bits + pad_bits(((cap - bits.len()) / 8) as nat)
}

/// The bits of a finished symbol of capacity `cap`: the recorded bits, the
/// terminator, the zero bits up to the byte boundary, the pad codewords,
/// and zero bits in what is still left of the capacity, which is the
/// four-bit codeword of an M1 or M3 symbol.
pub open spec fn finalized_bits(bits: Seq<bool>, size: Size, cap: int) -> Seq<bool> {
    let filled = padded(aligned(terminated(bits, size, cap), size, cap), cap);
    filled + zero_bits((cap - filled.len()) as nat)
}

/// The bits that make up the codewords: those of the finished symbol, and
/// four more zero bits for an M1 or M3 symbol, so that its last codeword
/// fills a byte. The four bits belong to the codewords only, not to the
/// stream.
pub open spec fn codeword_bits(bits: Seq<bool>, size: Size, cap: int) -> Seq<bool> {
    finalized_bits(bits, size, cap) + zero_bits(
        if size.has_half_codeword() {
            4
        } else {
            0
        },
    )
}

/// The first `k` pad codewords have eight bits each.
pub proof fn lemma_pad_bits_len(k: nat)
    ensures
        pad_bits(k).len() == 8 * k,
    decreases k,
{
    if k > 0 {
        lemma_pad_bits_len((k - 1) as nat);
        lemma_be_bits_len(pad_codeword(k - 1), 8);
    }
}

/// Whether `cap` can be the data capacity of a symbol of the given size:
/// a whole number of bytes, and four bits more for an M1 or M3 symbol.
pub open spec fn capacity_fits(size: Size, cap: int) -> bool {
    &&& 0 <= cap <= 29648
    &&& cap % 8 == if size.has_half_codeword() {
        4int
    } else {
        0int
    }
}

/// The bits of a finished symbol fill its capacity exactly, where the
/// recorded bits fit into the capacity.
pub proof fn lemma_finalized_fills_capacity(bits: Seq<bool>, size: Size, cap: int)
    requires
        capacity_fits(size, cap),
        bits.len() <= cap,
    ensures
        finalized_bits(bits, size, cap).len() == cap,
        codeword_bits(bits, size, cap).len() == cap + if size.has_half_codeword() {
            4int
        } else {
            0int
        },
{
    let t = terminated(bits, size, cap);
    let a = aligned(t, size, cap);
    lemma_pad_bits_len(((cap - a.len()) / 8) as nat);
}

/// Appends `n` zero bits.
fn record_zeros(stream: &mut QrBitRecorder, n: u32)
    requires
        n <= 16,
        recorded_bits(*old(stream)).len() + n <= u32::MAX,
    ensures
        recorded_bits(*final(stream)) == recorded_bits(*old(stream)) + zero_bits(n as nat),
        recorded_bits(*final(stream)).len() == recorded_bits(*old(stream)).len() + n,
{
    proof {
        lemma_two_to_values();
        lemma_be_bits_zero(n as nat);
        lemma_be_bits_len(0, n as nat);
    }
    record(stream, n, 0);
}

/// Appends pad codewords as long as a whole codeword fits into the
/// capacity.
fn record_pad_codewords(stream: &mut QrBitRecorder, bit_capacity: u32)
    requires
        recorded_bits(*old(stream)).len() <= bit_capacity <= 29648,
    ensures
        recorded_bits(*final(stream)) == padded(recorded_bits(*old(stream)), bit_capacity as int),
        recorded_bits(*final(stream)).len() == recorded_bits(*old(stream)).len() + 8 * ((
        bit_capacity - recorded_bits(*old(stream)).len()) / 8),
{
    let ghost lined = recorded_bits(*stream);
    let bits_left: u32 = bit_capacity - stream.written();
    let bytes_left: u32 = bits_left / 8;
    let mut i: u32 = 0;
    proof {
        lemma_two_to_values();
        assert(lined =~= lined + pad_bits(0));
    }
    while i < bytes_left
        invariant
            i <= bytes_left,
            lined.len() + 8 * bytes_left <= bit_capacity,
            bit_capacity <= 29648,
            recorded_bits(*stream) == lined + pad_bits(i as nat),
            two_to(8) == 256,
        decreases bytes_left - i,
    {
        let padding: u32 = if i % 2 == 0 {
            0b11101100
        } else {
            0b00010001
        };
        proof {
            lemma_pad_bits_len(i as nat);
            lemma_be_bits_len(padding as nat, 8);
        }
        record(stream, 8, padding);
        assert(recorded_bits(*stream) =~= lined + pad_bits((i + 1) as nat));
        i += 1;
    }
    proof {
        lemma_pad_bits_len(bytes_left as nat);
    }
}

/// Finishes the stream of a symbol whose data capacity is `bit_capacity`
/// bits, and plays it back into codewords.
fn finalize_to_capacity(stream: &mut QrBitRecorder, size: Size, bit_capacity: u32) -> (codewords:
    Vec<u8>)
    requires
        size.valid(),
        capacity_fits(size, bit_capacity as int),
        recorded_bits(*old(stream)).len() <= bit_capacity,
    ensures
        recorded_bits(*final(stream)) == finalized_bits(
            recorded_bits(*old(stream)),
            size,
            bit_capacity as int,
        ),
        codewords@ == pack_bytes(
            codeword_bits(recorded_bits(*old(stream)), size, bit_capacity as int),
        ),
{
    let ghost start = recorded_bits(*stream);
    let ghost cap = bit_capacity as int;
    let half: bool = match size {
        Size::Micro(k) => k == 1 || k == 3,
        Size::Standard(_) => false,
    };
    // append terminator bits. At most as many zeroes as the size asks for, and at least as many
    // of those as can fit within the symbol capacity.
    let room: u32 = bit_capacity - stream.written();
    let terminator_bits: u32 = if room < size.terminator_length() as u32 {
        room
    } else {
        size.terminator_length() as u32
    };
    record_zeros(stream, terminator_bits);
    assert(recorded_bits(*stream) == terminated(start, size, cap));
    // pad with zeroes to next full byte
    let written: u32 = stream.written();
    let alignment: u32 = written % 8;
    // if we are already byte-aligned there is nothing to do.
    let fill: u32 = if alignment == 0 {
        0
    } else if half && written + 4 > bit_capacity {
        // special case: last word in M1 and M3 symbols is only 4 bits
        // if we are already into those 4 last bits, just pad those with zeroes completely
        bit_capacity - written
    } else {
        // simply add zero padding
        8 - alignment
    };
    record_zeros(stream, fill);
    assert(recorded_bits(*stream) == aligned(terminated(start, size, cap), size, cap));
    // pad alternately with the two pad codewords 0b11101100 and 0b00010001
    // until capacity is filled.
    record_pad_codewords(stream, bit_capacity);
    // now truly the only thing left could be to set the last four missing bits in
    // a M1 or M3 symbol to zero.
    let bits_left: u32 = bit_capacity - stream.written();
    record_zeros(stream, bits_left);
    assert(recorded_bits(*stream) == finalized_bits(start, size, cap));
    proof {
        lemma_finalized_fills_capacity(start, size, cap);
    }
    // play back all bits into a vector of bytes.
    let played = played_back(stream);
    let mut codewords: Vec<u8> = played.0;
    // the last four bits of M1 and M3 symbols become the high half of one
    // more byte, so that we can return a vector of full bytes
    if half {
        proof {
            lemma_pack_half_byte(finalized_bits(start, size, cap));
        }
        codewords.push(played.2 * 16);
    } else {
        assert(codeword_bits(start, size, cap) =~= finalized_bits(start, size, cap));
    }
    codewords
}

/// takes a recorded sequence of mode segments, maybe interspersed with
/// ECI headers and maybe containing more complex data sequences and finalizes it,
/// returning a sequence of codewords as a byte array. The finalization entails potentially
/// appending a terminator sequence, adding zero bits to byte-align the sequence and potentially
/// adding padding bytes to fill the chosen symbol's capacity exactly.
pub fn finalize_bitstream(stream: &mut QrBitRecorder, size: Size, ecl: ECCLevel) -> (r: Result<
    Vec<u8>,
    QrError,
>)
    ensures
        !ecl.available_in(size) ==> r == Err::<Vec<u8>, QrError>(
            QrError::UnsupportedConfiguration,
        ),
        ecl.available_in(size) && recorded_bits(*old(stream)).len() > capacity(size, ecl).data_bits
            ==> r == Err::<Vec<u8>, QrError>(QrError::PayloadTooLarge),
        ecl.available_in(size) && recorded_bits(*old(stream)).len() <= capacity(
            size,
            ecl,
        ).data_bits ==> r is Ok,
        r is Err ==> recorded_bits(*final(stream)) == recorded_bits(*old(stream)),
        r matches Ok(codewords) ==> {
            &&& recorded_bits(*final(stream)) == finalized_bits(
                recorded_bits(*old(stream)),
                size,
                capacity(size, ecl).data_bits as int,
            )
            &&& recorded_bits(*final(stream)).len() == capacity(size, ecl).data_bits
            &&& codewords@ == pack_bytes(
                codeword_bits(
                    recorded_bits(*old(stream)),
                    size,
                    capacity(size, ecl).data_bits as int,
                ),
            )
            &&& codewords@.len() == capacity(size, ecl).total_data_codewords()
        },
{
    if !ecl.is_available_in(size) {
        return Err(QrError::UnsupportedConfiguration);
    }
    let bit_capacity: u32 = lookup_capacity(size, ecl).data_bits;
    proof {
        lemma_capacity_wf(size, ecl);
    }
    if stream.written() > bit_capacity {
        return Err(QrError::PayloadTooLarge);
    }
    proof {
        lemma_finalized_fills_capacity(recorded_bits(*stream), size, bit_capacity as int);
    }
    let codewords = finalize_to_capacity(stream, size, bit_capacity);
    Ok(codewords)
}

} // verus!
