//! QR Code and Micro QR Code symbol generation (ISO/IEC 18004:2015).
//!
//! The pipeline runs in strict phase order: a payload is encoded into a
//! bit stream, the stream is finalized into data codewords, Reed-Solomon
//! error correction is added per block, the codewords are placed on a
//! role-tagged canvas, the best data mask is chosen and applied, and the
//! format and version information is written.
use vstd::prelude::*;

pub mod bitcoding;
pub mod bits;
pub mod config;
pub mod error;
pub mod reedsolomon;
pub mod serialization;
pub mod tables;

pub use config::{ECCLevel, Encoding, Size, SymbolConfig};
pub use error::QrError;

use bitcoding::{
    char_count, codeword_bits, eci_header_bits, encode_data_segment, finalize_bitstream,
    legal_characters, lemma_finalized_fills_capacity, lemma_segment_bits_len, recorded_bits,
    segment_bits, segment_error, write_eci_header, QrBitRecorder,
};
use bits::lemma_two_to_values;
use bits::pack_bytes;
use reedsolomon::{
    construct_codewords, data_blocks, ecc_blocks, interleaved, lemma_codeword_counts,
    longest_block,
};
use serialization::canvas::{Canvas, Module};
use serialization::counting::{lemma_blank_slot_count, lemma_region_holds_codewords};
use serialization::format::{
    formatted_module, insert_format_info, insert_version_info, lemma_information_replaces_markers,
    versioned_module,
};
use serialization::masking::{apply_best_mask, best_mask, mask_pattern, masked_module};
use serialization::patterns::{
    blank_grid, blank_module, create_qr_canvas, in_quiet_zone, lemma_blank_module_markers,
};
use serialization::placement::{insert_data_payload, payload_bits, placed_module, slot_count};
use tables::{capacity, lemma_capacity_wf, lemma_character_capacity, symbol_codewords};

verus! {

/// The bits of an ECI header for the assignment, if there is one.
pub open spec fn header_bits(eci_assignment: Option<u32>) -> Seq<bool> {
    match eci_assignment {
        Some(assignment) => eci_header_bits(assignment),
        None => Seq::<bool>::empty(),
    }
}

/// The bits that the payload is encoded into: the ECI header, if any, and
/// one segment in the given encoding.
pub open spec fn stream_bits(
    content: Seq<u8>,
    size: Size,
    encoding: Encoding,
    eci_assignment: Option<u32>,
) -> Seq<bool> {
    header_bits(eci_assignment) + segment_bits(content, encoding, size)
}

/// The data codewords of the symbol, before they are split into blocks.
pub open spec fn data_codewords(
    content: Seq<u8>,
    size: Size,
    level: ECCLevel,
    encoding: Encoding,
    eci_assignment: Option<u32>,
) -> Seq<u8> {
    pack_bytes(
        codeword_bits(
            stream_bits(content, size, encoding, eci_assignment),
            size,
            capacity(size, level).data_bits as int,
        ),
    )
}

/// The bits that are placed in the encoding region: the interleaved data
/// codewords and the interleaved error correction codewords.
pub open spec fn symbol_bits(
    content: Seq<u8>,
    size: Size,
    level: ECCLevel,
    encoding: Encoding,
    eci_assignment: Option<u32>,
) -> Seq<bool> {
    let cap = capacity(size, level);
    let data = data_codewords(content, size, level, encoding, eci_assignment);
    payload_bits(
        size,
        interleaved(data_blocks(data, cap), longest_block(cap)),
        interleaved(ecc_blocks(data, cap), cap.block_ecc_words()),
    )
}

/// The canvas with the bits placed, before a mask is applied.
pub open spec fn placed_grid(size: Size, bits: Seq<bool>) -> Seq<Seq<Module>> {
    Seq::new(
        size.side() as nat,
        |y: int|
            Seq::new(
                size.side() as nat,
                |x: int| placed_module(blank_grid(size), size, bits, x, y),
            ),
    )
}

/// The cell in column `x` of row `y` of the finished symbol whose mask has
/// the reference `mask`: the placed bits under the mask, with the format
/// and then the version information written over them.
pub open spec fn finished_module(
    placed: Seq<Seq<Module>>,
    size: Size,
    level: ECCLevel,
    mask: int,
    x: int,
    y: int,
) -> Module {
    versioned_module(
        formatted_module(
            masked_module(placed, blank_grid(size), mask_pattern(mask, size), size, x, y),
            size,
            level,
            mask as u8,
            x,
            y,
        ),
        size,
        x,
        y,
    )
}

/// The bits that are placed are those of all codewords of the symbol:
/// eight for each codeword, but four for the last data codeword of an M1
/// or M3 symbol.
pub proof fn lemma_symbol_bit_count(
    content: Seq<u8>,
    size: Size,
    level: ECCLevel,
    encoding: Encoding,
    eci_assignment: Option<u32>,
)
    requires
        level.available_in(size),
        stream_bits(content, size, encoding, eci_assignment).len() <= capacity(
            size,
            level,
        ).data_bits,
    ensures
        symbol_bits(content, size, level, encoding, eci_assignment).len() == 8 * symbol_codewords(
            size,
        ) - if size.has_half_codeword() {
            4int
        } else {
            0int
        },
{
    let cap = capacity(size, level);
    let data = data_codewords(content, size, level, encoding, eci_assignment);
    lemma_capacity_wf(size, level);
    lemma_finalized_fills_capacity(
        stream_bits(content, size, encoding, eci_assignment),
        size,
        cap.data_bits as int,
    );
    lemma_codeword_counts(data, cap);
}

/// Why no symbol is built, if none is. The first of these that applies
/// decides: no encoding is given, the size does not offer the level, or an
/// ECI assignment is given for a Micro symbol or has more than six digits;
/// the segment is rejected; the encoded bits exceed the data capacity.
pub open spec fn build_error(
    content: Seq<u8>,
    size: Size,
    level: ECCLevel,
    encoding: Option<Encoding>,
    eci_assignment: Option<u32>,
) -> Option<QrError> {
    if encoding is None || !level.available_in(size) || (eci_assignment matches Some(assignment)
        && (size is Micro || assignment > 999_999)) {
        Some(QrError::UnsupportedConfiguration)
    } else if segment_error(header_bits(eci_assignment).len(), content, encoding.unwrap(), size)
        is Some {
        segment_error(header_bits(eci_assignment).len(), content, encoding.unwrap(), size)
    } else if stream_bits(content, size, encoding.unwrap(), eci_assignment).len() > capacity(
        size,
        level,
    ).data_bits {
        Some(QrError::PayloadTooLarge)
    } else {
        None
    }
}

/// A payload of legal characters that is no longer than the character
/// capacity of the configuration for its encoding is not rejected: its
/// symbol is built.
pub proof fn lemma_payload_within_capacity_fits(
    content: Seq<u8>,
    size: Size,
    level: ECCLevel,
    encoding: Encoding,
)
    requires
        level.available_in(size),
        encoding.available_in(size),
        legal_characters(content, encoding),
        char_count(content, encoding) <= capacity(size, level).chars(encoding),
    ensures
        build_error(content, size, level, Some(encoding), None) is None,
{
    lemma_character_capacity(size, level);
    lemma_capacity_wf(size, level);
    lemma_two_to_values();
    lemma_segment_bits_len(content, encoding, size);
    assert(header_bits(None).len() == 0);
    assert(stream_bits(content, size, encoding, None) =~= segment_bits(content, encoding, size));
}

/// Masks a canvas that holds the placed bits with the best mask and
/// writes the format and version information.
fn finish_symbol(canvas: &Canvas, size: Size, level: ECCLevel) -> (symbol: Canvas)
    requires
        level.available_in(size),
        canvas.wf(),
        canvas.side() == size.side(),
        forall|x: int, y: int|
            0 <= x < size.side() && 0 <= y < size.side() ==> if blank_module(size, x, y)
                == Module::DataRegion {
                #[trigger] canvas.at(x, y) == Module::Light || canvas.at(x, y) == Module::Dark
            } else {
                canvas.at(x, y) == blank_module(size, x, y)
            },
    ensures
        symbol.wf(),
        symbol.side() == size.side(),
        forall|x: int, y: int|
            0 <= x < size.side() && 0 <= y < size.side() ==> #[trigger] symbol.at(x, y)
                == finished_module(
                canvas@,
                size,
                level,
                best_mask(canvas@, blank_grid(size), size),
                x,
                y,
            ),
        forall|x: int, y: int|
            0 <= x < size.side() && 0 <= y < size.side() && in_quiet_zone(size, x, y)
                ==> #[trigger] symbol.at(x, y) == Module::QuietZone,
        forall|x: int, y: int|
            0 <= x < size.side() && 0 <= y < size.side() && !in_quiet_zone(size, x, y)
                ==> #[trigger] symbol.at(x, y) == Module::Light || symbol.at(x, y) == Module::Dark,
{
    // determine best mask and apply it
    let best = apply_best_mask(canvas, size);
    let mask_code: u8 = best.0;
    let mut masked_symbol: Canvas = best.1;
    let ghost masked = masked_symbol@;
    // apply format bits
    insert_format_info(&mut masked_symbol, size, level, mask_code);
    let ghost formatted = masked_symbol@;
    // apply version info
    insert_version_info(&mut masked_symbol, size);
    proof {
        assert forall|x: int, y: int|
            0 <= x < size.side() && 0 <= y < size.side() implies #[trigger] masked_symbol.at(x, y)
            == finished_module(canvas@, size, level, mask_code as int, x, y) by {
            assert(masked_symbol.at(x, y) == versioned_module(formatted[y][x], size, x, y));
            assert(formatted[y][x] == formatted_module(masked[y][x], size, level, mask_code, x, y));
        }
        assert forall|x: int, y: int|
            0 <= x < size.side() && 0 <= y < size.side() implies (in_quiet_zone(size, x, y)
            ==> #[trigger] masked_symbol.at(x, y) == Module::QuietZone) && (!in_quiet_zone(
            size,
            x,
            y,
        ) ==> masked_symbol.at(x, y) == Module::Light || masked_symbol.at(x, y) == Module::Dark) by {
            let base = masked_module(
                canvas@,
                blank_grid(size),
                mask_pattern(mask_code as int, size),
                size,
                x,
                y,
            );
            assert(canvas.at(x, y) == canvas@[y][x]);
            assert(blank_grid(size)[y][x] == blank_module(size, x, y));
            lemma_blank_module_markers(size, x, y);
            lemma_information_replaces_markers(base, size, level, mask_code, x, y);
            assert(masked_symbol.at(x, y) == finished_module(
                canvas@,
                size,
                level,
                mask_code as int,
                x,
                y,
            ));
        }
    }
    masked_symbol
}

/// Builds the symbol for a payload: the payload is encoded in the given
/// mode, behind an ECI header where an assignment is given, filled up to
/// the data capacity of the size at the given level, protected by error
/// correction codewords, placed, masked with the best mask, and completed
/// with format and version information.
///
/// The result is a square canvas whose side is that of the symbol plus the
/// quiet zone on both sides.
pub fn create_qr_code(
    content: &[u8],
    size: Size,
    level: ECCLevel,
    encoding: Option<Encoding>,
    eci_assignment: Option<u32>,
) -> (r: Result<Canvas, QrError>)
    ensures
        match build_error(content@, size, level, encoding, eci_assignment) {
            Some(e) => r == Err::<Canvas, QrError>(e),
            None => r matches Ok(symbol) && {
                let placed = placed_grid(
                    size,
                    symbol_bits(content@, size, level, encoding.unwrap(), eci_assignment),
                );
                &&& symbol.wf()
                &&& symbol.side() == size.interior() + 2 * size.quiet()
                &&& forall|x: int, y: int|
                    0 <= x < size.side() && 0 <= y < size.side() && in_quiet_zone(size, x, y)
                        ==> #[trigger] symbol.at(x, y) == Module::QuietZone
                &&& forall|x: int, y: int|
                    0 <= x < size.side() && 0 <= y < size.side() && !in_quiet_zone(size, x, y)
                        ==> #[trigger] symbol.at(x, y) == Module::Light || symbol.at(x, y)
                        == Module::Dark
                &&& forall|x: int, y: int|
                    0 <= x < size.side() && 0 <= y < size.side() ==> #[trigger] symbol.at(x, y)
                        == finished_module(
                        placed,
                        size,
                        level,
                        best_mask(placed, blank_grid(size), size),
                        x,
                        y,
                    )
            },
        },
{
    let mode: Encoding = match encoding {
        Some(mode) => mode,
        None => {
            return Err(QrError::UnsupportedConfiguration);
        },
    };
    if !level.is_available_in(size) {
        return Err(QrError::UnsupportedConfiguration);
    }
    // encode some data
    let mut encoder = QrBitRecorder::new();
    match eci_assignment {
        Some(assignment) => {
            if size.is_micro() || assignment > 999_999 {
                return Err(QrError::UnsupportedConfiguration);
            }
            write_eci_header(&mut encoder, assignment);
        },
        None => {},
    }
    assert(recorded_bits(encoder) =~= header_bits(eci_assignment));
    match encode_data_segment(&mut encoder, content, mode, size) {
        Err(e) => {
            return Err(e);
        },
        Ok(()) => {},
    }
    assert(recorded_bits(encoder) == stream_bits(content@, size, mode, eci_assignment));
    let data_content: Vec<u8> = match finalize_bitstream(&mut encoder, size, level) {
        Err(e) => {
            return Err(e);
        },
        Ok(codewords) => codewords,
    };
    assert(data_content@ == data_codewords(content@, size, level, mode, eci_assignment));
    // compute ecc bytes + interleave
    let words = match construct_codewords(data_content.as_slice(), size, level) {
        Err(e) => {
            return Err(e);
        },
        Ok(words) => words,
    };
    let ghost bits = symbol_bits(content@, size, level, mode, eci_assignment);
    assert(bits == payload_bits(size, words.0@, words.1@));
    proof {
        // the encoding region of the blank canvas holds all codewords
        lemma_symbol_bit_count(content@, size, level, mode, eci_assignment);
        lemma_blank_slot_count(size);
        lemma_region_holds_codewords(size);
    }
    // create a canvas
    let mut canvas = create_qr_canvas(size);
    match insert_data_payload(&mut canvas, size, words.0.as_slice(), words.1.as_slice()) {
        Err(e) => {
            return Err(e);
        },
        Ok(()) => {},
    }
    let ghost placed = placed_grid(size, bits);
    proof {
        assert forall|y: int| 0 <= y < size.side() implies #[trigger] canvas@[y] =~= placed[y] by {
            assert forall|x: int| 0 <= x < size.side() implies canvas@[y][x] == placed[y][x] by {
                assert(canvas.at(x, y) == placed_module(blank_grid(size), size, bits, x, y));
            }
        }
        assert(canvas@ =~= placed);
    }
    proof {
        assert forall|x: int, y: int|
            0 <= x < size.side() && 0 <= y < size.side() implies if blank_module(size, x, y)
            == Module::DataRegion {
            #[trigger] canvas.at(x, y) == Module::Light || canvas.at(x, y) == Module::Dark
        } else {
            canvas.at(x, y) == blank_module(size, x, y)
        } by {
            assert(canvas.at(x, y) == placed_module(blank_grid(size), size, bits, x, y));
            assert(blank_grid(size)[y][x] == blank_module(size, x, y));
        }
    }
    let masked_symbol = finish_symbol(&canvas, size, level);
    // done, return
    Ok(masked_symbol)
}

} // verus!
