//! Format and version information: the BCH codes and the cells that
//! receive their bits.
use crate::config::{ECCLevel, Size};
use crate::serialization::canvas::{is_square, Canvas, Module};
use crate::serialization::masking::mask_count;
use crate::serialization::patterns::{blank_module, in_quiet_zone, lemma_blank_module_markers};
use vstd::prelude::*;

verus! {

/// The value `v` with its bits `degree + n - 1` down to `degree` cleared by
/// adding shifted copies of the generator polynomial, from the highest bit
/// down: the remainder of the division of `v` by the generator over GF(2),
/// where `v` has fewer than `degree + n` bits.
pub open spec fn bch_reduce(v: u32, generator: u32, degree: u32, n: nat) -> u32
    decreases n,
{
    if n == 0 {
        v
    } else {
        let k: u32 = (n - 1) as u32;
        let shift: u32 = (degree + k) as u32;
        let reduced: u32 = if (v >> shift) & 1 == 1 {
            v ^ (generator << k)
        } else {
            v
        };
        bch_reduce(reduced, generator, degree, (n - 1) as nat)
    }
}

/// The code word of `data`, a number of `data_bits` bits: the data followed
/// by the `degree` bits of the remainder of its division by the generator.
pub open spec fn bch_encode(data: u32, generator: u32, degree: u32, data_bits: nat) -> u32 {
    (data << degree) | bch_reduce(data << degree, generator, degree, data_bits)
}

/// The five data bits of the format information. A Standard symbol gives
/// two bits for the level (L 01, M 00, Q 11, H 10) and three for the mask
/// reference. A Micro symbol gives three bits for the symbol number, which
/// names version and level, and two for the mask reference.
pub open spec fn format_data(size: Size, ecl: ECCLevel, mask_pattern: u8) -> u32 {
    match size {
        Size::Micro(k) => (if k == 1 {
            0b00000u32
        } else if k == 2 && ecl == ECCLevel::L {
            0b00100u32
        } else if k == 2 {
            0b01000u32
        } else if k == 3 && ecl == ECCLevel::L {
            0b01100u32
        } else if k == 3 {
            0b10000u32
        } else if ecl == ECCLevel::L {
            0b10100u32
        } else if ecl == ECCLevel::M {
            0b11000u32
        } else {
            0b11100u32
        }) | (mask_pattern as u32),
        Size::Standard(_) => (match ecl {
            ECCLevel::L => 0b01000u32,
            ECCLevel::M => 0b00000u32,
            ECCLevel::Q => 0b11000u32,
            ECCLevel::H => 0b10000u32,
        }) | (mask_pattern as u32),
    }
}

/// The pattern that is added to the code word of the format information.
pub open spec fn format_xor_mask(size: Size) -> u32 {
    if size is Micro {
        0x4445
    } else {
        0x5412
    }
}

/// The fifteen bits of the format information: the BCH(15,5) code word of
/// the data bits, with generator polynomial 0x537, added to the pattern of
/// the symbol family.
pub open spec fn format_info_bits(size: Size, ecl: ECCLevel, mask_pattern: u8) -> u16 {
    ((bch_encode(format_data(size, ecl, mask_pattern), 0x537, 10, 5) ^ format_xor_mask(size))
        & 0x7FFF) as u16
}

/// The eighteen bits of the version information of a Standard symbol: the
/// BCH(18,6) code word of the version number, with generator polynomial
/// 0x1F25.
pub open spec fn version_info_bits(v: u8) -> u32 {
    bch_encode(v as u32, 0x1F25, 12, 6)
}

/// The remainder of the division of `v` by the generator.
fn bch_remainder(v: u32, generator: u32, degree: u32, data_bits: u32) -> (r: u32)
    requires
        degree + data_bits <= 32,
    ensures
        r == bch_reduce(v, generator, degree, data_bits as nat),
{
    let mut r: u32 = v;
    let mut n: u32 = data_bits;
    while n > 0
        invariant
            degree + data_bits <= 32,
            n <= data_bits,
            bch_reduce(r, generator, degree, n as nat) == bch_reduce(
                v,
                generator,
                degree,
                data_bits as nat,
            ),
        decreases n,
    {
        let k: u32 = n - 1;
        let shift: u32 = degree + k;
        if (r >> shift) & 1 == 1 {
            r = r ^ (generator << k);
        }
        n = k;
    }
    r
}

/// compute the 15bits long format bits "format info" specifier, which contains
/// information about the used mask and ECCLevel
pub fn compute_format_info_bits(size: Size, ecl: ECCLevel, mask_pattern: u8) -> (bits: u16)
    requires
        ecl.available_in(size),
        mask_pattern < mask_count(size),
    ensures
        bits == format_info_bits(size, ecl, mask_pattern),
{
    let data_bits: u32 = match size {
        Size::Micro(k) => (if k == 1 {
            0b00000u32
        } else if k == 2 && ecl == ECCLevel::L {
            0b00100u32
        } else if k == 2 {
            0b01000u32
        } else if k == 3 && ecl == ECCLevel::L {
            0b01100u32
        } else if k == 3 {
            0b10000u32
        } else if ecl == ECCLevel::L {
            0b10100u32
        } else if ecl == ECCLevel::M {
            0b11000u32
        } else {
            0b11100u32
        }) | (mask_pattern as u32),
        Size::Standard(_) => (match ecl {
            ECCLevel::L => 0b01000u32,
            ECCLevel::M => 0b00000u32,
            ECCLevel::Q => 0b11000u32,
            ECCLevel::H => 0b10000u32,
        }) | (mask_pattern as u32),
    };
    let xor_mask: u32 = match size {
        Size::Micro(_) => 0x4445,
        Size::Standard(_) => 0x5412,
    };
    let shifted: u32 = data_bits << 10u32;
    let code: u32 = shifted | bch_remainder(shifted, 0x537, 10, 5);
    let low: u32 = (code ^ xor_mask) & 0x7FFF;
    assert(low <= 0x7FFF) by (bit_vector)
        requires
            low == (code ^ xor_mask) & 0x7FFF,
    ;
    low as u16
}

/// The version information bits of a Standard symbol.
pub fn compute_version_info_bits(version: u8) -> (bits: u32)
    ensures
        bits == version_info_bits(version),
{
    let shifted: u32 = (version as u32) << 12u32;
    shifted | bch_remainder(shifted, 0x1F25, 12, 6)
}

/// Cells of the version information beside the bottom-left finder pattern,
/// most significant bit first. Offsets below zero count from the far edge.
pub open spec fn version_coords_bottom_left() -> Seq<(i16, i16)> {
    seq![
        (5i16, -9i16),
        (5i16, -10i16),
        (5i16, -11i16),
        (4i16, -9i16),
        (4i16, -10i16),
        (4i16, -11i16),
        (3i16, -9i16),
        (3i16, -10i16),
        (3i16, -11i16),
        (2i16, -9i16),
        (2i16, -10i16),
        (2i16, -11i16),
        (1i16, -9i16),
        (1i16, -10i16),
        (1i16, -11i16),
        (0i16, -9i16),
        (0i16, -10i16),
        (0i16, -11i16),
    ]
}

/// Cells of the version information beside the top-right finder pattern.
pub open spec fn version_coords_top_right() -> Seq<(i16, i16)> {
    seq![
        (-9i16, 5i16),
        (-10i16, 5i16),
        (-11i16, 5i16),
        (-9i16, 4i16),
        (-10i16, 4i16),
        (-11i16, 4i16),
        (-9i16, 3i16),
        (-10i16, 3i16),
        (-11i16, 3i16),
        (-9i16, 2i16),
        (-10i16, 2i16),
        (-11i16, 2i16),
        (-9i16, 1i16),
        (-10i16, 1i16),
        (-11i16, 1i16),
        (-9i16, 0i16),
        (-10i16, 0i16),
        (-11i16, 0i16),
    ]
}

/// Cells of the format information of a Standard symbol around the top-left
/// finder pattern.
pub open spec fn format_coords_main() -> Seq<(i16, i16)> {
    seq![
        (0i16, 8i16),
        (1i16, 8i16),
        (2i16, 8i16),
        (3i16, 8i16),
        (4i16, 8i16),
        (5i16, 8i16),
        (7i16, 8i16),
        (8i16, 8i16),
        (8i16, 7i16),
        (8i16, 5i16),
        (8i16, 4i16),
        (8i16, 3i16),
        (8i16, 2i16),
        (8i16, 1i16),
        (8i16, 0i16),
    ]
}

/// Cells of the format information of a Standard symbol beside the
/// bottom-left and top-right finder patterns.
pub open spec fn format_coords_side() -> Seq<(i16, i16)> {
    seq![
        (8i16, -1i16),
        (8i16, -2i16),
        (8i16, -3i16),
        (8i16, -4i16),
        (8i16, -5i16),
        (8i16, -6i16),
        (8i16, -7i16),
        (-8i16, 8i16),
        (-7i16, 8i16),
        (-6i16, 8i16),
        (-5i16, 8i16),
        (-4i16, 8i16),
        (-3i16, 8i16),
        (-2i16, 8i16),
        (-1i16, 8i16),
    ]
}

/// Cells of the format information of a Micro symbol.
pub open spec fn format_coords_micro() -> Seq<(i16, i16)> {
    seq![
        (1i16, 8i16),
        (2i16, 8i16),
        (3i16, 8i16),
        (4i16, 8i16),
        (5i16, 8i16),
        (6i16, 8i16),
        (7i16, 8i16),
        (8i16, 8i16),
        (8i16, 7i16),
        (8i16, 6i16),
        (8i16, 5i16),
        (8i16, 4i16),
        (8i16, 3i16),
        (8i16, 2i16),
        (8i16, 1i16),
    ]
}

fn version_info_coords_bl() -> (v: Vec<(i16, i16)>)
    ensures
        v@ == version_coords_bottom_left(),
{
    let v: Vec<(i16, i16)> = vec![
        (5, -9),
        (5, -10),
        (5, -11),
        (4, -9),
        (4, -10),
        (4, -11),
        (3, -9),
        (3, -10),
        (3, -11),
        (2, -9),
        (2, -10),
        (2, -11),
        (1, -9),
        (1, -10),
        (1, -11),
        (0, -9),
        (0, -10),
        (0, -11),
    ];
    assert(v@ =~= version_coords_bottom_left());
    v
}

fn version_info_coords_tr() -> (v: Vec<(i16, i16)>)
    ensures
        v@ == version_coords_top_right(),
{
    let v: Vec<(i16, i16)> = vec![
        (-9, 5),
        (-10, 5),
        (-11, 5),
        (-9, 4),
        (-10, 4),
        (-11, 4),
        (-9, 3),
        (-10, 3),
        (-11, 3),
        (-9, 2),
        (-10, 2),
        (-11, 2),
        (-9, 1),
        (-10, 1),
        (-11, 1),
        (-9, 0),
        (-10, 0),
        (-11, 0),
    ];
    assert(v@ =~= version_coords_top_right());
    v
}

fn format_info_coords_qr_main() -> (v: Vec<(i16, i16)>)
    ensures
        v@ == format_coords_main(),
{
    let v: Vec<(i16, i16)> = vec![
        (0, 8),
        (1, 8),
        (2, 8),
        (3, 8),
        (4, 8),
        (5, 8),
        (7, 8),
        (8, 8),
        (8, 7),
        (8, 5),
        (8, 4),
        (8, 3),
        (8, 2),
        (8, 1),
        (8, 0),
    ];
    assert(v@ =~= format_coords_main());
    v
}

fn format_info_coords_qr_side() -> (v: Vec<(i16, i16)>)
    ensures
        v@ == format_coords_side(),
{
    let v: Vec<(i16, i16)> = vec![
        (8, -1),
        (8, -2),
        (8, -3),
        (8, -4),
        (8, -5),
        (8, -6),
        (8, -7),
        (-8, 8),
        (-7, 8),
        (-6, 8),
        (-5, 8),
        (-4, 8),
        (-3, 8),
        (-2, 8),
        (-1, 8),
    ];
    assert(v@ =~= format_coords_side());
    v
}

fn format_info_coords_micro_qr() -> (v: Vec<(i16, i16)>)
    ensures
        v@ == format_coords_micro(),
{
    let v: Vec<(i16, i16)> = vec![
        (1, 8),
        (2, 8),
        (3, 8),
        (4, 8),
        (5, 8),
        (6, 8),
        (7, 8),
        (8, 8),
        (8, 7),
        (8, 6),
        (8, 5),
        (8, 4),
        (8, 3),
        (8, 2),
        (8, 1),
    ];
    assert(v@ =~= format_coords_micro());
    v
}

/// The canvas coordinate that an offset within the symbol names: offsets
/// below zero count from the far edge of the symbol.
pub open spec fn resolve(size: Size, offset: i16) -> int {
    size.quiet() + if offset < 0 {
        offset + size.interior()
    } else {
        offset as int
    }
}

/// Whether all offsets name cells of the symbol.
pub open spec fn coords_in_symbol(size: Size, coords: Seq<(i16, i16)>) -> bool {
    forall|i: int|
        0 <= i < coords.len() ==> -size.interior() <= (#[trigger] coords[i]).0 < size.interior()
            && -size.interior() <= coords[i].1 < size.interior()
}

/// The module for bit number `i` of the `num_bits` low-order bits of
/// `bits`, the most significant of them being number 0.
pub open spec fn bit_color(bits: u32, num_bits: u32, i: int) -> Module {
    if (bits >> ((num_bits - 1 - i) as u32)) & 1 == 1 {
        Module::Dark
    } else {
        Module::Light
    }
}

/// The cell in column `x` of row `y` once the first `n` coordinates have
/// received their bits, where it held `base` before: the bit of the last of
/// these coordinates that names the cell, or `base` where none does.
pub open spec fn inscribed(
    base: Module,
    bits: u32,
    num_bits: u32,
    coords: Seq<(i16, i16)>,
    n: int,
    size: Size,
    x: int,
    y: int,
) -> Module
    decreases n,
{
    if n <= 0 {
        base
    } else if resolve(size, coords[n - 1].0) == x && resolve(size, coords[n - 1].1) == y {
        bit_color(bits, num_bits, n - 1)
    } else {
        inscribed(base, bits, num_bits, coords, n - 1, size, x, y)
    }
}

// helper function to write format or version bits to given coordinates in QR code
// bits are the bits actually to be written (big-endian order), num_bits is how many
// bits to write. Obviously this function supports writing only up to 32 bits at a time
fn insert_bits_at(
    symbol: &mut Canvas,
    bits: u32,
    num_bits: u32,
    coords: &Vec<(i16, i16)>,
    size: Size,
)
    requires
        size.valid(),
        old(symbol).wf(),
        old(symbol).side() == size.side(),
        coords@.len() == num_bits,
        1 <= num_bits <= 32,
        coords_in_symbol(size, coords@),
    ensures
        final(symbol).wf(),
        final(symbol).side() == old(symbol).side(),
        forall|x: int, y: int|
            0 <= x < size.side() && 0 <= y < size.side() ==> #[trigger] final(symbol).at(x, y)
                == inscribed(
                old(symbol).at(x, y),
                bits,
                num_bits,
                coords@,
                num_bits as int,
                size,
                x,
                y,
            ),
{
    let symbol_size: i16 = size.dimensions() as i16;
    let quiet_offset: i16 = size.quiet_region_size() as i16;
    let ghost g0 = symbol@;
    let mut i: usize = 0;
    while i < coords.len()
        invariant
            size.valid(),
            symbol.wf(),
            symbol.side() == size.side(),
            g0.len() == size.side(),
            is_square(g0),
            symbol_size == size.interior(),
            quiet_offset == size.quiet(),
            coords@.len() == num_bits,
            1 <= num_bits <= 32,
            coords_in_symbol(size, coords@),
            i <= coords@.len(),
            forall|x: int, y: int|
                0 <= x < size.side() && 0 <= y < size.side() ==> #[trigger] symbol.at(x, y)
                    == inscribed(g0[y][x], bits, num_bits, coords@, i as int, size, x, y),
        decreases coords@.len() - i,
    {
        let p: (i16, i16) = coords[i];
        let shift: u32 = num_bits - 1 - (i as u32);
        let color: Module = if (bits >> shift) & 1 == 1 {
            Module::Dark
        } else {
            Module::Light
        };
        let x: i16 = quiet_offset + if p.0 < 0 {
            p.0 + symbol_size
        } else {
            p.0
        };
        let y: i16 = quiet_offset + if p.1 < 0 {
            p.1 + symbol_size
        } else {
            p.1
        };
        symbol.put(x as usize, y as usize, color);
        i += 1;
    }
}

/// The cell in column `x` of row `y` once the format information has been
/// written, where it held `base` before. A Standard symbol holds the bits
/// twice, and a dark module above the bits beside the bottom-left finder
/// pattern.
pub open spec fn formatted_module(
    base: Module,
    size: Size,
    ecl: ECCLevel,
    mask_pattern: u8,
    x: int,
    y: int,
) -> Module {
    let bits = format_info_bits(size, ecl, mask_pattern) as u32;
    match size {
        Size::Micro(_) => inscribed(base, bits, 15, format_coords_micro(), 15, size, x, y),
        Size::Standard(v) => if x == 12 && y == 13 + 4 * v {
            Module::Dark
        } else {
            inscribed(
                inscribed(base, bits, 15, format_coords_main(), 15, size, x, y),
                bits,
                15,
                format_coords_side(),
                15,
                size,
                x,
                y,
            )
        },
    }
}

/// Compute and write format bits into symbol
pub fn insert_format_info(symbol: &mut Canvas, size: Size, ecl: ECCLevel, mask_pattern: u8)
    requires
        ecl.available_in(size),
        mask_pattern < mask_count(size),
        old(symbol).wf(),
        old(symbol).side() == size.side(),
    ensures
        final(symbol).wf(),
        final(symbol).side() == old(symbol).side(),
        forall|x: int, y: int|
            0 <= x < size.side() && 0 <= y < size.side() ==> #[trigger] final(symbol).at(x, y)
                == formatted_module(old(symbol).at(x, y), size, ecl, mask_pattern, x, y),
{
    let format_bits: u16 = compute_format_info_bits(size, ecl, mask_pattern);
    match size {
        Size::Micro(_) => {
            let coords = format_info_coords_micro_qr();
            insert_bits_at(symbol, format_bits as u32, 15, &coords, size);
        },
        Size::Standard(i) => {
            let main = format_info_coords_qr_main();
            let side = format_info_coords_qr_side();
            insert_bits_at(symbol, format_bits as u32, 15, &main, size);
            insert_bits_at(symbol, format_bits as u32, 15, &side, size);
            symbol.put(12, 13 + 4 * (i as usize), Module::Dark);
        },
    }
}

/// The cell in column `x` of row `y` once the version information has been
/// written, where it held `base` before. Only Standard symbols from version
/// 7 on hold version information; they hold it twice.
pub open spec fn versioned_module(base: Module, size: Size, x: int, y: int) -> Module {
    match size {
        Size::Micro(_) => base,
        Size::Standard(v) => if v >= 7 {
            inscribed(
                inscribed(
                    base,
                    version_info_bits(v),
                    18,
                    version_coords_bottom_left(),
                    18,
                    size,
                    x,
                    y,
                ),
                version_info_bits(v),
                18,
                version_coords_top_right(),
                18,
                size,
                x,
                y,
            )
        } else {
            base
        },
    }
}

/// Compute and insert version info bits into symbol
/// Only does something for >= version 7 symbols.
pub fn insert_version_info(symbol: &mut Canvas, size: Size)
    requires
        size.valid(),
        old(symbol).wf(),
        old(symbol).side() == size.side(),
    ensures
        final(symbol).wf(),
        final(symbol).side() == old(symbol).side(),
        forall|x: int, y: int|
            0 <= x < size.side() && 0 <= y < size.side() ==> #[trigger] final(symbol).at(x, y)
                == versioned_module(old(symbol).at(x, y), size, x, y),
{
    if let Size::Standard(i) = size {
        if i >= 7 {
            let version_bits: u32 = compute_version_info_bits(i);
            let bottom_left = version_info_coords_bl();
            let top_right = version_info_coords_tr();
            insert_bits_at(symbol, version_bits, 18, &bottom_left, size);
            insert_bits_at(symbol, version_bits, 18, &top_right, size);
        }
    }
}

/// Whether one of the first `n` coordinates names the cell in column `x`
/// of row `y`.
pub open spec fn names_cell(coords: Seq<(i16, i16)>, n: int, size: Size, x: int, y: int) -> bool
    decreases n,
{
    n > 0 && ((resolve(size, coords[n - 1].0) == x && resolve(size, coords[n - 1].1) == y)
        || names_cell(coords, n - 1, size, x, y))
}

/// A cell that receives bits holds light or dark afterwards, and every
/// other cell what it held before.
pub proof fn lemma_inscribed_value(
    base: Module,
    bits: u32,
    num_bits: u32,
    coords: Seq<(i16, i16)>,
    n: int,
    size: Size,
    x: int,
    y: int,
)
    ensures
        names_cell(coords, n, size, x, y) ==> inscribed(base, bits, num_bits, coords, n, size, x, y)
            == Module::Light || inscribed(base, bits, num_bits, coords, n, size, x, y)
            == Module::Dark,
        !names_cell(coords, n, size, x, y) ==> inscribed(
            base,
            bits,
            num_bits,
            coords,
            n,
            size,
            x,
            y,
        ) == base,
    decreases n,
{
    if n > 0 {
        lemma_inscribed_value(base, bits, num_bits, coords, n - 1, size, x, y);
    }
}

/// The coordinates of the format information name every cell that the
/// blank canvas reserves for it, and no cell of the quiet zone.
pub proof fn lemma_format_cells_named(size: Size, x: int, y: int)
    requires
        size.valid(),
        0 <= x < size.side(),
        0 <= y < size.side(),
    ensures
        blank_module(size, x, y) == Module::FormatReserved ==> match size {
            Size::Micro(_) => names_cell(format_coords_micro(), 15, size, x, y),
            Size::Standard(_) => names_cell(format_coords_main(), 15, size, x, y) || names_cell(
                format_coords_side(),
                15,
                size,
                x,
                y,
            ),
        },
        in_quiet_zone(size, x, y) ==> !names_cell(format_coords_micro(), 15, size, x, y)
            && !names_cell(format_coords_main(), 15, size, x, y) && !names_cell(
            format_coords_side(),
            15,
            size,
            x,
            y,
        ),
{
    lemma_blank_module_markers(size, x, y);
    reveal_with_fuel(names_cell, 16);
}

/// The coordinates of the version information name every cell that the
/// blank canvas reserves for it, and no cell of the quiet zone.
pub proof fn lemma_version_cells_named(size: Size, x: int, y: int)
    requires
        size.valid(),
        0 <= x < size.side(),
        0 <= y < size.side(),
    ensures
        blank_module(size, x, y) == Module::VersionReserved ==> (size matches Size::Standard(v)
            && v >= 7 && (names_cell(version_coords_bottom_left(), 18, size, x, y) || names_cell(
            version_coords_top_right(),
            18,
            size,
            x,
            y,
        ))),
        in_quiet_zone(size, x, y) ==> !names_cell(version_coords_bottom_left(), 18, size, x, y)
            && !names_cell(version_coords_top_right(), 18, size, x, y),
{
    lemma_blank_module_markers(size, x, y);
    reveal_with_fuel(names_cell, 19);
}

/// Format and version information replace the markers of the blank
/// canvas: a cell that held a light or dark module or one of the two
/// markers for reserved cells holds a light or dark module afterwards, and
/// the quiet zone stays as it is.
pub proof fn lemma_information_replaces_markers(
    base: Module,
    size: Size,
    ecl: ECCLevel,
    mask_pattern: u8,
    x: int,
    y: int,
)
    requires
        size.valid(),
        0 <= x < size.side(),
        0 <= y < size.side(),
        base == blank_module(size, x, y) || base == Module::Light || base == Module::Dark,
        base != Module::DataRegion,
    ensures
        in_quiet_zone(size, x, y) ==> versioned_module(
            formatted_module(base, size, ecl, mask_pattern, x, y),
            size,
            x,
            y,
        ) == base,
        !in_quiet_zone(size, x, y) ==> versioned_module(
            formatted_module(base, size, ecl, mask_pattern, x, y),
            size,
            x,
            y,
        ) == Module::Light || versioned_module(
            formatted_module(base, size, ecl, mask_pattern, x, y),
            size,
            x,
            y,
        ) == Module::Dark,
{
    lemma_blank_module_markers(size, x, y);
    lemma_format_cells_named(size, x, y);
    lemma_version_cells_named(size, x, y);
    let bits = format_info_bits(size, ecl, mask_pattern) as u32;
    let formatted = formatted_module(base, size, ecl, mask_pattern, x, y);
    match size {
        Size::Micro(_) => {
            lemma_inscribed_value(base, bits, 15, format_coords_micro(), 15, size, x, y);
        },
        Size::Standard(v) => {
            let first = inscribed(base, bits, 15, format_coords_main(), 15, size, x, y);
            lemma_inscribed_value(base, bits, 15, format_coords_main(), 15, size, x, y);
            lemma_inscribed_value(first, bits, 15, format_coords_side(), 15, size, x, y);
            let vbits = version_info_bits(v);
            let second = inscribed(
                formatted,
                vbits,
                18,
                version_coords_bottom_left(),
                18,
                size,
                x,
                y,
            );
            lemma_inscribed_value(
                formatted,
                vbits,
                18,
                version_coords_bottom_left(),
                18,
                size,
                x,
                y,
            );
            lemma_inscribed_value(second, vbits, 18, version_coords_top_right(), 18, size, x, y);
        },
    }
}

/// The format information of a Standard symbol for each value of the five
/// data bits, as Annex C of the standard lists it.
pub open spec fn standard_format_table() -> Seq<u16> {
    seq![
        0x5412u16, 0x5125u16, 0x5e7cu16, 0x5b4bu16, 0x45f9u16, 0x40ceu16,
        0x4f97u16, 0x4aa0u16, 0x77c4u16, 0x72f3u16, 0x7daau16, 0x789du16,
        0x662fu16, 0x6318u16, 0x6c41u16, 0x6976u16, 0x1689u16, 0x13beu16,
        0x1ce7u16, 0x19d0u16, 0x0762u16, 0x0255u16, 0x0d0cu16, 0x083bu16,
        0x355fu16, 0x3068u16, 0x3f31u16, 0x3a06u16, 0x24b4u16, 0x2183u16,
        0x2edau16, 0x2bedu16,
    ]
}

/// The format information of a Micro symbol for each value of the five
/// data bits.
pub open spec fn micro_format_table() -> Seq<u16> {
    seq![
        0x4445u16, 0x4172u16, 0x4e2bu16, 0x4b1cu16, 0x55aeu16, 0x5099u16,
        0x5fc0u16, 0x5af7u16, 0x6793u16, 0x62a4u16, 0x6dfdu16, 0x68cau16,
        0x7678u16, 0x734fu16, 0x7c16u16, 0x7921u16, 0x06deu16, 0x03e9u16,
        0x0cb0u16, 0x0987u16, 0x1735u16, 0x1202u16, 0x1d5bu16, 0x186cu16,
        0x2508u16, 0x203fu16, 0x2f66u16, 0x2a51u16, 0x34e3u16, 0x31d4u16,
        0x3e8du16, 0x3bbau16,
    ]
}

/// The version information of the versions 7 to 40, as Annex D of the
/// standard lists it.
pub open spec fn version_table() -> Seq<u32> {
    seq![
        0x07c94u32, 0x085bcu32, 0x09a99u32, 0x0a4d3u32, 0x0bbf6u32, 0x0c762u32,
        0x0d847u32, 0x0e60du32, 0x0f928u32, 0x10b78u32, 0x1145du32, 0x12a17u32,
        0x13532u32, 0x149a6u32, 0x15683u32, 0x168c9u32, 0x177ecu32, 0x18ec4u32,
        0x191e1u32, 0x1afabu32, 0x1b08eu32, 0x1cc1au32, 0x1d33fu32, 0x1ed75u32,
        0x1f250u32, 0x209d5u32, 0x216f0u32, 0x228bau32, 0x2379fu32, 0x24b0bu32,
        0x2542eu32, 0x26a64u32, 0x27541u32, 0x28c69u32,
    ]
}

/// The format information of every configuration and mask is the entry of
/// the published table at the place that the five data bits name.
pub proof fn lemma_format_info_in_table(size: Size, ecl: ECCLevel, mask_pattern: u8)
    requires
        ecl.available_in(size),
        mask_pattern < mask_count(size),
    ensures
        format_data(size, ecl, mask_pattern) < 32,
        format_info_bits(size, ecl, mask_pattern) == if size is Micro {
            micro_format_table()[format_data(size, ecl, mask_pattern) as int]
        } else {
            standard_format_table()[format_data(size, ecl, mask_pattern) as int]
        },
{
    let d = format_data(size, ecl, mask_pattern);
    let m = mask_pattern as u32;
    assert(m < 4 ==> (0u32 | m) == m && (4u32 | m) == 4 + m && (8u32 | m) == 8 + m && (12u32 | m)
        == 12 + m && (16u32 | m) == 16 + m && (20u32 | m) == 20 + m && (24u32 | m) == 24 + m && (
    28u32 | m) == 28 + m) by (bit_vector);
    assert(m < 8 ==> (0u32 | m) == m && (8u32 | m) == 8 + m && (16u32 | m) == 16 + m && (24u32 | m)
        == 24 + m) by (bit_vector);
    assert(d < 32);
    if size is Micro {
        assert((bch_encode(0, 0x537, 10, 5) ^ 0x4445) & 0x7FFF == 0x4445
        && (bch_encode(1, 0x537, 10, 5) ^ 0x4445) & 0x7FFF == 0x4172
        && (bch_encode(2, 0x537, 10, 5) ^ 0x4445) & 0x7FFF == 0x4e2b
        && (bch_encode(3, 0x537, 10, 5) ^ 0x4445) & 0x7FFF == 0x4b1c
        && (bch_encode(4, 0x537, 10, 5) ^ 0x4445) & 0x7FFF == 0x55ae
        && (bch_encode(5, 0x537, 10, 5) ^ 0x4445) & 0x7FFF == 0x5099
        && (bch_encode(6, 0x537, 10, 5) ^ 0x4445) & 0x7FFF == 0x5fc0
        && (bch_encode(7, 0x537, 10, 5) ^ 0x4445) & 0x7FFF == 0x5af7
        && (bch_encode(8, 0x537, 10, 5) ^ 0x4445) & 0x7FFF == 0x6793
        && (bch_encode(9, 0x537, 10, 5) ^ 0x4445) & 0x7FFF == 0x62a4
        && (bch_encode(10, 0x537, 10, 5) ^ 0x4445) & 0x7FFF == 0x6dfd
        && (bch_encode(11, 0x537, 10, 5) ^ 0x4445) & 0x7FFF == 0x68ca
        && (bch_encode(12, 0x537, 10, 5) ^ 0x4445) & 0x7FFF == 0x7678
        && (bch_encode(13, 0x537, 10, 5) ^ 0x4445) & 0x7FFF == 0x734f
        && (bch_encode(14, 0x537, 10, 5) ^ 0x4445) & 0x7FFF == 0x7c16
        && (bch_encode(15, 0x537, 10, 5) ^ 0x4445) & 0x7FFF == 0x7921
        && (bch_encode(16, 0x537, 10, 5) ^ 0x4445) & 0x7FFF == 0x06de
        && (bch_encode(17, 0x537, 10, 5) ^ 0x4445) & 0x7FFF == 0x03e9
        && (bch_encode(18, 0x537, 10, 5) ^ 0x4445) & 0x7FFF == 0x0cb0
        && (bch_encode(19, 0x537, 10, 5) ^ 0x4445) & 0x7FFF == 0x0987
        && (bch_encode(20, 0x537, 10, 5) ^ 0x4445) & 0x7FFF == 0x1735
        && (bch_encode(21, 0x537, 10, 5) ^ 0x4445) & 0x7FFF == 0x1202
        && (bch_encode(22, 0x537, 10, 5) ^ 0x4445) & 0x7FFF == 0x1d5b
        && (bch_encode(23, 0x537, 10, 5) ^ 0x4445) & 0x7FFF == 0x186c
        && (bch_encode(24, 0x537, 10, 5) ^ 0x4445) & 0x7FFF == 0x2508
        && (bch_encode(25, 0x537, 10, 5) ^ 0x4445) & 0x7FFF == 0x203f
        && (bch_encode(26, 0x537, 10, 5) ^ 0x4445) & 0x7FFF == 0x2f66
        && (bch_encode(27, 0x537, 10, 5) ^ 0x4445) & 0x7FFF == 0x2a51
        && (bch_encode(28, 0x537, 10, 5) ^ 0x4445) & 0x7FFF == 0x34e3
        && (bch_encode(29, 0x537, 10, 5) ^ 0x4445) & 0x7FFF == 0x31d4
        && (bch_encode(30, 0x537, 10, 5) ^ 0x4445) & 0x7FFF == 0x3e8d
        && (bch_encode(31, 0x537, 10, 5) ^ 0x4445) & 0x7FFF == 0x3bba) by (bit_vector);
    if d == 0 {
            assert(format_info_bits(size, ecl, mask_pattern) == micro_format_table()[0]);
        } else if d == 1 {
            assert(format_info_bits(size, ecl, mask_pattern) == micro_format_table()[1]);
        } else if d == 2 {
            assert(format_info_bits(size, ecl, mask_pattern) == micro_format_table()[2]);
        } else if d == 3 {
            assert(format_info_bits(size, ecl, mask_pattern) == micro_format_table()[3]);
        } else if d == 4 {
            assert(format_info_bits(size, ecl, mask_pattern) == micro_format_table()[4]);
        } else if d == 5 {
            assert(format_info_bits(size, ecl, mask_pattern) == micro_format_table()[5]);
        } else if d == 6 {
            assert(format_info_bits(size, ecl, mask_pattern) == micro_format_table()[6]);
        } else if d == 7 {
            assert(format_info_bits(size, ecl, mask_pattern) == micro_format_table()[7]);
        } else if d == 8 {
            assert(format_info_bits(size, ecl, mask_pattern) == micro_format_table()[8]);
        } else if d == 9 {
            assert(format_info_bits(size, ecl, mask_pattern) == micro_format_table()[9]);
        } else if d == 10 {
            assert(format_info_bits(size, ecl, mask_pattern) == micro_format_table()[10]);
        } else if d == 11 {
            assert(format_info_bits(size, ecl, mask_pattern) == micro_format_table()[11]);
        } else if d == 12 {
            assert(format_info_bits(size, ecl, mask_pattern) == micro_format_table()[12]);
        } else if d == 13 {
            assert(format_info_bits(size, ecl, mask_pattern) == micro_format_table()[13]);
        } else if d == 14 {
            assert(format_info_bits(size, ecl, mask_pattern) == micro_format_table()[14]);
        } else if d == 15 {
            assert(format_info_bits(size, ecl, mask_pattern) == micro_format_table()[15]);
        } else if d == 16 {
            assert(format_info_bits(size, ecl, mask_pattern) == micro_format_table()[16]);
        } else if d == 17 {
            assert(format_info_bits(size, ecl, mask_pattern) == micro_format_table()[17]);
        } else if d == 18 {
            assert(format_info_bits(size, ecl, mask_pattern) == micro_format_table()[18]);
        } else if d == 19 {
            assert(format_info_bits(size, ecl, mask_pattern) == micro_format_table()[19]);
        } else if d == 20 {
            assert(format_info_bits(size, ecl, mask_pattern) == micro_format_table()[20]);
        } else if d == 21 {
            assert(format_info_bits(size, ecl, mask_pattern) == micro_format_table()[21]);
        } else if d == 22 {
            assert(format_info_bits(size, ecl, mask_pattern) == micro_format_table()[22]);
        } else if d == 23 {
            assert(format_info_bits(size, ecl, mask_pattern) == micro_format_table()[23]);
        } else if d == 24 {
            assert(format_info_bits(size, ecl, mask_pattern) == micro_format_table()[24]);
        } else if d == 25 {
            assert(format_info_bits(size, ecl, mask_pattern) == micro_format_table()[25]);
        } else if d == 26 {
            assert(format_info_bits(size, ecl, mask_pattern) == micro_format_table()[26]);
        } else if d == 27 {
            assert(format_info_bits(size, ecl, mask_pattern) == micro_format_table()[27]);
        } else if d == 28 {
            assert(format_info_bits(size, ecl, mask_pattern) == micro_format_table()[28]);
        } else if d == 29 {
            assert(format_info_bits(size, ecl, mask_pattern) == micro_format_table()[29]);
        } else if d == 30 {
            assert(format_info_bits(size, ecl, mask_pattern) == micro_format_table()[30]);
        } else if d == 31 {
            assert(format_info_bits(size, ecl, mask_pattern) == micro_format_table()[31]);
        }
    } else {
        assert((bch_encode(0, 0x537, 10, 5) ^ 0x5412) & 0x7FFF == 0x5412
        && (bch_encode(1, 0x537, 10, 5) ^ 0x5412) & 0x7FFF == 0x5125
        && (bch_encode(2, 0x537, 10, 5) ^ 0x5412) & 0x7FFF == 0x5e7c
        && (bch_encode(3, 0x537, 10, 5) ^ 0x5412) & 0x7FFF == 0x5b4b
        && (bch_encode(4, 0x537, 10, 5) ^ 0x5412) & 0x7FFF == 0x45f9
        && (bch_encode(5, 0x537, 10, 5) ^ 0x5412) & 0x7FFF == 0x40ce
        && (bch_encode(6, 0x537, 10, 5) ^ 0x5412) & 0x7FFF == 0x4f97
        && (bch_encode(7, 0x537, 10, 5) ^ 0x5412) & 0x7FFF == 0x4aa0
        && (bch_encode(8, 0x537, 10, 5) ^ 0x5412) & 0x7FFF == 0x77c4
        && (bch_encode(9, 0x537, 10, 5) ^ 0x5412) & 0x7FFF == 0x72f3
        && (bch_encode(10, 0x537, 10, 5) ^ 0x5412) & 0x7FFF == 0x7daa
        && (bch_encode(11, 0x537, 10, 5) ^ 0x5412) & 0x7FFF == 0x789d
        && (bch_encode(12, 0x537, 10, 5) ^ 0x5412) & 0x7FFF == 0x662f
        && (bch_encode(13, 0x537, 10, 5) ^ 0x5412) & 0x7FFF == 0x6318
        && (bch_encode(14, 0x537, 10, 5) ^ 0x5412) & 0x7FFF == 0x6c41
        && (bch_encode(15, 0x537, 10, 5) ^ 0x5412) & 0x7FFF == 0x6976
        && (bch_encode(16, 0x537, 10, 5) ^ 0x5412) & 0x7FFF == 0x1689
        && (bch_encode(17, 0x537, 10, 5) ^ 0x5412) & 0x7FFF == 0x13be
        && (bch_encode(18, 0x537, 10, 5) ^ 0x5412) & 0x7FFF == 0x1ce7
        && (bch_encode(19, 0x537, 10, 5) ^ 0x5412) & 0x7FFF == 0x19d0
        && (bch_encode(20, 0x537, 10, 5) ^ 0x5412) & 0x7FFF == 0x0762
        && (bch_encode(21, 0x537, 10, 5) ^ 0x5412) & 0x7FFF == 0x0255
        && (bch_encode(22, 0x537, 10, 5) ^ 0x5412) & 0x7FFF == 0x0d0c
        && (bch_encode(23, 0x537, 10, 5) ^ 0x5412) & 0x7FFF == 0x083b
        && (bch_encode(24, 0x537, 10, 5) ^ 0x5412) & 0x7FFF == 0x355f
        && (bch_encode(25, 0x537, 10, 5) ^ 0x5412) & 0x7FFF == 0x3068
        && (bch_encode(26, 0x537, 10, 5) ^ 0x5412) & 0x7FFF == 0x3f31
        && (bch_encode(27, 0x537, 10, 5) ^ 0x5412) & 0x7FFF == 0x3a06
        && (bch_encode(28, 0x537, 10, 5) ^ 0x5412) & 0x7FFF == 0x24b4
        && (bch_encode(29, 0x537, 10, 5) ^ 0x5412) & 0x7FFF == 0x2183
        && (bch_encode(30, 0x537, 10, 5) ^ 0x5412) & 0x7FFF == 0x2eda
        && (bch_encode(31, 0x537, 10, 5) ^ 0x5412) & 0x7FFF == 0x2bed) by (bit_vector);
    if d == 0 {
            assert(format_info_bits(size, ecl, mask_pattern) == standard_format_table()[0]);
        } else if d == 1 {
            assert(format_info_bits(size, ecl, mask_pattern) == standard_format_table()[1]);
        } else if d == 2 {
            assert(format_info_bits(size, ecl, mask_pattern) == standard_format_table()[2]);
        } else if d == 3 {
            assert(format_info_bits(size, ecl, mask_pattern) == standard_format_table()[3]);
        } else if d == 4 {
            assert(format_info_bits(size, ecl, mask_pattern) == standard_format_table()[4]);
        } else if d == 5 {
            assert(format_info_bits(size, ecl, mask_pattern) == standard_format_table()[5]);
        } else if d == 6 {
            assert(format_info_bits(size, ecl, mask_pattern) == standard_format_table()[6]);
        } else if d == 7 {
            assert(format_info_bits(size, ecl, mask_pattern) == standard_format_table()[7]);
        } else if d == 8 {
            assert(format_info_bits(size, ecl, mask_pattern) == standard_format_table()[8]);
        } else if d == 9 {
            assert(format_info_bits(size, ecl, mask_pattern) == standard_format_table()[9]);
        } else if d == 10 {
            assert(format_info_bits(size, ecl, mask_pattern) == standard_format_table()[10]);
        } else if d == 11 {
            assert(format_info_bits(size, ecl, mask_pattern) == standard_format_table()[11]);
        } else if d == 12 {
            assert(format_info_bits(size, ecl, mask_pattern) == standard_format_table()[12]);
        } else if d == 13 {
            assert(format_info_bits(size, ecl, mask_pattern) == standard_format_table()[13]);
        } else if d == 14 {
            assert(format_info_bits(size, ecl, mask_pattern) == standard_format_table()[14]);
        } else if d == 15 {
            assert(format_info_bits(size, ecl, mask_pattern) == standard_format_table()[15]);
        } else if d == 16 {
            assert(format_info_bits(size, ecl, mask_pattern) == standard_format_table()[16]);
        } else if d == 17 {
            assert(format_info_bits(size, ecl, mask_pattern) == standard_format_table()[17]);
        } else if d == 18 {
            assert(format_info_bits(size, ecl, mask_pattern) == standard_format_table()[18]);
        } else if d == 19 {
            assert(format_info_bits(size, ecl, mask_pattern) == standard_format_table()[19]);
        } else if d == 20 {
            assert(format_info_bits(size, ecl, mask_pattern) == standard_format_table()[20]);
        } else if d == 21 {
            assert(format_info_bits(size, ecl, mask_pattern) == standard_format_table()[21]);
        } else if d == 22 {
            assert(format_info_bits(size, ecl, mask_pattern) == standard_format_table()[22]);
        } else if d == 23 {
            assert(format_info_bits(size, ecl, mask_pattern) == standard_format_table()[23]);
        } else if d == 24 {
            assert(format_info_bits(size, ecl, mask_pattern) == standard_format_table()[24]);
        } else if d == 25 {
            assert(format_info_bits(size, ecl, mask_pattern) == standard_format_table()[25]);
        } else if d == 26 {
            assert(format_info_bits(size, ecl, mask_pattern) == standard_format_table()[26]);
        } else if d == 27 {
            assert(format_info_bits(size, ecl, mask_pattern) == standard_format_table()[27]);
        } else if d == 28 {
            assert(format_info_bits(size, ecl, mask_pattern) == standard_format_table()[28]);
        } else if d == 29 {
            assert(format_info_bits(size, ecl, mask_pattern) == standard_format_table()[29]);
        } else if d == 30 {
            assert(format_info_bits(size, ecl, mask_pattern) == standard_format_table()[30]);
        } else if d == 31 {
            assert(format_info_bits(size, ecl, mask_pattern) == standard_format_table()[31]);
        }
    }
}

/// The version information of every version from 7 on is the entry of the
/// published table.
pub proof fn lemma_version_info_in_table(v: u8)
    requires
        7 <= v <= 40,
    ensures
        version_info_bits(v) == version_table()[v - 7],
{
    assert(bch_encode(7, 0x1F25, 12, 6) == 0x07c94
        && bch_encode(8, 0x1F25, 12, 6) == 0x085bc
        && bch_encode(9, 0x1F25, 12, 6) == 0x09a99
        && bch_encode(10, 0x1F25, 12, 6) == 0x0a4d3
        && bch_encode(11, 0x1F25, 12, 6) == 0x0bbf6
        && bch_encode(12, 0x1F25, 12, 6) == 0x0c762
        && bch_encode(13, 0x1F25, 12, 6) == 0x0d847
        && bch_encode(14, 0x1F25, 12, 6) == 0x0e60d
        && bch_encode(15, 0x1F25, 12, 6) == 0x0f928
        && bch_encode(16, 0x1F25, 12, 6) == 0x10b78
        && bch_encode(17, 0x1F25, 12, 6) == 0x1145d
        && bch_encode(18, 0x1F25, 12, 6) == 0x12a17
        && bch_encode(19, 0x1F25, 12, 6) == 0x13532
        && bch_encode(20, 0x1F25, 12, 6) == 0x149a6
        && bch_encode(21, 0x1F25, 12, 6) == 0x15683
        && bch_encode(22, 0x1F25, 12, 6) == 0x168c9
        && bch_encode(23, 0x1F25, 12, 6) == 0x177ec
        && bch_encode(24, 0x1F25, 12, 6) == 0x18ec4
        && bch_encode(25, 0x1F25, 12, 6) == 0x191e1
        && bch_encode(26, 0x1F25, 12, 6) == 0x1afab
        && bch_encode(27, 0x1F25, 12, 6) == 0x1b08e
        && bch_encode(28, 0x1F25, 12, 6) == 0x1cc1a
        && bch_encode(29, 0x1F25, 12, 6) == 0x1d33f
        && bch_encode(30, 0x1F25, 12, 6) == 0x1ed75
        && bch_encode(31, 0x1F25, 12, 6) == 0x1f250
        && bch_encode(32, 0x1F25, 12, 6) == 0x209d5
        && bch_encode(33, 0x1F25, 12, 6) == 0x216f0
        && bch_encode(34, 0x1F25, 12, 6) == 0x228ba
        && bch_encode(35, 0x1F25, 12, 6) == 0x2379f
        && bch_encode(36, 0x1F25, 12, 6) == 0x24b0b
        && bch_encode(37, 0x1F25, 12, 6) == 0x2542e
        && bch_encode(38, 0x1F25, 12, 6) == 0x26a64
        && bch_encode(39, 0x1F25, 12, 6) == 0x27541
        && bch_encode(40, 0x1F25, 12, 6) == 0x28c69) by (bit_vector);
    let d = v as int;
    if d == 7 {
        assert(version_info_bits(v) == version_table()[0]);
    } else if d == 8 {
        assert(version_info_bits(v) == version_table()[1]);
    } else if d == 9 {
        assert(version_info_bits(v) == version_table()[2]);
    } else if d == 10 {
        assert(version_info_bits(v) == version_table()[3]);
    } else if d == 11 {
        assert(version_info_bits(v) == version_table()[4]);
    } else if d == 12 {
        assert(version_info_bits(v) == version_table()[5]);
    } else if d == 13 {
        assert(version_info_bits(v) == version_table()[6]);
    } else if d == 14 {
        assert(version_info_bits(v) == version_table()[7]);
    } else if d == 15 {
        assert(version_info_bits(v) == version_table()[8]);
    } else if d == 16 {
        assert(version_info_bits(v) == version_table()[9]);
    } else if d == 17 {
        assert(version_info_bits(v) == version_table()[10]);
    } else if d == 18 {
        assert(version_info_bits(v) == version_table()[11]);
    } else if d == 19 {
        assert(version_info_bits(v) == version_table()[12]);
    } else if d == 20 {
        assert(version_info_bits(v) == version_table()[13]);
    } else if d == 21 {
        assert(version_info_bits(v) == version_table()[14]);
    } else if d == 22 {
        assert(version_info_bits(v) == version_table()[15]);
    } else if d == 23 {
        assert(version_info_bits(v) == version_table()[16]);
    } else if d == 24 {
        assert(version_info_bits(v) == version_table()[17]);
    } else if d == 25 {
        assert(version_info_bits(v) == version_table()[18]);
    } else if d == 26 {
        assert(version_info_bits(v) == version_table()[19]);
    } else if d == 27 {
        assert(version_info_bits(v) == version_table()[20]);
    } else if d == 28 {
        assert(version_info_bits(v) == version_table()[21]);
    } else if d == 29 {
        assert(version_info_bits(v) == version_table()[22]);
    } else if d == 30 {
        assert(version_info_bits(v) == version_table()[23]);
    } else if d == 31 {
        assert(version_info_bits(v) == version_table()[24]);
    } else if d == 32 {
        assert(version_info_bits(v) == version_table()[25]);
    } else if d == 33 {
        assert(version_info_bits(v) == version_table()[26]);
    } else if d == 34 {
        assert(version_info_bits(v) == version_table()[27]);
    } else if d == 35 {
        assert(version_info_bits(v) == version_table()[28]);
    } else if d == 36 {
        assert(version_info_bits(v) == version_table()[29]);
    } else if d == 37 {
        assert(version_info_bits(v) == version_table()[30]);
    } else if d == 38 {
        assert(version_info_bits(v) == version_table()[31]);
    } else if d == 39 {
        assert(version_info_bits(v) == version_table()[32]);
    } else if d == 40 {
        assert(version_info_bits(v) == version_table()[33]);
    }
}

} // verus!
