//! Placement of the codewords: the zig-zag walk over the encoding region.
//!
//! The walk covers the symbol in vertical strips two columns wide, from
//! the right edge to the left. The first strip is walked upward, the next
//! downward, and so on in turn. In each row of a strip the right cell comes
//! before the left one. The column of the vertical timing pattern belongs
//! to no strip.
use crate::bits::{bytes_to_bits, get_bit};
use crate::config::Size;
use crate::error::QrError;
use crate::serialization::canvas::{is_square, Canvas, Module};
use vstd::prelude::*;

verus! {

/// The column that belongs to no strip: the one that holds the vertical
/// timing pattern.
pub open spec fn skipped_column(size: Size) -> int {
    if size is Micro {
        0
    } else {
        6
    }
}

/// Number of strips of the walk.
pub open spec fn strip_count(size: Size) -> int {
    (size.interior() - 1) / 2
}

/// The right column of strip `s`, strip 0 being the rightmost.
pub open spec fn strip_right_column(size: Size, s: int) -> int {
    let c = size.interior() - 1 - 2 * s;
    if size is Standard && c <= 6 {
        c - 1
    } else {
        c
    }
}

/// The column of the cell that the walk reaches as cell `w` of strip `s`.
pub open spec fn walk_column(size: Size, s: int, w: int) -> int {
    strip_right_column(size, s) - w % 2
}

/// The row of the cell that the walk reaches as cell `w` of strip `s`.
pub open spec fn walk_row(size: Size, s: int, w: int) -> int {
    if s % 2 == 0 {
        size.interior() - 1 - w / 2
    } else {
        w / 2
    }
}

/// Whether the walk passes over the cell in row `r` and column `c` of the
/// symbol.
pub open spec fn on_walk(size: Size, r: int, c: int) -> bool {
    &&& 0 <= r < size.interior()
    &&& 0 <= c < size.interior()
    &&& c != skipped_column(size)
}

/// The strip that holds column `c`.
pub open spec fn strip_of_column(size: Size, c: int) -> int {
    if size is Standard && c <= 5 {
        (size.interior() - 2 - c) / 2
    } else {
        (size.interior() - 1 - c) / 2
    }
}

/// The place of the cell in row `r` and column `c` within its strip.
pub open spec fn position_in_strip(size: Size, r: int, c: int) -> int {
    let s = strip_of_column(size, c);
    let step = if s % 2 == 0 {
        size.interior() - 1 - r
    } else {
        r
    };
    2 * step + (strip_right_column(size, s) - c)
}

/// Whether cell `w` of strip `s` is a cell of the encoding region in `g`.
pub open spec fn is_slot(g: Seq<Seq<Module>>, size: Size, s: int, w: int) -> bool {
    g[size.quiet() + walk_row(size, s, w)][size.quiet() + walk_column(size, s, w)]
        == Module::DataRegion
}

/// Number of encoding region cells among the first `w` cells of strip `s`.
pub open spec fn slots_in_strip(g: Seq<Seq<Module>>, size: Size, s: int, w: int) -> nat
    decreases w,
{
    if w <= 0 {
        0
    } else {
        slots_in_strip(g, size, s, w - 1) + if is_slot(g, size, s, w - 1) {
            1nat
        } else {
            0nat
        }
    }
}

/// Number of encoding region cells in the strips before strip `s`.
pub open spec fn slots_before_strip(g: Seq<Seq<Module>>, size: Size, s: int) -> nat
    decreases s,
{
    if s <= 0 {
        0
    } else {
        slots_before_strip(g, size, s - 1) + slots_in_strip(
            g,
            size,
            s - 1,
            2 * size.interior(),
        )
    }
}

/// Number of encoding region cells that the walk reaches before cell `w`
/// of strip `s`.
pub open spec fn slot_rank(g: Seq<Seq<Module>>, size: Size, s: int, w: int) -> nat {
    slots_before_strip(g, size, s) + slots_in_strip(g, size, s, w)
}

/// Number of encoding region cells on the whole walk.
pub open spec fn slot_count(g: Seq<Seq<Module>>, size: Size) -> nat {
    slots_before_strip(g, size, strip_count(size))
}

/// Number of bits that the data codewords contribute: eight per codeword,
/// but only the high four of the last one in M1 and M3 symbols.
pub open spec fn data_bit_count(size: Size, n: nat) -> nat {
    if size.has_half_codeword() && n > 0 {
        (8 * n - 4) as nat
    } else {
        8 * n
    }
}

/// The bits to place: those of the data codewords, then those of the error
/// correction codewords, each codeword most significant bit first.
pub open spec fn payload_bits(size: Size, data: Seq<u8>, ecc: Seq<u8>) -> Seq<bool> {
    bytes_to_bits(data).subrange(0, data_bit_count(size, data.len()) as int) + bytes_to_bits(ecc)
}

/// The module that stands for bit `k`: dark for a one, light for a zero,
/// and light where the bits have run out.
pub open spec fn bit_module(bits: Seq<bool>, k: int) -> Module {
    if 0 <= k < bits.len() && bits[k] {
        Module::Dark
    } else {
        Module::Light
    }
}

/// The cell in column `x` of row `y` once the walk has placed `bits` on
/// `g`: a cell of the encoding region on the walk takes the bit whose
/// number is the count of such cells that the walk reaches before it; every
/// other cell stays as it is.
pub open spec fn walk_module(g: Seq<Seq<Module>>, size: Size, bits: Seq<bool>, x: int, y: int)
    -> Module {
    let r = y - size.quiet();
    let c = x - size.quiet();
    if on_walk(size, r, c) && g[y][x] == Module::DataRegion {
        bit_module(
            bits,
            slot_rank(g, size, strip_of_column(size, c), position_in_strip(size, r, c)) as int,
        )
    } else {
        g[y][x]
    }
}

/// The cell in column `x` of row `y` once `bits` have been placed on `g`: a
/// cell of the encoding region on the walk takes the bit whose number is
/// the count of such cells that the walk reaches before it, a cell of the
/// encoding region off the walk becomes light, and every other cell stays
/// as it is.
pub open spec fn placed_module(g: Seq<Seq<Module>>, size: Size, bits: Seq<bool>, x: int, y: int)
    -> Module {
    let r = y - size.quiet();
    let c = x - size.quiet();
    if g[y][x] != Module::DataRegion {
        g[y][x]
    } else if on_walk(size, r, c) {
        bit_module(
            bits,
            slot_rank(g, size, strip_of_column(size, c), position_in_strip(size, r, c)) as int,
        )
    } else {
        Module::Light
    }
}

/// Whether the walk has passed the cell in row `r` and column `c` when it
/// stands at cell `w` of strip `s`.
pub open spec fn walked(size: Size, s: int, w: int, r: int, c: int) -> bool {
    on_walk(size, r, c) && (strip_of_column(size, c) < s || (strip_of_column(size, c) == s
        && position_in_strip(size, r, c) < w))
}

/// The cell in column `x` of row `y` while the walk stands at cell `w` of
/// strip `s`.
pub open spec fn partly_placed(
    g: Seq<Seq<Module>>,
    size: Size,
    bits: Seq<bool>,
    s: int,
    w: int,
    x: int,
    y: int,
) -> Module {
    if walked(size, s, w, y - size.quiet(), x - size.quiet()) {
        walk_module(g, size, bits, x, y)
    } else {
        g[y][x]
    }
}

/// Cell `w` of strip `s` lies on the walk, in strip `s` at place `w`.
pub proof fn lemma_walk_cell(size: Size, s: int, w: int)
    requires
        size.valid(),
        0 <= s < strip_count(size),
        0 <= w < 2 * size.interior(),
    ensures
        on_walk(size, walk_row(size, s, w), walk_column(size, s, w)),
        strip_of_column(size, walk_column(size, s, w)) == s,
        position_in_strip(size, walk_row(size, s, w), walk_column(size, s, w)) == w,
{
}

/// Every cell on the walk is cell `w` of strip `s` for its strip and place.
pub proof fn lemma_walk_covers(size: Size, r: int, c: int)
    requires
        size.valid(),
        on_walk(size, r, c),
    ensures
        0 <= strip_of_column(size, c) < strip_count(size),
        0 <= position_in_strip(size, r, c) < 2 * size.interior(),
        walk_row(size, strip_of_column(size, c), position_in_strip(size, r, c)) == r,
        walk_column(size, strip_of_column(size, c), position_in_strip(size, r, c)) == c,
{
}

/// A strip holds at most as many encoding region cells as it has cells.
pub proof fn lemma_slots_in_strip_bound(g: Seq<Seq<Module>>, size: Size, s: int, w: int)
    requires
        0 <= w,
    ensures
        slots_in_strip(g, size, s, w) <= w,
    decreases w,
{
    if w > 0 {
        lemma_slots_in_strip_bound(g, size, s, w - 1);
    }
}

/// The strips before strip `s` hold at most 354 encoding region cells each.
pub proof fn lemma_slots_before_strip_bound(g: Seq<Seq<Module>>, size: Size, s: int)
    requires
        size.valid(),
        0 <= s,
    ensures
        slots_before_strip(g, size, s) <= 354 * s,
    decreases s,
{
    if s > 0 {
        lemma_slots_before_strip_bound(g, size, s - 1);
        lemma_slots_in_strip_bound(g, size, s - 1, 2 * size.interior());
    }
}

/// Number of cells of the encoding region on the walk.
fn count_slots(canvas: &Canvas, size: Size) -> (n: usize)
    requires
        size.valid(),
        canvas.wf(),
        canvas.side() == size.side(),
    ensures
        n == slot_count(canvas@, size),
        n <= 40000,
{
    let dim: usize = size.dimensions() as usize;
    let q: usize = size.quiet_region_size() as usize;
    let strips: usize = (dim - 1) / 2;
    let mut n: usize = 0;
    let mut s: usize = 0;
    while s < strips
        invariant
            size.valid(),
            canvas.wf(),
            canvas.side() == size.side(),
            dim == size.interior(),
            q == size.quiet(),
            strips == strip_count(size),
            s <= strips,
            n == slots_before_strip(canvas@, size, s as int),
            n <= 354 * s,
        decreases strips - s,
    {
        let top: usize = dim - 1 - 2 * s;
        let right: usize = if !size.is_micro() && top <= 6 {
            top - 1
        } else {
            top
        };
        let mut w: usize = 0;
        let ghost before = n;
        while w < 2 * dim
            invariant
                size.valid(),
                canvas.wf(),
                canvas.side() == size.side(),
                dim == size.interior(),
                q == size.quiet(),
                strips == strip_count(size),
                s < strips,
                right == strip_right_column(size, s as int),
                w <= 2 * dim,
                n == before + slots_in_strip(canvas@, size, s as int, w as int),
                before <= 354 * s,
                n <= before + w,
            decreases 2 * dim - w,
        {
            proof {
                lemma_walk_cell(size, s as int, w as int);
            }
            let col: usize = right - w % 2;
            let row: usize = if s % 2 == 0 {
                dim - 1 - w / 2
            } else {
                w / 2
            };
            if canvas.get(q + col, q + row) == Module::DataRegion {
                n += 1;
            }
            w += 1;
        }
        s += 1;
    }
    n
}

/// Bit `k` of the bits to place.
fn payload_bit(size: Size, data_words: &[u8], ecc_words: &[u8], k: usize) -> (b: bool)
    requires
        data_words@.len() <= 5000,
        ecc_words@.len() <= 5000,
        k < payload_bits(size, data_words@, ecc_words@).len(),
    ensures
        b == payload_bits(size, data_words@, ecc_words@)[k as int],
{
    let data_bits: usize = data_bit_len(size, data_words.len());
    if k < data_bits {
        get_bit(data_words, k)
    } else {
        get_bit(ecc_words, k - data_bits)
    }
}

/// Number of bits that `n` data codewords contribute.
fn data_bit_len(size: Size, n: usize) -> (bits: usize)
    requires
        n <= 5000,
    ensures
        bits == data_bit_count(size, n as nat),
{
    let half: bool = match size {
        Size::Micro(k) => k == 1 || k == 3,
        Size::Standard(_) => false,
    };
    if half && n > 0 {
        8 * n - 4
    } else {
        8 * n
    }
}

/// Insert the data into the encoding region of a QR canvas created by the create_qr_canvas function
///
/// The bits of the data codewords and then of the error correction
/// codewords go, in this order, to the cells of the encoding region in the
/// order in which the walk reaches them. Cells of the encoding region that
/// are left over become light. Where the canvas has fewer such cells than
/// there are bits, nothing is written and the call fails.
pub fn insert_data_payload(
    canvas: &mut Canvas,
    size: Size,
    data_words: &[u8],
    ecc_words: &[u8],
) -> (r: Result<(), QrError>)
    requires
        size.valid(),
        old(canvas).wf(),
        old(canvas).side() == size.side(),
    ensures
        final(canvas).wf(),
        final(canvas).side() == old(canvas).side(),
        r is Err <==> payload_bits(size, data_words@, ecc_words@).len() > slot_count(
            old(canvas)@,
            size,
        ),
        r is Err ==> r == Err::<(), QrError>(QrError::InternalInvariantViolated) && final(canvas)@
            == old(canvas)@,
        r is Ok ==> forall|x: int, y: int|
            0 <= x < size.side() && 0 <= y < size.side() ==> #[trigger] final(canvas).at(x, y)
                == placed_module(
                old(canvas)@,
                size,
                payload_bits(size, data_words@, ecc_words@),
                x,
                y,
            ),
        r is Ok ==> forall|x: int, y: int|
            0 <= x < size.side() && 0 <= y < size.side() ==> #[trigger] final(canvas).at(x, y)
                != Module::DataRegion,
{
    let total: usize = count_slots(canvas, size);
    if data_words.len() > 5000 || ecc_words.len() > 5000 {
        return Err(QrError::InternalInvariantViolated);
    }
    let nbits: usize = data_bit_len(size, data_words.len()) + 8 * ecc_words.len();
    if nbits > total {
        return Err(QrError::InternalInvariantViolated);
    }
    let ghost g0 = canvas@;
    let ghost bits = payload_bits(size, data_words@, ecc_words@);
    let dim: usize = size.dimensions() as usize;
    let q: usize = size.quiet_region_size() as usize;
    let strips: usize = (dim - 1) / 2;
    let mut used: usize = 0;
    let mut s: usize = 0;
    while s < strips
        invariant
            size.valid(),
            canvas.wf(),
            canvas.side() == size.side(),
            g0.len() == size.side(),
            is_square(g0),
            dim == size.interior(),
            q == size.quiet(),
            strips == strip_count(size),
            s <= strips,
            data_words@.len() <= 5000,
            ecc_words@.len() <= 5000,
            bits == payload_bits(size, data_words@, ecc_words@),
            nbits == bits.len(),
            used == slots_before_strip(g0, size, s as int),
            used <= 354 * s,
            forall|x: int, y: int|
                0 <= x < size.side() && 0 <= y < size.side() ==> #[trigger] canvas.at(x, y)
                    == partly_placed(g0, size, bits, s as int, 0, x, y),
        decreases strips - s,
    {
        let top: usize = dim - 1 - 2 * s;
        let right: usize = if !size.is_micro() && top <= 6 {
            top - 1
        } else {
            top
        };
        let mut w: usize = 0;
        let ghost before = used;
        while w < 2 * dim
            invariant
                size.valid(),
                canvas.wf(),
                canvas.side() == size.side(),
                g0.len() == size.side(),
                is_square(g0),
                dim == size.interior(),
                q == size.quiet(),
                strips == strip_count(size),
                s < strips,
                right == strip_right_column(size, s as int),
                w <= 2 * dim,
                data_words@.len() <= 5000,
                ecc_words@.len() <= 5000,
                bits == payload_bits(size, data_words@, ecc_words@),
                nbits == bits.len(),
                before == slots_before_strip(g0, size, s as int),
                used == before + slots_in_strip(g0, size, s as int, w as int),
                before <= 354 * s,
                used <= before + w,
                forall|x: int, y: int|
                    0 <= x < size.side() && 0 <= y < size.side() ==> #[trigger] canvas.at(x, y)
                        == partly_placed(g0, size, bits, s as int, w as int, x, y),
            decreases 2 * dim - w,
        {
            proof {
                lemma_walk_cell(size, s as int, w as int);
            }
            let col: usize = right - w % 2;
            let row: usize = if s % 2 == 0 {
                dim - 1 - w / 2
            } else {
                w / 2
            };
            let ghost prev = canvas@;
            if canvas.get(q + col, q + row) == Module::DataRegion {
                let m: Module = if used < nbits && payload_bit(size, data_words, ecc_words, used) {
                    Module::Dark
                } else {
                    Module::Light
                };
                canvas.put(q + col, q + row, m);
                used += 1;
            }
            proof {
                assert forall|x: int, y: int|
                    0 <= x < size.side() && 0 <= y < size.side() implies #[trigger] canvas.at(x, y)
                    == partly_placed(g0, size, bits, s as int, w as int + 1, x, y) by {
                    let r = y - size.quiet();
                    let c = x - size.quiet();
                    assert(prev[y][x] == partly_placed(g0, size, bits, s as int, w as int, x, y));
                    if on_walk(size, r, c) {
                        lemma_walk_covers(size, r, c);
                    }
                }
            }
            w += 1;
        }
        proof {
            assert forall|x: int, y: int|
                0 <= x < size.side() && 0 <= y < size.side() implies #[trigger] canvas.at(x, y)
                == partly_placed(g0, size, bits, s as int + 1, 0, x, y) by {
                let r = y - size.quiet();
                let c = x - size.quiet();
                if on_walk(size, r, c) {
                    lemma_walk_covers(size, r, c);
                }
            }
        }
        s += 1;
    }
    proof {
        assert forall|x: int, y: int|
            0 <= x < size.side() && 0 <= y < size.side() implies #[trigger] canvas.at(x, y)
            == walk_module(g0, size, bits, x, y) by {
            let r = y - size.quiet();
            let c = x - size.quiet();
            if on_walk(size, r, c) {
                lemma_walk_covers(size, r, c);
            }
        }
    }
    // what is left of the encoding region beside the walk becomes light
    let side: usize = dim + 2 * q;
    let mut y: usize = 0;
    while y < side
        invariant
            size.valid(),
            canvas.wf(),
            canvas.side() == size.side(),
            side == size.side(),
            g0.len() == size.side(),
            is_square(g0),
            y <= side,
            forall|i: int, j: int|
                0 <= i < size.side() && 0 <= j < size.side() ==> #[trigger] canvas.at(i, j) == if j
                    < y {
                    placed_module(g0, size, bits, i, j)
                } else {
                    walk_module(g0, size, bits, i, j)
                },
        decreases side - y,
    {
        let mut x: usize = 0;
        while x < side
            invariant
                size.valid(),
                canvas.wf(),
                canvas.side() == size.side(),
                side == size.side(),
                g0.len() == size.side(),
                is_square(g0),
                y < side,
                x <= side,
                forall|i: int, j: int|
                    0 <= i < size.side() && 0 <= j < size.side() ==> #[trigger] canvas.at(i, j)
                        == if j < y || (j == y && i < x) {
                        placed_module(g0, size, bits, i, j)
                    } else {
                        walk_module(g0, size, bits, i, j)
                    },
            decreases side - x,
        {
            if canvas.get(x, y) == Module::DataRegion {
                canvas.put(x, y, Module::Light);
            }
            x += 1;
        }
        y += 1;
    }
    Ok(())
}

} // verus!
