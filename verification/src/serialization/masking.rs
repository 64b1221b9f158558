//! Data masks: the mask conditions, the scores by which the masks are
//! compared, and the choice of the best mask.
use crate::config::Size;
use crate::serialization::canvas::{is_square, Canvas, Module};
use crate::serialization::patterns::{blank_grid, create_qr_canvas};
use vstd::prelude::*;

verus! {

/// The eight mask conditions, named by the three-bit reference under
/// which a Standard symbol records them. A Micro symbol uses four of
/// them, under the references 0 to 3: `Pattern001`, `Pattern100`,
/// `Pattern110` and `Pattern111`.
#[derive(Clone, Copy, Debug, PartialEq, Eq, Structural)]
pub enum MaskPattern {
    /// `(r + c) mod 2 == 0`
    Pattern000,
    /// `r mod 2 == 0`
    Pattern001,
    /// `c mod 3 == 0`
    Pattern010,
    /// `(r + c) mod 3 == 0`
    Pattern011,
    /// `(r / 2 + c / 3) mod 2 == 0`
    Pattern100,
    /// `(r c) mod 2 + (r c) mod 3 == 0`
    Pattern101,
    /// `((r c) mod 2 + (r c) mod 3) mod 2 == 0`
    Pattern110,
    /// `((r + c) mod 2 + (r c) mod 3) mod 2 == 0`
    Pattern111,
}

/// Number of masks that a symbol of the given size chooses from.
pub open spec fn mask_count(size: Size) -> int {
    if size is Micro {
        4
    } else {
        8
    }
}

/// The mask condition that a symbol of the given size records under the
/// reference `index`.
pub open spec fn mask_pattern(index: int, size: Size) -> MaskPattern {
    if size is Micro {
        if index == 0 {
            MaskPattern::Pattern001
        } else if index == 1 {
            MaskPattern::Pattern100
        } else if index == 2 {
            MaskPattern::Pattern110
        } else {
            MaskPattern::Pattern111
        }
    } else {
        if index == 0 {
            MaskPattern::Pattern000
        } else if index == 1 {
            MaskPattern::Pattern001
        } else if index == 2 {
            MaskPattern::Pattern010
        } else if index == 3 {
            MaskPattern::Pattern011
        } else if index == 4 {
            MaskPattern::Pattern100
        } else if index == 5 {
            MaskPattern::Pattern101
        } else if index == 6 {
            MaskPattern::Pattern110
        } else {
            MaskPattern::Pattern111
        }
    }
}

impl MaskPattern {
    /// Whether the mask flips the module in row `r` and column `c`, both
    /// counted from the top-left module of the symbol without its quiet
    /// zone.
    pub open spec fn flips(self, r: int, c: int) -> bool {
        match self {
            MaskPattern::Pattern000 => (r + c) % 2 == 0,
            MaskPattern::Pattern001 => r % 2 == 0,
            MaskPattern::Pattern010 => c % 3 == 0,
            MaskPattern::Pattern011 => (r + c) % 3 == 0,
            MaskPattern::Pattern100 => (r / 2 + c / 3) % 2 == 0,
            MaskPattern::Pattern101 => (r * c) % 2 + (r * c) % 3 == 0,
            MaskPattern::Pattern110 => ((r * c) % 2 + (r * c) % 3) % 2 == 0,
            MaskPattern::Pattern111 => ((r + c) % 2 + (r * c) % 3) % 2 == 0,
        }
    }

    /// Whether the mask flips the module in row `r` and column `c` of the
    /// symbol.
    pub fn apply(self, r: u32, c: u32) -> (b: bool)
        requires
            r <= 200,
            c <= 200,
        ensures
            b == self.flips(r as int, c as int),
    {
        assert(r * c <= 40000) by (nonlinear_arith)
            requires
                r <= 200,
                c <= 200,
        ;
        match self {
            MaskPattern::Pattern000 => (r + c) % 2 == 0,
            MaskPattern::Pattern001 => r % 2 == 0,
            MaskPattern::Pattern010 => c % 3 == 0,
            MaskPattern::Pattern011 => (r + c) % 3 == 0,
            MaskPattern::Pattern100 => (r / 2 + c / 3) % 2 == 0,
            MaskPattern::Pattern101 => (r * c) % 2 + (r * c) % 3 == 0,
            MaskPattern::Pattern110 => ((r * c) % 2 + (r * c) % 3) % 2 == 0,
            MaskPattern::Pattern111 => ((r + c) % 2 + (r * c) % 3) % 2 == 0,
        }
    }
}

/// Return the masking function for a given size. Pattern index is from 0..8 for standard
/// sizes and in 0..4 for micro symbols.
pub fn get_masking_function(pattern_index: u8, size: Size) -> (pattern: MaskPattern)
    requires
        pattern_index < mask_count(size),
    ensures
        pattern == mask_pattern(pattern_index as int, size),
{
    match size {
        Size::Micro(_) => {
            if pattern_index == 0 {
                MaskPattern::Pattern001
            } else if pattern_index == 1 {
                MaskPattern::Pattern100
            } else if pattern_index == 2 {
                MaskPattern::Pattern110
            } else {
                MaskPattern::Pattern111
            }
        },
        Size::Standard(_) => {
            if pattern_index == 0 {
                MaskPattern::Pattern000
            } else if pattern_index == 1 {
                MaskPattern::Pattern001
            } else if pattern_index == 2 {
                MaskPattern::Pattern010
            } else if pattern_index == 3 {
                MaskPattern::Pattern011
            } else if pattern_index == 4 {
                MaskPattern::Pattern100
            } else if pattern_index == 5 {
                MaskPattern::Pattern101
            } else if pattern_index == 6 {
                MaskPattern::Pattern110
            } else {
                MaskPattern::Pattern111
            }
        },
    }
}

/// A module with its colour flipped. Whatever is not dark becomes dark.
pub open spec fn flipped(m: Module) -> Module {
    if m == Module::Dark {
        Module::Light
    } else {
        Module::Dark
    }
}

/// The cell in column `x` of row `y` of `g` under the mask: flipped where
/// `marker` tags the cell as part of the encoding region of the symbol and
/// the mask condition holds there, and as it is elsewhere.
pub open spec fn masked_module(
    g: Seq<Seq<Module>>,
    marker: Seq<Seq<Module>>,
    pattern: MaskPattern,
    size: Size,
    x: int,
    y: int,
) -> Module {
    let q = size.quiet();
    if q <= x < q + size.interior() && q <= y < q + size.interior() && marker[y][x]
        == Module::DataRegion && pattern.flips(y - q, x - q) {
        flipped(g[y][x])
    } else {
        g[y][x]
    }
}

/// The grid `g` under the mask.
pub open spec fn masked_grid(
    g: Seq<Seq<Module>>,
    marker: Seq<Seq<Module>>,
    pattern: MaskPattern,
    size: Size,
) -> Seq<Seq<Module>> {
    Seq::new(
        g.len(),
        |y: int| Seq::new(g.len(), |x: int| masked_module(g, marker, pattern, size, x, y)),
    )
}

/// apply mask to given symbol's encoding region. The second parameter is the canvas
/// without content, to mark the encoding region inside the symbol.
pub fn apply_mask(symbol: &mut Canvas, pattern: u8, size: Size, marker: &Canvas)
    requires
        size.valid(),
        pattern < mask_count(size),
        old(symbol).wf(),
        old(symbol).side() == size.side(),
        marker.wf(),
        marker.side() == size.side(),
    ensures
        final(symbol).wf(),
        final(symbol).side() == old(symbol).side(),
        final(symbol)@ == masked_grid(
            old(symbol)@,
            marker@,
            mask_pattern(pattern as int, size),
            size,
        ),
{
    // get masking function
    let pattern_func = get_masking_function(pattern, size);
    let dim: usize = size.dimensions() as usize;
    let q: usize = size.quiet_region_size() as usize;
    let ghost g0 = symbol@;
    let mut r: usize = 0;
    while r < dim
        invariant
            size.valid(),
            dim == size.interior(),
            q == size.quiet(),
            r <= dim,
            symbol.wf(),
            symbol.side() == size.side(),
            marker.wf(),
            marker.side() == size.side(),
            g0.len() == size.side(),
            is_square(g0),
            pattern_func == mask_pattern(pattern as int, size),
            forall|x: int, y: int|
                0 <= x < size.side() && 0 <= y < size.side() ==> #[trigger] symbol.at(x, y) == if y
                    < q + r {
                    masked_module(g0, marker@, pattern_func, size, x, y)
                } else {
                    g0[y][x]
                },
        decreases dim - r,
    {
        let mut c: usize = 0;
        while c < dim
            invariant
                size.valid(),
                dim == size.interior(),
                q == size.quiet(),
                r < dim,
                c <= dim,
                symbol.wf(),
                symbol.side() == size.side(),
                marker.wf(),
                marker.side() == size.side(),
                g0.len() == size.side(),
                is_square(g0),
                pattern_func == mask_pattern(pattern as int, size),
                forall|x: int, y: int|
                    0 <= x < size.side() && 0 <= y < size.side() ==> #[trigger] symbol.at(x, y)
                        == if y < q + r || (y == q + r && x < q + c) {
                        masked_module(g0, marker@, pattern_func, size, x, y)
                    } else {
                        g0[y][x]
                    },
            decreases dim - c,
        {
            // check if we are in the encoding region. Ignore all other pixels
            if marker.get(q + c, q + r) == Module::DataRegion {
                // retrieve the mask bit. Flip the bit if the mask bit
                // is 1, leave it as is otherwise. This is equivalent with
                // a XOR between the mask and value bits.
                if pattern_func.apply(r as u32, c as u32) {
                    let m: Module = if symbol.get(q + c, q + r) == Module::Dark {
                        Module::Light
                    } else {
                        Module::Dark
                    };
                    symbol.put(q + c, q + r, m);
                }
            }
            c += 1;
        }
        r += 1;
    }
    proof {
        let target = masked_grid(g0, marker@, pattern_func, size);
        assert forall|y: int| 0 <= y < size.side() implies #[trigger] symbol@[y] =~= target[y] by {
            assert forall|x: int| 0 <= x < size.side() implies symbol@[y][x] == target[y][x] by {
                assert(symbol.at(x, y) == masked_module(g0, marker@, pattern_func, size, x, y));
            }
        }
        assert(symbol@ =~= target);
    }
}

/// The modules of one line of the symbol: row `index` from left to right,
/// or, when `vertical`, column `index` from top to bottom. `q` is the width
/// of the quiet zone and `dim` the side of the symbol without it.
pub open spec fn line_of(g: Seq<Seq<Module>>, q: int, dim: int, index: int, vertical: bool) -> Seq<
    Module,
> {
    Seq::new(
        dim as nat,
        |p: int|
            if vertical {
                g[q + p][q + index]
            } else {
                g[q + index][q + p]
            },
    )
}

/// Length of the run of equal modules that reaches position `i` of the line
/// from the left.
pub open spec fn run_length(line: Seq<Module>, i: int) -> nat
    decreases i,
{
    if i <= 0 || line[i - 1] != line[i] {
        1
    } else {
        1 + run_length(line, i - 1)
    }
}

/// Whether a run of equal modules ends at position `i` of the line.
pub open spec fn ends_run(line: Seq<Module>, i: int) -> bool {
    i == line.len() - 1 || line[i + 1] != line[i]
}

/// The penalty for a run of the given length: none below five modules,
/// three for five, and one more for each further module.
pub open spec fn run_score(len: nat) -> nat {
    if len >= 5 {
        (len - 5 + 3) as nat
    } else {
        0
    }
}

/// Sum of the penalties of the runs that end before position `n` of the
/// line.
pub open spec fn runs_penalty(line: Seq<Module>, n: int) -> nat
    decreases n,
{
    if n <= 0 {
        0
    } else {
        runs_penalty(line, n - 1) + if ends_run(line, n - 1) {
            run_score(run_length(line, n - 1))
        } else {
            0
        }
    }
}

/// Whether the seven modules from position `i` of the line on are dark,
/// light, dark, dark, dark, light, dark.
pub open spec fn finder_like(line: Seq<Module>, i: int) -> bool {
    &&& line[i] == Module::Dark
    &&& line[i + 1] == Module::Light
    &&& line[i + 2] == Module::Dark
    &&& line[i + 3] == Module::Dark
    &&& line[i + 4] == Module::Dark
    &&& line[i + 5] == Module::Light
    &&& line[i + 6] == Module::Dark
}

/// Whether position `j` holds no dark module. Positions outside the line
/// lie in the quiet zone and hold none.
pub open spec fn not_dark(line: Seq<Module>, j: int) -> bool {
    j < 0 || j >= line.len() || line[j] != Module::Dark
}

/// Whether none of the four positions from `j` on holds a dark module.
pub open spec fn four_clear(line: Seq<Module>, j: int) -> bool {
    not_dark(line, j) && not_dark(line, j + 1) && not_dark(line, j + 2) && not_dark(line, j + 3)
}

/// Whether a finder-like pattern starts at position `i` with four modules
/// that are not dark before it or behind it.
pub open spec fn pattern_at(line: Seq<Module>, i: int) -> bool {
    finder_like(line, i) && (four_clear(line, i - 4) || four_clear(line, i + 7))
}

/// Forty times the number of positions before `n` at which such a pattern
/// starts.
pub open spec fn pattern_penalty(line: Seq<Module>, n: int) -> nat
    decreases n,
{
    if n <= 0 {
        0
    } else {
        pattern_penalty(line, n - 1) + if pattern_at(line, n - 1) {
            40nat
        } else {
            0nat
        }
    }
}

/// Sum of the run penalties of the first `n` rows, or columns.
pub open spec fn lines_runs_penalty(g: Seq<Seq<Module>>, q: int, dim: int, vertical: bool, n: int)
    -> nat
    decreases n,
{
    if n <= 0 {
        0
    } else {
        lines_runs_penalty(g, q, dim, vertical, n - 1) + runs_penalty(
            line_of(g, q, dim, n - 1, vertical),
            dim,
        )
    }
}

/// Sum of the pattern penalties of the first `n` rows, or columns.
pub open spec fn lines_pattern_penalty(
    g: Seq<Seq<Module>>,
    q: int,
    dim: int,
    vertical: bool,
    n: int,
) -> nat
    decreases n,
{
    if n <= 0 {
        0
    } else {
        lines_pattern_penalty(g, q, dim, vertical, n - 1) + pattern_penalty(
            line_of(g, q, dim, n - 1, vertical),
            dim - 6,
        )
    }
}

/// Whether the four modules of the block whose top-left module stands in
/// row `r` and column `c` of the symbol are equal.
pub open spec fn is_block(g: Seq<Seq<Module>>, q: int, r: int, c: int) -> bool {
    &&& g[q + r][q + c] == g[q + r][q + c + 1]
    &&& g[q + r][q + c] == g[q + r + 1][q + c]
    &&& g[q + r][q + c] == g[q + r + 1][q + c + 1]
}

/// Number of such blocks with the top-left module in row `r` and a column
/// before `n`.
pub open spec fn blocks_in_row(g: Seq<Seq<Module>>, q: int, r: int, n: int) -> nat
    decreases n,
{
    if n <= 0 {
        0
    } else {
        blocks_in_row(g, q, r, n - 1) + if is_block(g, q, r, n - 1) {
            1nat
        } else {
            0nat
        }
    }
}

/// Number of blocks of four equal modules with the top-left module in a row
/// before `n`.
pub open spec fn blocks_count(g: Seq<Seq<Module>>, q: int, dim: int, n: int) -> nat
    decreases n,
{
    if n <= 0 {
        0
    } else {
        blocks_count(g, q, dim, n - 1) + blocks_in_row(g, q, n - 1, dim - 1)
    }
}

/// Number of dark modules of the line at the positions from `from` up to,
/// but not including, `to`.
pub open spec fn dark_on_line(line: Seq<Module>, from: int, to: int) -> nat
    decreases to - from,
{
    if to <= from {
        0
    } else {
        dark_on_line(line, from, to - 1) + if line[to - 1] == Module::Dark {
            1nat
        } else {
            0nat
        }
    }
}

/// Number of dark modules in the first `n` rows of the symbol.
pub open spec fn dark_count(g: Seq<Seq<Module>>, q: int, dim: int, n: int) -> nat
    decreases n,
{
    if n <= 0 {
        0
    } else {
        dark_count(g, q, dim, n - 1) + dark_on_line(line_of(g, q, dim, n - 1, false), 0, dim)
    }
}

/// The penalty for the share of dark modules: ten for every full five
/// percent by which the share differs from one half.
pub open spec fn balance_penalty(dark: int, total: int) -> int {
    let diff = if 20 * dark >= 10 * total {
        20 * dark - 10 * total
    } else {
        10 * total - 20 * dark
    };
    10 * (diff / total)
}

/// The penalty score of a masked Standard symbol, summed over the symbol
/// without its quiet zone: the penalties for runs of equal modules in rows
/// and columns, three for every block of four equal modules, the penalties
/// for finder-like patterns in rows and columns, and the penalty for the
/// share of dark modules.
pub open spec fn standard_penalty(g: Seq<Seq<Module>>) -> int {
    let dim = g.len() - 8;
    lines_runs_penalty(g, 4, dim, false, dim) + lines_runs_penalty(g, 4, dim, true, dim) + 3
        * blocks_count(g, 4, dim, dim - 1) + lines_pattern_penalty(g, 4, dim, false, dim)
        + lines_pattern_penalty(g, 4, dim, true, dim) + balance_penalty(
        dark_count(g, 4, dim, dim) as int,
        dim * dim,
    )
}

/// The score of a masked Micro symbol: with `a` the number of dark modules
/// in the rightmost column below its top two modules, and `b` the number of
/// dark modules in the bottom row right of its leftmost two modules, sixteen
/// times the smaller of the two plus the greater.
pub open spec fn micro_score(g: Seq<Seq<Module>>) -> int {
    let dim = g.len() - 4;
    let a = dark_on_line(line_of(g, 2, dim, dim - 1, true), 2, dim);
    let b = dark_on_line(line_of(g, 2, dim, dim - 1, false), 2, dim);
    if a <= b {
        (16 * a + b) as int
    } else {
        (16 * b + a) as int
    }
}

/// The module at position `p` of a line of the symbol.
fn module_on_line(canvas: &Canvas, q: usize, dim: usize, index: usize, p: usize, vertical: bool)
    -> (m: Module)
    requires
        canvas.wf(),
        canvas.side() == dim + 2 * q,
        index < dim,
        p < dim,
    ensures
        m == line_of(canvas@, q as int, dim as int, index as int, vertical)[p as int],
{
    if vertical {
        canvas.get(q + index, q + p)
    } else {
        canvas.get(q + p, q + index)
    }
}

/// Penalty for the runs of equal modules on one line.
fn line_runs_penalty(canvas: &Canvas, q: usize, dim: usize, index: usize, vertical: bool) -> (score:
    u32)
    requires
        canvas.wf(),
        canvas.side() == dim + 2 * q,
        index < dim,
        1 <= dim <= 177,
    ensures
        score == runs_penalty(
            line_of(canvas@, q as int, dim as int, index as int, vertical),
            dim as int,
        ),
        score <= dim,
{
    let ghost line = line_of(canvas@, q as int, dim as int, index as int, vertical);
    let mut last_color: Module = module_on_line(canvas, q, dim, index, 0, vertical);
    let mut current_run: u32 = 1;
    let mut score: u32 = 0;
    let mut i: usize = 1;
    while i < dim
        invariant
            canvas.wf(),
            canvas.side() == dim + 2 * q,
            index < dim,
            1 <= dim <= 177,
            line == line_of(canvas@, q as int, dim as int, index as int, vertical),
            1 <= i <= dim,
            last_color == line[i - 1],
            current_run == run_length(line, i - 1),
            score == runs_penalty(line, i - 1),
            score + current_run <= i,
        decreases dim - i,
    {
        let m: Module = module_on_line(canvas, q, dim, index, i, vertical);
        if m == last_color {
            // counts against current run
            current_run += 1;
        } else {
            // run resets. check for penalties
            if current_run >= 5 {
                score += (current_run - 5) + 3;
            }
            current_run = 1;
            last_color = m;
        }
        i += 1;
    }
    // check for final penalty, if the last block is big enough
    if current_run >= 5 {
        score += (current_run - 5) + 3;
    }
    score
}

/// Whether position `p` of a line holds a dark module.
fn dark_at(canvas: &Canvas, q: usize, dim: usize, index: usize, p: usize, vertical: bool) -> (b:
    bool)
    requires
        canvas.wf(),
        canvas.side() == dim + 2 * q,
        index < dim,
        dim <= 177,
    ensures
        b == !not_dark(
            line_of(canvas@, q as int, dim as int, index as int, vertical),
            p as int,
        ),
{
    p < dim && module_on_line(canvas, q, dim, index, p, vertical) == Module::Dark
}

/// Whether a finder-like pattern with its four clear modules starts at
/// position `i` of a line.
fn has_pattern_at(canvas: &Canvas, q: usize, dim: usize, index: usize, i: usize, vertical: bool)
    -> (b: bool)
    requires
        canvas.wf(),
        canvas.side() == dim + 2 * q,
        index < dim,
        dim <= 177,
        i + 7 <= dim,
    ensures
        b == pattern_at(
            line_of(canvas@, q as int, dim as int, index as int, vertical),
            i as int,
        ),
{
    let matches: bool = module_on_line(canvas, q, dim, index, i, vertical) == Module::Dark
        && module_on_line(canvas, q, dim, index, i + 1, vertical) == Module::Light
        && module_on_line(canvas, q, dim, index, i + 2, vertical) == Module::Dark
        && module_on_line(canvas, q, dim, index, i + 3, vertical) == Module::Dark
        && module_on_line(canvas, q, dim, index, i + 4, vertical) == Module::Dark
        && module_on_line(canvas, q, dim, index, i + 5, vertical) == Module::Light
        && module_on_line(canvas, q, dim, index, i + 6, vertical) == Module::Dark;
    if !matches {
        return false;
    }
    let clear_before: bool = !(i >= 4 && dark_at(canvas, q, dim, index, i - 4, vertical)) && !(i
        >= 3 && dark_at(canvas, q, dim, index, i - 3, vertical)) && !(i >= 2 && dark_at(
        canvas,
        q,
        dim,
        index,
        i - 2,
        vertical,
    )) && !(i >= 1 && dark_at(canvas, q, dim, index, i - 1, vertical));
    let clear_after: bool = !dark_at(canvas, q, dim, index, i + 7, vertical) && !dark_at(
        canvas,
        q,
        dim,
        index,
        i + 8,
        vertical,
    ) && !dark_at(canvas, q, dim, index, i + 9, vertical) && !dark_at(
        canvas,
        q,
        dim,
        index,
        i + 10,
        vertical,
    );
    clear_before || clear_after
}

/// Penalty for the finder-like patterns on one line.
fn line_pattern_penalty(canvas: &Canvas, q: usize, dim: usize, index: usize, vertical: bool) -> (score: u32)
    requires
        canvas.wf(),
        canvas.side() == dim + 2 * q,
        index < dim,
        1 <= dim <= 177,
    ensures
        score == pattern_penalty(
            line_of(canvas@, q as int, dim as int, index as int, vertical),
            dim as int - 6,
        ),
        score <= 40 * dim,
{
    let ghost line = line_of(canvas@, q as int, dim as int, index as int, vertical);
    let mut score: u32 = 0;
    let mut i: usize = 0;
    while i + 7 <= dim
        invariant
            canvas.wf(),
            canvas.side() == dim + 2 * q,
            index < dim,
            1 <= dim <= 177,
            line == line_of(canvas@, q as int, dim as int, index as int, vertical),
            i <= dim,
            i + 6 <= dim || i == 0,
            score == pattern_penalty(line, i as int),
            score <= 40 * i,
        decreases dim - i,
    {
        if has_pattern_at(canvas, q, dim, index, i, vertical) {
            score += 40;
        }
        i += 1;
    }
    score
}

/// Number of blocks of four equal modules with the top-left module in row
/// `r`.
fn row_blocks(canvas: &Canvas, q: usize, dim: usize, r: usize) -> (n: u32)
    requires
        canvas.wf(),
        canvas.side() == dim + 2 * q,
        1 <= dim <= 177,
        r + 1 < dim,
    ensures
        n == blocks_in_row(canvas@, q as int, r as int, dim as int - 1),
        n <= dim,
{
    let mut n: u32 = 0;
    let mut c: usize = 0;
    while c + 1 < dim
        invariant
            canvas.wf(),
            canvas.side() == dim + 2 * q,
            1 <= dim <= 177,
            r + 1 < dim,
            c + 1 <= dim,
            n == blocks_in_row(canvas@, q as int, r as int, c as int),
            n <= c,
        decreases dim - c,
    {
        let m: Module = canvas.get(q + c, q + r);
        if m == canvas.get(q + c + 1, q + r) && m == canvas.get(q + c, q + r + 1) && m
            == canvas.get(q + c + 1, q + r + 1) {
            n += 1;
        }
        c += 1;
    }
    n
}

/// Number of dark modules on a line at the positions from `from` up to, but
/// not including, `to`.
fn count_dark(
    canvas: &Canvas,
    q: usize,
    dim: usize,
    index: usize,
    vertical: bool,
    from: usize,
    to: usize,
) -> (n: u32)
    requires
        canvas.wf(),
        canvas.side() == dim + 2 * q,
        index < dim,
        1 <= dim <= 177,
        to <= dim,
    ensures
        n == dark_on_line(
            line_of(canvas@, q as int, dim as int, index as int, vertical),
            from as int,
            to as int,
        ),
        n <= dim,
{
    let ghost line = line_of(canvas@, q as int, dim as int, index as int, vertical);
    let mut n: u32 = 0;
    if to <= from {
        return 0;
    }
    let mut p: usize = from;
    while p < to
        invariant
            canvas.wf(),
            canvas.side() == dim + 2 * q,
            index < dim,
            1 <= dim <= 177,
            to <= dim,
            from <= p <= to,
            line == line_of(canvas@, q as int, dim as int, index as int, vertical),
            n == dark_on_line(line, from as int, p as int),
            n <= p - from,
        decreases to - p,
    {
        if module_on_line(canvas, q, dim, index, p, vertical) == Module::Dark {
            n += 1;
        }
        p += 1;
    }
    n
}

/// Compute penalty score for symbol with mask applied for standard size QR codes.
/// There is an extra function to do this for micro symbols, because it works differently for those.
pub fn compute_mask_penalty_score_standard(masked_symbol: &Canvas) -> (score: u32)
    requires
        masked_symbol.wf(),
        9 <= masked_symbol.side() <= 185,
    ensures
        score == standard_penalty(masked_symbol@),
{
    let dim: usize = masked_symbol.height() as usize - 8;
    let ghost g = masked_symbol@;
    // FIRST feature: adjacent modules of same color in rows and in columns.
    let mut runs_rows: u32 = 0;
    let mut runs_columns: u32 = 0;
    // THIRD FEATURE: 1011101 patterns with 4 zeros before or after it
    let mut patterns_rows: u32 = 0;
    let mut patterns_columns: u32 = 0;
    // FOURTH FEATURE: dark/light ratio balance
    let mut num_dark_modules: u32 = 0;
    let mut i: usize = 0;
    while i < dim
        invariant
            masked_symbol.wf(),
            masked_symbol.side() == dim + 8,
            1 <= dim <= 177,
            g == masked_symbol@,
            i <= dim,
            runs_rows == lines_runs_penalty(g, 4, dim as int, false, i as int),
            runs_columns == lines_runs_penalty(g, 4, dim as int, true, i as int),
            patterns_rows == lines_pattern_penalty(g, 4, dim as int, false, i as int),
            patterns_columns == lines_pattern_penalty(g, 4, dim as int, true, i as int),
            num_dark_modules == dark_count(g, 4, dim as int, i as int),
            runs_rows <= 177 * i,
            runs_columns <= 177 * i,
            patterns_rows <= 7080 * i,
            patterns_columns <= 7080 * i,
            num_dark_modules <= 177 * i,
        decreases dim - i,
    {
        runs_rows += line_runs_penalty(masked_symbol, 4, dim, i, false);
        runs_columns += line_runs_penalty(masked_symbol, 4, dim, i, true);
        patterns_rows += line_pattern_penalty(masked_symbol, 4, dim, i, false);
        patterns_columns += line_pattern_penalty(masked_symbol, 4, dim, i, true);
        num_dark_modules += count_dark(masked_symbol, 4, dim, i, false, 0, dim);
        i += 1;
    }
    // SECOND FEATURE: penalties for 2x2 module blocks of same color
    let mut blocks: u32 = 0;
    let mut r: usize = 0;
    while r + 1 < dim
        invariant
            masked_symbol.wf(),
            masked_symbol.side() == dim + 8,
            1 <= dim <= 177,
            g == masked_symbol@,
            r + 1 <= dim,
            blocks == blocks_count(g, 4, dim as int, r as int),
            blocks <= 177 * r,
        decreases dim - r,
    {
        blocks += row_blocks(masked_symbol, 4, dim, r);
        r += 1;
    }
    assert(dim * dim <= 31329) by (nonlinear_arith)
        requires
            dim <= 177,
    ;
    assert(dim * dim >= 1) by (nonlinear_arith)
        requires
            dim >= 1,
    ;
    let total: u32 = (dim * dim) as u32;
    let diff: u32 = if 20 * num_dark_modules >= 10 * total {
        20 * num_dark_modules - 10 * total
    } else {
        10 * total - 20 * num_dark_modules
    };
    // step is now the number of full-5%-steps by which ratio deviates from 50%.
    let step: u32 = diff / total;
    assert(step <= diff);
    runs_rows + runs_columns + 3 * blocks + patterns_rows + patterns_columns + 10 * step
}

/// compute the mask score for a masked micro QR symbol
pub fn compute_mask_score_micro(masked_symbol: &Canvas) -> (score: u32)
    requires
        masked_symbol.wf(),
        5 <= masked_symbol.side() <= 181,
    ensures
        score == micro_score(masked_symbol@),
{
    let dim: usize = masked_symbol.height() as usize - 4;
    // count number of black modules in right and lower edges of symbol
    let sum1: u32 = count_dark(masked_symbol, 2, dim, dim - 1, true, 2, dim);
    let sum2: u32 = count_dark(masked_symbol, 2, dim, dim - 1, false, 2, dim);
    if sum1 <= sum2 {
        sum1 * 16 + sum2
    } else {
        sum2 * 16 + sum1
    }
}

/// The score of a symbol under the mask with the reference `index`: the
/// penalty of a Standard symbol, which is to be small, or the score of a
/// Micro symbol, which is to be great.
pub open spec fn mask_score(g: Seq<Seq<Module>>, marker: Seq<Seq<Module>>, size: Size, index: int)
    -> int {
    let masked = masked_grid(g, marker, mask_pattern(index, size), size);
    if size is Micro {
        micro_score(masked)
    } else {
        standard_penalty(masked)
    }
}

/// Whether `best` is the reference of the mask to choose. For a Standard
/// symbol it is the first of the masks with the least penalty. For a Micro
/// symbol it is the last of the masks with the greatest score.
pub open spec fn is_best_mask(g: Seq<Seq<Module>>, marker: Seq<Seq<Module>>, size: Size, best: int)
    -> bool {
    &&& 0 <= best < mask_count(size)
    &&& forall|p: int|
        0 <= p < mask_count(size) ==> if size is Micro {
            #[trigger] mask_score(g, marker, size, p) <= mask_score(g, marker, size, best) && (p
                > best ==> mask_score(g, marker, size, p) < mask_score(g, marker, size, best))
        } else {
            mask_score(g, marker, size, p) >= mask_score(g, marker, size, best) && (p < best
                ==> mask_score(g, marker, size, p) > mask_score(g, marker, size, best))
        }
}

/// Only one mask is the mask to choose.
pub proof fn lemma_best_mask_is_unique(
    g: Seq<Seq<Module>>,
    marker: Seq<Seq<Module>>,
    size: Size,
    a: int,
    b: int,
)
    requires
        is_best_mask(g, marker, size, a),
        is_best_mask(g, marker, size, b),
    ensures
        a == b,
{
    let score_a = mask_score(g, marker, size, a);
    let score_b = mask_score(g, marker, size, b);
    if size is Micro {
        assert(score_b <= score_a && (b > a ==> score_b < score_a));
        assert(score_a <= score_b && (a > b ==> score_a < score_b));
    } else {
        assert(score_b >= score_a && (b < a ==> score_b > score_a));
        assert(score_a >= score_b && (a < b ==> score_a > score_b));
    }
}

/// The reference of the mask to choose.
pub open spec fn best_mask(g: Seq<Seq<Module>>, marker: Seq<Seq<Module>>, size: Size) -> int {
    choose|best: int| is_best_mask(g, marker, size, best)
}

/// Compute best mask and apply it.
/// Will evaluate all available masks for the given symbol, apply the best mask and return
/// the code of that mask and resulting masked symbol.
pub fn apply_best_mask(unmasked_symbol: &Canvas, size: Size) -> (r: (u8, Canvas))
    requires
        size.valid(),
        unmasked_symbol.wf(),
        unmasked_symbol.side() == size.side(),
    ensures
        is_best_mask(unmasked_symbol@, blank_grid(size), size, r.0 as int),
        r.0 == best_mask(unmasked_symbol@, blank_grid(size), size),
        r.1.wf(),
        r.1.side() == size.side(),
        r.1@ == masked_grid(
            unmasked_symbol@,
            blank_grid(size),
            mask_pattern(r.0 as int, size),
            size,
        ),
{
    let canvas = create_qr_canvas(size);
    let micro: bool = size.is_micro();
    let count: u8 = if micro {
        4
    } else {
        8
    };
    let ghost g = unmasked_symbol@;
    let ghost marker = canvas@;
    let mut best_symbol = unmasked_symbol.duplicate();
    apply_mask(&mut best_symbol, 0, size, &canvas);
    let mut best_score: u32 = if micro {
        compute_mask_score_micro(&best_symbol)
    } else {
        compute_mask_penalty_score_standard(&best_symbol)
    };
    let mut best_index: u8 = 0;
    let mut index: u8 = 1;
    while index < count
        invariant
            size.valid(),
            micro == (size is Micro),
            count == mask_count(size),
            unmasked_symbol.wf(),
            unmasked_symbol.side() == size.side(),
            g == unmasked_symbol@,
            canvas.wf(),
            canvas.side() == size.side(),
            marker == canvas@,
            1 <= index <= count,
            best_index < index,
            best_symbol.wf(),
            best_symbol.side() == size.side(),
            best_symbol@ == masked_grid(g, marker, mask_pattern(best_index as int, size), size),
            best_score == mask_score(g, marker, size, best_index as int),
            forall|p: int|
                0 <= p < index ==> if micro {
                    #[trigger] mask_score(g, marker, size, p) <= best_score && (p > best_index
                        ==> mask_score(g, marker, size, p) < best_score)
                } else {
                    mask_score(g, marker, size, p) >= best_score && (p < best_index ==> mask_score(
                        g,
                        marker,
                        size,
                        p,
                    ) > best_score)
                },
        decreases count - index,
    {
        let mut masked_copy = unmasked_symbol.duplicate();
        apply_mask(&mut masked_copy, index, size, &canvas);
        let score: u32 = if micro {
            compute_mask_score_micro(&masked_copy)
        } else {
            compute_mask_penalty_score_standard(&masked_copy)
        };
        assert(score == mask_score(g, marker, size, index as int));
        // a Micro symbol takes the mask with the highest score, a Standard
        // symbol the one with the lowest penalty
        let better: bool = if micro {
            score >= best_score
        } else {
            score < best_score
        };
        if better {
            best_index = index;
            best_score = score;
            best_symbol = masked_copy;
        }
        index += 1;
    }
    proof {
        assert(is_best_mask(g, marker, size, best_index as int));
        lemma_best_mask_is_unique(g, marker, size, best_index as int, best_mask(g, marker, size));
    }
    (best_index, best_symbol)
}

} // verus!
