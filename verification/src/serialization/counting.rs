//! Counting the cells of the encoding region: how many cells the walk
//! finds on the blank canvas of each symbol size.
use crate::config::Size;
use crate::serialization::canvas::Module;
use crate::serialization::patterns::{
    alignment_at, alignment_coords, alignment_points, blank_grid, blank_module, is_finder_corner,
    lemma_alignment_at_is_light_or_dark, points_upto, points_with, standard_module,
};
use crate::serialization::placement::{
    is_slot, lemma_walk_cell, lemma_walk_covers, on_walk, position_in_strip, skipped_column,
    slot_count, slots_before_strip, slots_in_strip, strip_count, strip_of_column, walk_column,
    walk_row,
};
use crate::tables::symbol_codewords;
use vstd::prelude::*;

verus! {

/// Whether the cell in row `r` and column `c` of the symbol is marked as
/// part of the encoding region in `g`.
pub open spec fn marked(g: Seq<Seq<Module>>, size: Size, r: int, c: int) -> bool {
    g[size.quiet() + r][size.quiet() + c] == Module::DataRegion
}

/// The grid that marks the cells of the symbol for which `f` holds.
pub open spec fn grid_of(size: Size, f: spec_fn(int, int) -> bool) -> Seq<Seq<Module>> {
    Seq::new(
        size.side() as nat,
        |y: int|
            Seq::new(
                size.side() as nat,
                |x: int|
                    if f(y - size.quiet(), x - size.quiet()) {
                        Module::DataRegion
                    } else {
                        Module::Light
                    },
            ),
    )
}

/// Whether, on the walk, `g` marks the cells that `a` marks and those that
/// `b` marks, and `a` and `b` mark no cell in common.
pub open spec fn splits_into(
    g: Seq<Seq<Module>>,
    a: Seq<Seq<Module>>,
    b: Seq<Seq<Module>>,
    size: Size,
) -> bool {
    forall|r: int, c: int|
        on_walk(size, r, c) ==> (#[trigger] marked(g, size, r, c) <==> marked(a, size, r, c)
            || marked(b, size, r, c)) && !(marked(a, size, r, c) && marked(b, size, r, c))
}

proof fn lemma_strip_splits(
    g: Seq<Seq<Module>>,
    a: Seq<Seq<Module>>,
    b: Seq<Seq<Module>>,
    size: Size,
    s: int,
    w: int,
)
    requires
        size.valid(),
        splits_into(g, a, b, size),
        0 <= s < strip_count(size),
        0 <= w <= 2 * size.interior(),
    ensures
        slots_in_strip(g, size, s, w) == slots_in_strip(a, size, s, w) + slots_in_strip(
            b,
            size,
            s,
            w,
        ),
    decreases w,
{
    if w > 0 {
        lemma_strip_splits(g, a, b, size, s, w - 1);
        lemma_walk_cell(size, s, w - 1);
        let r = walk_row(size, s, w - 1);
        let c = walk_column(size, s, w - 1);
        assert(marked(g, size, r, c) == is_slot(g, size, s, w - 1));
        assert(marked(a, size, r, c) == is_slot(a, size, s, w - 1));
        assert(marked(b, size, r, c) == is_slot(b, size, s, w - 1));
    }
}

proof fn lemma_strips_split(
    g: Seq<Seq<Module>>,
    a: Seq<Seq<Module>>,
    b: Seq<Seq<Module>>,
    size: Size,
    s: int,
)
    requires
        size.valid(),
        splits_into(g, a, b, size),
        0 <= s <= strip_count(size),
    ensures
        slots_before_strip(g, size, s) == slots_before_strip(a, size, s) + slots_before_strip(
            b,
            size,
            s,
        ),
    decreases s,
{
    if s > 0 {
        lemma_strips_split(g, a, b, size, s - 1);
        lemma_strip_splits(g, a, b, size, s - 1, 2 * size.interior());
    }
}

/// Where a set of cells is split in two, the walk finds as many cells of
/// the set as of both parts together.
pub proof fn lemma_count_splits(
    g: Seq<Seq<Module>>,
    a: Seq<Seq<Module>>,
    b: Seq<Seq<Module>>,
    size: Size,
)
    requires
        size.valid(),
        splits_into(g, a, b, size),
    ensures
        slot_count(g, size) == slot_count(a, size) + slot_count(b, size),
{
    lemma_strips_split(g, a, b, size, strip_count(size));
}

proof fn lemma_strip_of_nothing(g: Seq<Seq<Module>>, size: Size, s: int, w: int)
    requires
        size.valid(),
        forall|r: int, c: int| on_walk(size, r, c) ==> !#[trigger] marked(g, size, r, c),
        0 <= s < strip_count(size),
        0 <= w <= 2 * size.interior(),
    ensures
        slots_in_strip(g, size, s, w) == 0,
    decreases w,
{
    if w > 0 {
        lemma_strip_of_nothing(g, size, s, w - 1);
        lemma_walk_cell(size, s, w - 1);
        assert(marked(g, size, walk_row(size, s, w - 1), walk_column(size, s, w - 1)) == is_slot(
            g,
            size,
            s,
            w - 1,
        ));
    }
}

proof fn lemma_strips_of_nothing(g: Seq<Seq<Module>>, size: Size, s: int)
    requires
        size.valid(),
        forall|r: int, c: int| on_walk(size, r, c) ==> !#[trigger] marked(g, size, r, c),
        0 <= s <= strip_count(size),
    ensures
        slots_before_strip(g, size, s) == 0,
    decreases s,
{
    if s > 0 {
        lemma_strips_of_nothing(g, size, s - 1);
        lemma_strip_of_nothing(g, size, s - 1, 2 * size.interior());
    }
}

/// The walk finds no cell where none is marked on it.
pub proof fn lemma_count_of_nothing(g: Seq<Seq<Module>>, size: Size)
    requires
        size.valid(),
        forall|r: int, c: int| on_walk(size, r, c) ==> !#[trigger] marked(g, size, r, c),
    ensures
        slot_count(g, size) == 0,
{
    lemma_strips_of_nothing(g, size, strip_count(size));
}

/// The walk finds as many cells in two grids that mark the same cells on
/// it.
pub proof fn lemma_count_of_same(g: Seq<Seq<Module>>, h: Seq<Seq<Module>>, size: Size)
    requires
        size.valid(),
        forall|r: int, c: int|
            on_walk(size, r, c) ==> (#[trigger] marked(g, size, r, c) <==> marked(h, size, r, c)),
    ensures
        slot_count(g, size) == slot_count(h, size),
{
    let nothing = grid_of(size, |r: int, c: int| false);
    assert forall|r: int, c: int| on_walk(size, r, c) implies !#[trigger] marked(
        nothing,
        size,
        r,
        c,
    ) by {}
    lemma_count_of_nothing(nothing, size);
    assert(splits_into(g, h, nothing, size)) by {
        assert forall|r: int, c: int| on_walk(size, r, c) implies (#[trigger] marked(
            g,
            size,
            r,
            c,
        ) <==> marked(h, size, r, c) || marked(nothing, size, r, c)) && !(marked(h, size, r, c)
            && marked(nothing, size, r, c)) by {}
    }
    lemma_count_splits(g, h, nothing, size);
}

proof fn lemma_strip_of_one(g: Seq<Seq<Module>>, size: Size, r0: int, c0: int, s: int, w: int)
    requires
        size.valid(),
        on_walk(size, r0, c0),
        forall|r: int, c: int|
            on_walk(size, r, c) ==> (#[trigger] marked(g, size, r, c) <==> r == r0 && c == c0),
        0 <= s < strip_count(size),
        0 <= w <= 2 * size.interior(),
    ensures
        slots_in_strip(g, size, s, w) == if s == strip_of_column(size, c0) && w
            > position_in_strip(size, r0, c0) {
            1nat
        } else {
            0nat
        },
    decreases w,
{
    if w > 0 {
        lemma_strip_of_one(g, size, r0, c0, s, w - 1);
        lemma_walk_cell(size, s, w - 1);
        lemma_walk_covers(size, r0, c0);
        assert(marked(g, size, walk_row(size, s, w - 1), walk_column(size, s, w - 1)) == is_slot(
            g,
            size,
            s,
            w - 1,
        ));
    }
}

proof fn lemma_strips_of_one(g: Seq<Seq<Module>>, size: Size, r0: int, c0: int, s: int)
    requires
        size.valid(),
        on_walk(size, r0, c0),
        forall|r: int, c: int|
            on_walk(size, r, c) ==> (#[trigger] marked(g, size, r, c) <==> r == r0 && c == c0),
        0 <= s <= strip_count(size),
    ensures
        slots_before_strip(g, size, s) == if s > strip_of_column(size, c0) {
            1nat
        } else {
            0nat
        },
    decreases s,
{
    if s > 0 {
        lemma_strips_of_one(g, size, r0, c0, s - 1);
        lemma_strip_of_one(g, size, r0, c0, s - 1, 2 * size.interior());
        lemma_walk_covers(size, r0, c0);
    }
}

/// The walk finds a single marked cell once.
pub proof fn lemma_count_of_one(g: Seq<Seq<Module>>, size: Size, r0: int, c0: int)
    requires
        size.valid(),
        on_walk(size, r0, c0),
        forall|r: int, c: int|
            on_walk(size, r, c) ==> (#[trigger] marked(g, size, r, c) <==> r == r0 && c == c0),
    ensures
        slot_count(g, size) == 1,
{
    lemma_strips_of_one(g, size, r0, c0, strip_count(size));
    lemma_walk_covers(size, r0, c0);
}

/// Number of columns from `c0` up to, but not including, `c0 + w` that the
/// walk passes over.
pub open spec fn walk_columns(size: Size, c0: int, w: int) -> int {
    if c0 <= skipped_column(size) < c0 + w {
        w - 1
    } else {
        w
    }
}

/// Whether the cell lies in the rectangle of `h` rows from row `r0` on and
/// `w` columns from column `c0` on.
pub open spec fn in_rect(r0: int, c0: int, h: int, w: int, r: int, c: int) -> bool {
    r0 <= r < r0 + h && c0 <= c < c0 + w
}

proof fn lemma_count_of_row(g: Seq<Seq<Module>>, size: Size, r0: int, c0: int, w: int)
    requires
        size.valid(),
        0 <= r0 < size.interior(),
        0 <= c0,
        0 <= w,
        c0 + w <= size.interior(),
        forall|r: int, c: int|
            on_walk(size, r, c) ==> (#[trigger] marked(g, size, r, c) <==> in_rect(
                r0,
                c0,
                1,
                w,
                r,
                c,
            )),
    ensures
        slot_count(g, size) == walk_columns(size, c0, w),
    decreases w,
{
    if w == 0 {
        lemma_count_of_nothing(g, size);
    } else {
        let shorter = grid_of(size, |r: int, c: int| in_rect(r0, c0, 1, w - 1, r, c));
        let last = grid_of(size, |r: int, c: int| r == r0 && c == c0 + w - 1);
        assert forall|r: int, c: int| on_walk(size, r, c) implies (#[trigger] marked(
            shorter,
            size,
            r,
            c,
        ) <==> in_rect(r0, c0, 1, w - 1, r, c)) by {}
        lemma_count_of_row(shorter, size, r0, c0, w - 1);
        assert(splits_into(g, shorter, last, size)) by {
            assert forall|r: int, c: int| on_walk(size, r, c) implies (#[trigger] marked(
                g,
                size,
                r,
                c,
            ) <==> marked(shorter, size, r, c) || marked(last, size, r, c)) && !(marked(
                shorter,
                size,
                r,
                c,
            ) && marked(last, size, r, c)) by {}
        }
        lemma_count_splits(g, shorter, last, size);
        if on_walk(size, r0, c0 + w - 1) {
            assert forall|r: int, c: int| on_walk(size, r, c) implies (#[trigger] marked(
                last,
                size,
                r,
                c,
            ) <==> r == r0 && c == c0 + w - 1) by {}
            lemma_count_of_one(last, size, r0, c0 + w - 1);
        } else {
            assert forall|r: int, c: int| on_walk(size, r, c) implies !#[trigger] marked(
                last,
                size,
                r,
                c,
            ) by {}
            lemma_count_of_nothing(last, size);
        }
    }
}

/// The walk finds the cells of a rectangle that lie in its columns.
pub proof fn lemma_count_of_rect(
    g: Seq<Seq<Module>>,
    size: Size,
    r0: int,
    c0: int,
    h: int,
    w: int,
)
    requires
        size.valid(),
        0 <= r0,
        0 <= h,
        r0 + h <= size.interior(),
        0 <= c0,
        0 <= w,
        c0 + w <= size.interior(),
        forall|r: int, c: int|
            on_walk(size, r, c) ==> (#[trigger] marked(g, size, r, c) <==> in_rect(
                r0,
                c0,
                h,
                w,
                r,
                c,
            )),
    ensures
        slot_count(g, size) == h * walk_columns(size, c0, w),
    decreases h,
{
    if h == 0 {
        lemma_count_of_nothing(g, size);
        assert(0 * walk_columns(size, c0, w) == 0);
    } else {
        let lower = grid_of(size, |r: int, c: int| in_rect(r0, c0, h - 1, w, r, c));
        let last = grid_of(size, |r: int, c: int| in_rect(r0 + h - 1, c0, 1, w, r, c));
        assert forall|r: int, c: int| on_walk(size, r, c) implies (#[trigger] marked(
            lower,
            size,
            r,
            c,
        ) <==> in_rect(r0, c0, h - 1, w, r, c)) by {}
        assert forall|r: int, c: int| on_walk(size, r, c) implies (#[trigger] marked(
            last,
            size,
            r,
            c,
        ) <==> in_rect(r0 + h - 1, c0, 1, w, r, c)) by {}
        lemma_count_of_rect(lower, size, r0, c0, h - 1, w);
        lemma_count_of_row(last, size, r0 + h - 1, c0, w);
        assert(splits_into(g, lower, last, size)) by {
            assert forall|r: int, c: int| on_walk(size, r, c) implies (#[trigger] marked(
                g,
                size,
                r,
                c,
            ) <==> marked(lower, size, r, c) || marked(last, size, r, c)) && !(marked(
                lower,
                size,
                r,
                c,
            ) && marked(last, size, r, c)) by {}
        }
        lemma_count_splits(g, lower, last, size);
        let k = walk_columns(size, c0, w);
        assert((h - 1) * k + k == h * k) by (nonlinear_arith);
    }
}

/// Number of cells of the encoding region of a Micro symbol of side `dim`:
/// all cells in the columns of the walk but those of the corner with the
/// finder pattern and the format information, and those of the timing
/// pattern in the top row.
pub open spec fn micro_region_cells(dim: int) -> int {
    dim * (dim - 1) - 72 - (dim - 9)
}

/// Number of cells of the encoding region of a Standard symbol of version
/// `v`, side `dim` and `n` alignment coordinates: all cells in the columns
/// of the walk but those of the three corners, of the timing pattern in
/// row 6 between the alignment patterns, of the version information, and
/// of the alignment patterns, of which those in the columns 4 to 8 lose
/// the cells in the timing column.
pub open spec fn standard_region_cells(v: int, dim: int, n: int) -> int {
    dim * (dim - 1) - 72 - 72 - 64 - if v >= 7 {
        36int
    } else {
        0int
    } - if v == 1 {
        dim - 17
    } else {
        (dim - 17 - 5 * (n - 2)) + (25 * n * n - 5 * n - 65)
    }
}

/// Number of coordinates of alignment patterns in a Standard symbol from
/// version 2 on: two, and one more for every seven versions.
pub open spec fn coordinate_count(v: u8) -> int {
    if v <= 6 {
        2
    } else if v <= 13 {
        3
    } else if v <= 20 {
        4
    } else if v <= 27 {
        5
    } else if v <= 34 {
        6
    } else {
        7
    }
}

/// Number of cells of the encoding region of a symbol.
pub open spec fn encoding_region_cells(size: Size) -> int {
    match size {
        Size::Micro(k) => micro_region_cells(2 * k + 9),
        Size::Standard(v) => standard_region_cells(v as int, 4 * v + 17, coordinate_count(v)),
    }
}

proof fn lemma_micro_cells(k: u8)
    requires
        1 <= k <= 4,
    ensures
        slot_count(blank_grid(Size::Micro(k)), Size::Micro(k)) == encoding_region_cells(
            Size::Micro(k),
        ),
{
    let size = Size::Micro(k);
    let dim = size.interior();
    let blank = blank_grid(size);
    let all = grid_of(size, |r: int, c: int| true);
    let corner = grid_of(size, |r: int, c: int| in_rect(0, 0, 9, 9, r, c));
    let timing = grid_of(size, |r: int, c: int| in_rect(0, 9, 1, dim - 9, r, c));
    let functional = grid_of(
        size,
        |r: int, c: int| in_rect(0, 0, 9, 9, r, c) || in_rect(0, 9, 1, dim - 9, r, c),
    );
    assert forall|r: int, c: int| on_walk(size, r, c) implies (#[trigger] marked(all, size, r, c)
        <==> in_rect(0, 0, dim, dim, r, c)) by {}
    lemma_count_of_rect(all, size, 0, 0, dim, dim);
    assert forall|r: int, c: int| on_walk(size, r, c) implies (#[trigger] marked(
        corner,
        size,
        r,
        c,
    ) <==> in_rect(0, 0, 9, 9, r, c)) by {}
    lemma_count_of_rect(corner, size, 0, 0, 9, 9);
    assert forall|r: int, c: int| on_walk(size, r, c) implies (#[trigger] marked(
        timing,
        size,
        r,
        c,
    ) <==> in_rect(0, 9, 1, dim - 9, r, c)) by {}
    lemma_count_of_rect(timing, size, 0, 9, 1, dim - 9);
    assert(splits_into(functional, corner, timing, size)) by {
        assert forall|r: int, c: int| on_walk(size, r, c) implies (#[trigger] marked(
            functional,
            size,
            r,
            c,
        ) <==> marked(corner, size, r, c) || marked(timing, size, r, c)) && !(marked(
            corner,
            size,
            r,
            c,
        ) && marked(timing, size, r, c)) by {}
    }
    lemma_count_splits(functional, corner, timing, size);
    assert(splits_into(all, blank, functional, size)) by {
        assert forall|r: int, c: int| on_walk(size, r, c) implies (#[trigger] marked(
            all,
            size,
            r,
            c,
        ) <==> marked(blank, size, r, c) || marked(functional, size, r, c)) && !(marked(
            blank,
            size,
            r,
            c,
        ) && marked(functional, size, r, c)) by {
            assert(blank[size.quiet() + r][size.quiet() + c] == blank_module(
                size,
                size.quiet() + c,
                size.quiet() + r,
            ));
        }
    }
    lemma_count_splits(all, blank, functional, size);
}

/// Whether `x` lies within two cells of the coordinate `a`.
pub open spec fn near(a: i32, x: int) -> bool {
    a - 2 <= x <= a + 2
}

/// Whether one of the alignment patterns whose centre has the column
/// coordinate number `i` and one of the first `j` row coordinates covers
/// the cell.
pub open spec fn covered_with(coords: Seq<i32>, i: int, j: int, r: int, c: int) -> bool
    decreases j,
{
    j > 0 && ((!is_finder_corner(coords.len() as int, i, j - 1) && near(coords[i], c) && near(
        coords[j - 1],
        r,
    )) || covered_with(coords, i, j - 1, r, c))
}

/// Whether one of the alignment patterns whose centre has one of the first
/// `i` column coordinates covers the cell.
pub open spec fn covered_upto(coords: Seq<i32>, i: int, r: int, c: int) -> bool
    decreases i,
{
    i > 0 && (covered_with(coords, i - 1, coords.len() as int, r, c) || covered_upto(
        coords,
        i - 1,
        r,
        c,
    ))
}

proof fn lemma_alignment_at_prefix(a: Seq<(i32, i32)>, b: Seq<(i32, i32)>, n: int, r: int, c: int)
    requires
        0 <= n <= a.len(),
        n <= b.len(),
        forall|k: int| 0 <= k < n ==> a[k] == b[k],
    ensures
        alignment_at(a, n, r, c) == alignment_at(b, n, r, c),
    decreases n,
{
    if n > 0 {
        lemma_alignment_at_prefix(a, b, n - 1, r, c);
    }
}

proof fn lemma_alignment_at_concat(a: Seq<(i32, i32)>, b: Seq<(i32, i32)>, r: int, c: int)
    ensures
        alignment_at(a + b, (a + b).len() as int, r, c) is Some <==> alignment_at(
            a,
            a.len() as int,
            r,
            c,
        ) is Some || alignment_at(b, b.len() as int, r, c) is Some,
    decreases b.len(),
{
    if b.len() == 0 {
        assert(a + b =~= a);
    } else {
        let shorter = b.drop_last();
        lemma_alignment_at_concat(a, shorter, r, c);
        lemma_alignment_at_prefix(a + b, a + shorter, (a + shorter).len() as int, r, c);
        lemma_alignment_at_prefix(b, shorter, shorter.len() as int, r, c);
        assert((a + b)[(a + b).len() - 1] == b[b.len() - 1]);
    }
}

proof fn lemma_points_with_cover(coords: Seq<i32>, i: int, j: int, r: int, c: int)
    requires
        0 <= i < coords.len(),
        0 <= j <= coords.len(),
    ensures
        alignment_at(
            points_with(coords, i, j),
            points_with(coords, i, j).len() as int,
            r,
            c,
        ) is Some <==> covered_with(coords, i, j, r, c),
    decreases j,
{
    if j > 0 {
        lemma_points_with_cover(coords, i, j - 1, r, c);
        let before = points_with(coords, i, j - 1);
        if !is_finder_corner(coords.len() as int, i, j - 1) {
            let point = (coords[i], coords[j - 1]);
            let list = before.push(point);
            lemma_alignment_at_prefix(list, before, before.len() as int, r, c);
        }
    }
}

/// An alignment pattern covers a cell just where the cell lies within two
/// cells of a column coordinate and of a row coordinate whose pair names no
/// corner at which a finder pattern stands.
pub proof fn lemma_points_cover(coords: Seq<i32>, i: int, r: int, c: int)
    requires
        0 <= i <= coords.len(),
    ensures
        alignment_at(points_upto(coords, i), points_upto(coords, i).len() as int, r, c) is Some
            <==> covered_upto(coords, i, r, c),
    decreases i,
{
    if i > 0 {
        lemma_points_cover(coords, i - 1, r, c);
        lemma_points_with_cover(coords, i - 1, coords.len() as int, r, c);
        lemma_alignment_at_concat(
            points_upto(coords, i - 1),
            points_with(coords, i - 1, coords.len() as int),
            r,
            c,
        );
    }
}

/// Whether the coordinates are those of a symbol of side `dim`: the first
/// is 6, the last lies six cells from the far edge, and each lies at least
/// twelve cells behind the one before.
pub open spec fn well_placed(coords: Seq<i32>, dim: int) -> bool {
    &&& 2 <= coords.len() <= 7
    &&& coords[0] == 6
    &&& coords[coords.len() - 1] == dim - 7
    &&& forall|k: int| 0 <= k < coords.len() - 1 ==> (#[trigger] coords[k]) + 12 <= coords[k + 1]
}

proof fn lemma_spacing(coords: Seq<i32>, dim: int, i: int, j: int)
    requires
        well_placed(coords, dim),
        0 <= i <= j < coords.len(),
    ensures
        coords[i] + 12 * (j - i) <= coords[j],
        6 <= coords[i],
        coords[j] <= dim - 7,
    decreases j - i,
{
    if i < j {
        lemma_spacing(coords, dim, i, j - 1);
        assert(coords[j - 1] + 12 <= coords[j]);
    }
    if i > 0 {
        lemma_spacing_low(coords, dim, i);
    }
    lemma_spacing_high(coords, dim, j);
}

proof fn lemma_spacing_low(coords: Seq<i32>, dim: int, i: int)
    requires
        well_placed(coords, dim),
        0 <= i < coords.len(),
    ensures
        6 + 12 * i <= coords[i],
    decreases i,
{
    if i > 0 {
        lemma_spacing_low(coords, dim, i - 1);
        assert(coords[i - 1] + 12 <= coords[i]);
    }
}

proof fn lemma_spacing_high(coords: Seq<i32>, dim: int, j: int)
    requires
        well_placed(coords, dim),
        0 <= j < coords.len(),
    ensures
        coords[j] + 12 * (coords.len() - 1 - j) <= dim - 7,
    decreases coords.len() - j,
{
    if j < coords.len() - 1 {
        lemma_spacing_high(coords, dim, j + 1);
        assert(coords[j] + 12 <= coords[j + 1]);
    }
}

/// Number of cells on the walk that the alignment patterns with the column
/// coordinate number `i` and one of the first `j` row coordinates cover:
/// twenty-five each, but twenty where the timing column crosses them.
pub open spec fn cells_with(n: int, i: int, j: int) -> int
    decreases j,
{
    if j <= 0 {
        0
    } else {
        cells_with(n, i, j - 1) + if is_finder_corner(n, i, j - 1) {
            0int
        } else if i == 0 {
            20int
        } else {
            25int
        }
    }
}

/// Number of cells on the walk that the alignment patterns with one of the
/// first `i` column coordinates cover.
pub open spec fn cells_upto(n: int, i: int) -> int
    decreases i,
{
    if i <= 0 {
        0
    } else {
        cells_upto(n, i - 1) + cells_with(n, i - 1, n)
    }
}

proof fn lemma_covered_with_bounds(coords: Seq<i32>, dim: int, i: int, j: int, r: int, c: int)
    requires
        well_placed(coords, dim),
        0 <= i < coords.len(),
        0 <= j <= coords.len(),
        covered_with(coords, i, j, r, c),
    ensures
        j >= 1,
        near(coords[i], c),
        4 <= r <= coords[j - 1] + 2,
    decreases j,
{
    if !(!is_finder_corner(coords.len() as int, i, j - 1) && near(coords[i], c) && near(
        coords[j - 1],
        r,
    )) {
        lemma_covered_with_bounds(coords, dim, i, j - 1, r, c);
        lemma_spacing(coords, dim, j - 2, j - 1);
    } else {
        lemma_spacing(coords, dim, 0, j - 1);
    }
}

proof fn lemma_covered_upto_bounds(coords: Seq<i32>, dim: int, i: int, r: int, c: int)
    requires
        well_placed(coords, dim),
        0 <= i <= coords.len(),
        covered_upto(coords, i, r, c),
    ensures
        i >= 1,
        4 <= c <= coords[i - 1] + 2,
        4 <= r <= dim - 5,
    decreases i,
{
    if covered_with(coords, i - 1, coords.len() as int, r, c) {
        lemma_covered_with_bounds(coords, dim, i - 1, coords.len() as int, r, c);
        lemma_spacing(coords, dim, 0, i - 1);
    } else {
        lemma_covered_upto_bounds(coords, dim, i - 1, r, c);
        lemma_spacing(coords, dim, i - 2, i - 1);
    }
}

proof fn lemma_count_with(coords: Seq<i32>, v: u8, i: int, j: int)
    requires
        1 <= v <= 40,
        well_placed(coords, 4 * v + 17),
        0 <= i < coords.len(),
        0 <= j <= coords.len(),
    ensures
        slot_count(
            grid_of(Size::Standard(v), |r: int, c: int| covered_with(coords, i, j, r, c)),
            Size::Standard(v),
        ) == cells_with(coords.len() as int, i, j),
    decreases j,
{
    let size = Size::Standard(v);
    let dim = 4 * v + 17;
    let n = coords.len() as int;
    let now = grid_of(size, |r: int, c: int| covered_with(coords, i, j, r, c));
    if j == 0 {
        assert forall|r: int, c: int| on_walk(size, r, c) implies !#[trigger] marked(
            now,
            size,
            r,
            c,
        ) by {}
        lemma_count_of_nothing(now, size);
    } else {
        let before = grid_of(size, |r: int, c: int| covered_with(coords, i, j - 1, r, c));
        lemma_count_with(coords, v, i, j - 1);
        if is_finder_corner(n, i, j - 1) {
            assert forall|r: int, c: int| on_walk(size, r, c) implies (#[trigger] marked(
                now,
                size,
                r,
                c,
            ) <==> marked(before, size, r, c)) by {}
            lemma_count_of_same(now, before, size);
        } else {
            let top = coords[j - 1] - 2;
            let left = coords[i] - 2;
            let pattern = grid_of(size, |r: int, c: int| in_rect(top, left, 5, 5, r, c));
            lemma_spacing(coords, dim, 0, i);
            lemma_spacing(coords, dim, 0, j - 1);
            lemma_spacing(coords, dim, i, n - 1);
            lemma_spacing(coords, dim, j - 1, n - 1);
            assert forall|r: int, c: int| on_walk(size, r, c) implies (#[trigger] marked(
                pattern,
                size,
                r,
                c,
            ) <==> in_rect(top, left, 5, 5, r, c)) by {}
            lemma_count_of_rect(pattern, size, top, left, 5, 5);
            assert(splits_into(now, before, pattern, size)) by {
                assert forall|r: int, c: int| on_walk(size, r, c) implies (#[trigger] marked(
                    now,
                    size,
                    r,
                    c,
                ) <==> marked(before, size, r, c) || marked(pattern, size, r, c)) && !(marked(
                    before,
                    size,
                    r,
                    c,
                ) && marked(pattern, size, r, c)) by {
                    if covered_with(coords, i, j - 1, r, c) {
                        lemma_covered_with_bounds(coords, dim, i, j - 1, r, c);
                        lemma_spacing(coords, dim, j - 2, j - 1);
                    }
                }
            }
            lemma_count_splits(now, before, pattern, size);
            if i > 0 {
                lemma_spacing(coords, dim, 0, i);
            }
        }
    }
}

proof fn lemma_count_upto(coords: Seq<i32>, v: u8, i: int)
    requires
        1 <= v <= 40,
        well_placed(coords, 4 * v + 17),
        0 <= i <= coords.len(),
    ensures
        slot_count(
            grid_of(Size::Standard(v), |r: int, c: int| covered_upto(coords, i, r, c)),
            Size::Standard(v),
        ) == cells_upto(coords.len() as int, i),
    decreases i,
{
    let size = Size::Standard(v);
    let dim = 4 * v + 17;
    let n = coords.len() as int;
    let now = grid_of(size, |r: int, c: int| covered_upto(coords, i, r, c));
    if i == 0 {
        assert forall|r: int, c: int| on_walk(size, r, c) implies !#[trigger] marked(
            now,
            size,
            r,
            c,
        ) by {}
        lemma_count_of_nothing(now, size);
    } else {
        let before = grid_of(size, |r: int, c: int| covered_upto(coords, i - 1, r, c));
        let column = grid_of(size, |r: int, c: int| covered_with(coords, i - 1, n, r, c));
        lemma_count_upto(coords, v, i - 1);
        lemma_count_with(coords, v, i - 1, n);
        assert(splits_into(now, before, column, size)) by {
            assert forall|r: int, c: int| on_walk(size, r, c) implies (#[trigger] marked(
                now,
                size,
                r,
                c,
            ) <==> marked(before, size, r, c) || marked(column, size, r, c)) && !(marked(
                before,
                size,
                r,
                c,
            ) && marked(column, size, r, c)) by {
                if covered_upto(coords, i - 1, r, c) && covered_with(coords, i - 1, n, r, c) {
                    lemma_covered_upto_bounds(coords, dim, i - 1, r, c);
                    lemma_covered_with_bounds(coords, dim, i - 1, n, r, c);
                    lemma_spacing(coords, dim, i - 2, i - 1);
                }
            }
        }
        lemma_count_splits(now, before, column, size);
    }
}

/// Whether the cell in column `c` of row 6 lies in one of the alignment
/// patterns on that row whose centre has one of the first `i` column
/// coordinates.
pub open spec fn band(coords: Seq<i32>, i: int, c: int) -> bool
    decreases i,
{
    i > 0 && ((!is_finder_corner(coords.len() as int, i - 1, 0) && near(coords[i - 1], c)) || band(
        coords,
        i - 1,
        c,
    ))
}

/// Number of cells of row 6 in those alignment patterns: five each.
pub open spec fn band_cells(n: int, i: int) -> int
    decreases i,
{
    if i <= 0 {
        0
    } else {
        band_cells(n, i - 1) + if is_finder_corner(n, i - 1, 0) {
            0int
        } else {
            5int
        }
    }
}

proof fn lemma_covered_with_in_row6(coords: Seq<i32>, dim: int, i: int, j: int, c: int)
    requires
        well_placed(coords, dim),
        0 <= i < coords.len(),
        0 <= j <= coords.len(),
    ensures
        covered_with(coords, i, j, 6, c) <==> j >= 1 && !is_finder_corner(
            coords.len() as int,
            i,
            0,
        ) && near(coords[i], c),
    decreases j,
{
    if j > 0 {
        lemma_covered_with_in_row6(coords, dim, i, j - 1, c);
        lemma_spacing_low(coords, dim, j - 1);
    }
}

proof fn lemma_covered_upto_in_row6(coords: Seq<i32>, dim: int, i: int, c: int)
    requires
        well_placed(coords, dim),
        0 <= i <= coords.len(),
    ensures
        covered_upto(coords, i, 6, c) <==> band(coords, i, c),
    decreases i,
{
    if i > 0 {
        lemma_covered_upto_in_row6(coords, dim, i - 1, c);
        lemma_covered_with_in_row6(coords, dim, i - 1, coords.len() as int, c);
    }
}

proof fn lemma_band_bounds(coords: Seq<i32>, dim: int, i: int, c: int)
    requires
        well_placed(coords, dim),
        0 <= i <= coords.len(),
        band(coords, i, c),
    ensures
        i >= 2,
        16 <= c <= coords[i - 1] + 2,
        c <= dim - 17,
    decreases i,
{
    if !is_finder_corner(coords.len() as int, i - 1, 0) && near(coords[i - 1], c) {
        lemma_spacing_low(coords, dim, i - 1);
        lemma_spacing_high(coords, dim, i - 1);
    } else {
        lemma_band_bounds(coords, dim, i - 1, c);
        lemma_spacing(coords, dim, i - 2, i - 1);
    }
}

proof fn lemma_count_band(coords: Seq<i32>, v: u8, i: int)
    requires
        1 <= v <= 40,
        well_placed(coords, 4 * v + 17),
        0 <= i <= coords.len(),
    ensures
        slot_count(
            grid_of(Size::Standard(v), |r: int, c: int| r == 6 && band(coords, i, c)),
            Size::Standard(v),
        ) == band_cells(coords.len() as int, i),
    decreases i,
{
    let size = Size::Standard(v);
    let dim = 4 * v + 17;
    let n = coords.len() as int;
    let now = grid_of(size, |r: int, c: int| r == 6 && band(coords, i, c));
    if i == 0 {
        assert forall|r: int, c: int| on_walk(size, r, c) implies !#[trigger] marked(
            now,
            size,
            r,
            c,
        ) by {}
        lemma_count_of_nothing(now, size);
    } else {
        let before = grid_of(size, |r: int, c: int| r == 6 && band(coords, i - 1, c));
        lemma_count_band(coords, v, i - 1);
        if is_finder_corner(n, i - 1, 0) {
            assert forall|r: int, c: int| on_walk(size, r, c) implies (#[trigger] marked(
                now,
                size,
                r,
                c,
            ) <==> marked(before, size, r, c)) by {}
            lemma_count_of_same(now, before, size);
        } else {
            let left = coords[i - 1] - 2;
            let piece = grid_of(size, |r: int, c: int| in_rect(6, left, 1, 5, r, c));
            lemma_spacing_low(coords, dim, i - 1);
            lemma_spacing_high(coords, dim, i - 1);
            assert forall|r: int, c: int| on_walk(size, r, c) implies (#[trigger] marked(
                piece,
                size,
                r,
                c,
            ) <==> in_rect(6, left, 1, 5, r, c)) by {}
            lemma_count_of_rect(piece, size, 6, left, 1, 5);
            assert(splits_into(now, before, piece, size)) by {
                assert forall|r: int, c: int| on_walk(size, r, c) implies (#[trigger] marked(
                    now,
                    size,
                    r,
                    c,
                ) <==> marked(before, size, r, c) || marked(piece, size, r, c)) && !(marked(
                    before,
                    size,
                    r,
                    c,
                ) && marked(piece, size, r, c)) by {
                    if band(coords, i - 1, c) {
                        lemma_band_bounds(coords, dim, i - 1, c);
                        lemma_spacing(coords, dim, i - 2, i - 1);
                    }
                }
            }
            lemma_count_splits(now, before, piece, size);
        }
    }
}

proof fn lemma_witness_with(coords: Seq<i32>, i: int, j: int, r: int, c: int) -> (k: int)
    requires
        covered_with(coords, i, j, r, c),
    ensures
        0 <= k < j,
        !is_finder_corner(coords.len() as int, i, k),
        near(coords[i], c),
        near(coords[k], r),
    decreases j,
{
    if !is_finder_corner(coords.len() as int, i, j - 1) && near(coords[i], c) && near(
        coords[j - 1],
        r,
    ) {
        j - 1
    } else {
        lemma_witness_with(coords, i, j - 1, r, c)
    }
}

proof fn lemma_witness(coords: Seq<i32>, i: int, r: int, c: int) -> (w: (int, int))
    requires
        covered_upto(coords, i, r, c),
    ensures
        0 <= w.0 < i,
        0 <= w.1 < coords.len(),
        !is_finder_corner(coords.len() as int, w.0, w.1),
        near(coords[w.0], c),
        near(coords[w.1], r),
    decreases i,
{
    if covered_with(coords, i - 1, coords.len() as int, r, c) {
        let k = lemma_witness_with(coords, i - 1, coords.len() as int, r, c);
        (i - 1, k)
    } else {
        lemma_witness(coords, i - 1, r, c)
    }
}

/// The alignment patterns keep clear of the corners with the finder
/// patterns and of the version information.
proof fn lemma_covered_keeps_clear(coords: Seq<i32>, dim: int, r: int, c: int)
    requires
        well_placed(coords, dim),
        covered_upto(coords, coords.len() as int, r, c),
    ensures
        !(r <= 8 && c <= 8),
        !(r <= 8 && c >= dim - 11),
        !(c <= 8 && r >= dim - 11),
        4 <= r <= dim - 5,
        4 <= c <= dim - 5,
{
    let n = coords.len() as int;
    let w = lemma_witness(coords, n, r, c);
    lemma_spacing_low(coords, dim, w.0);
    lemma_spacing_low(coords, dim, w.1);
    lemma_spacing_high(coords, dim, w.0);
    lemma_spacing_high(coords, dim, w.1);
}

/// The coordinates of the alignment patterns of every version from 2 on
/// are well placed, and there are two of them and one more for every seven
/// versions.
proof fn lemma_coords_well_placed(v: u8)
    requires
        2 <= v <= 40,
    ensures
        well_placed(alignment_coords(v), 4 * v + 17),
        alignment_coords(v).len() == coordinate_count(v),
{
    if v == 2 {
        assert(well_placed(alignment_coords(2), 25));
    } else if v == 3 {
        assert(well_placed(alignment_coords(3), 29));
    } else if v == 4 {
        assert(well_placed(alignment_coords(4), 33));
    } else if v == 5 {
        assert(well_placed(alignment_coords(5), 37));
    } else if v == 6 {
        assert(well_placed(alignment_coords(6), 41));
    } else if v == 7 {
        assert(well_placed(alignment_coords(7), 45));
    } else if v == 8 {
        assert(well_placed(alignment_coords(8), 49));
    } else if v == 9 {
        assert(well_placed(alignment_coords(9), 53));
    } else if v == 10 {
        assert(well_placed(alignment_coords(10), 57));
    } else if v == 11 {
        assert(well_placed(alignment_coords(11), 61));
    } else if v == 12 {
        assert(well_placed(alignment_coords(12), 65));
    } else if v == 13 {
        assert(well_placed(alignment_coords(13), 69));
    } else if v == 14 {
        assert(well_placed(alignment_coords(14), 73));
    } else if v == 15 {
        assert(well_placed(alignment_coords(15), 77));
    } else if v == 16 {
        assert(well_placed(alignment_coords(16), 81));
    } else if v == 17 {
        assert(well_placed(alignment_coords(17), 85));
    } else if v == 18 {
        assert(well_placed(alignment_coords(18), 89));
    } else if v == 19 {
        assert(well_placed(alignment_coords(19), 93));
    } else if v == 20 {
        assert(well_placed(alignment_coords(20), 97));
    } else if v == 21 {
        assert(well_placed(alignment_coords(21), 101));
    } else if v == 22 {
        assert(well_placed(alignment_coords(22), 105));
    } else if v == 23 {
        assert(well_placed(alignment_coords(23), 109));
    } else if v == 24 {
        assert(well_placed(alignment_coords(24), 113));
    } else if v == 25 {
        assert(well_placed(alignment_coords(25), 117));
    } else if v == 26 {
        assert(well_placed(alignment_coords(26), 121));
    } else if v == 27 {
        assert(well_placed(alignment_coords(27), 125));
    } else if v == 28 {
        assert(well_placed(alignment_coords(28), 129));
    } else if v == 29 {
        assert(well_placed(alignment_coords(29), 133));
    } else if v == 30 {
        assert(well_placed(alignment_coords(30), 137));
    } else if v == 31 {
        assert(well_placed(alignment_coords(31), 141));
    } else if v == 32 {
        assert(well_placed(alignment_coords(32), 145));
    } else if v == 33 {
        assert(well_placed(alignment_coords(33), 149));
    } else if v == 34 {
        assert(well_placed(alignment_coords(34), 153));
    } else if v == 35 {
        assert(well_placed(alignment_coords(35), 157));
    } else if v == 36 {
        assert(well_placed(alignment_coords(36), 161));
    } else if v == 37 {
        assert(well_placed(alignment_coords(37), 165));
    } else if v == 38 {
        assert(well_placed(alignment_coords(38), 169));
    } else if v == 39 {
        assert(well_placed(alignment_coords(39), 173));
    } else if v == 40 {
        assert(well_placed(alignment_coords(40), 177));
    }
}

proof fn lemma_pattern_cells(n: int)
    requires
        2 <= n <= 7,
    ensures
        cells_upto(n, n) == 25 * n * n - 5 * n - 65,
        band_cells(n, n) == 5 * (n - 2),
{
    reveal_with_fuel(cells_with, 8);
    reveal_with_fuel(cells_upto, 8);
    reveal_with_fuel(band_cells, 8);
    if n == 2 {
        assert(cells_upto(2, 2) == 25);
    } else if n == 3 {
        assert(cells_upto(3, 3) == 145);
    } else if n == 4 {
        assert(cells_upto(4, 4) == 315);
    } else if n == 5 {
        assert(cells_upto(5, 5) == 535);
    } else if n == 6 {
        assert(cells_upto(6, 6) == 805);
    } else {
        assert(cells_upto(7, 7) == 1125);
    }
}

proof fn lemma_standard_cells(v: u8)
    requires
        1 <= v <= 40,
    ensures
        slot_count(blank_grid(Size::Standard(v)), Size::Standard(v)) == encoding_region_cells(
            Size::Standard(v),
        ),
{
    let size = Size::Standard(v);
    let dim = size.interior();
    let coords = alignment_coords(v);
    let n = coords.len() as int;
    let points = alignment_points(coords);
    let blank = blank_grid(size);
    if v >= 2 {
        lemma_coords_well_placed(v);
        lemma_pattern_cells(n);
        lemma_count_upto(coords, v, n);
        lemma_count_band(coords, v, n);
    }
    let all = grid_of(size, |r: int, c: int| true);
    let first = grid_of(size, |r: int, c: int| in_rect(0, 0, 9, 9, r, c));
    let second = grid_of(size, |r: int, c: int| in_rect(0, dim - 8, 9, 8, r, c));
    let third = grid_of(size, |r: int, c: int| in_rect(dim - 8, 0, 8, 9, r, c));
    let version_right = grid_of(size, |r: int, c: int| v >= 7 && in_rect(0, dim - 11, 6, 3, r, c));
    let version_left = grid_of(size, |r: int, c: int| v >= 7 && in_rect(dim - 11, 0, 3, 6, r, c));
    let timing = grid_of(size, |r: int, c: int| in_rect(6, 9, 1, dim - 17, r, c));
    let patterns = grid_of(size, |r: int, c: int| v >= 2 && covered_upto(coords, n, r, c));
    let crossing = grid_of(size, |r: int, c: int| v >= 2 && r == 6 && band(coords, n, c));
    let timing_alone = grid_of(
        size,
        |r: int, c: int|
            in_rect(6, 9, 1, dim - 17, r, c) && !(v >= 2 && covered_upto(coords, n, r, c)),
    );
    let corners = grid_of(
        size,
        |r: int, c: int| in_rect(0, 0, 9, 9, r, c) || in_rect(0, dim - 8, 9, 8, r, c),
    );
    let finders = grid_of(
        size,
        |r: int, c: int|
            in_rect(0, 0, 9, 9, r, c) || in_rect(0, dim - 8, 9, 8, r, c) || in_rect(
                dim - 8,
                0,
                8,
                9,
                r,
                c,
            ),
    );
    let with_right = grid_of(
        size,
        |r: int, c: int|
            in_rect(0, 0, 9, 9, r, c) || in_rect(0, dim - 8, 9, 8, r, c) || in_rect(
                dim - 8,
                0,
                8,
                9,
                r,
                c,
            ) || (v >= 7 && in_rect(0, dim - 11, 6, 3, r, c)),
    );
    let with_versions = grid_of(
        size,
        |r: int, c: int|
            in_rect(0, 0, 9, 9, r, c) || in_rect(0, dim - 8, 9, 8, r, c) || in_rect(
                dim - 8,
                0,
                8,
                9,
                r,
                c,
            ) || (v >= 7 && in_rect(0, dim - 11, 6, 3, r, c)) || (v >= 7 && in_rect(
                dim - 11,
                0,
                3,
                6,
                r,
                c,
            )),
    );
    let with_patterns = grid_of(
        size,
        |r: int, c: int|
            in_rect(0, 0, 9, 9, r, c) || in_rect(0, dim - 8, 9, 8, r, c) || in_rect(
                dim - 8,
                0,
                8,
                9,
                r,
                c,
            ) || (v >= 7 && in_rect(0, dim - 11, 6, 3, r, c)) || (v >= 7 && in_rect(
                dim - 11,
                0,
                3,
                6,
                r,
                c,
            )) || (v >= 2 && covered_upto(coords, n, r, c)),
    );
    let functional = grid_of(
        size,
        |r: int, c: int|
            in_rect(0, 0, 9, 9, r, c) || in_rect(0, dim - 8, 9, 8, r, c) || in_rect(
                dim - 8,
                0,
                8,
                9,
                r,
                c,
            ) || (v >= 7 && in_rect(0, dim - 11, 6, 3, r, c)) || (v >= 7 && in_rect(
                dim - 11,
                0,
                3,
                6,
                r,
                c,
            )) || (v >= 2 && covered_upto(coords, n, r, c)) || in_rect(6, 9, 1, dim - 17, r, c),
    );
    // the cells of each part
    assert forall|r: int, c: int| on_walk(size, r, c) implies (#[trigger] marked(all, size, r, c)
        <==> in_rect(0, 0, dim, dim, r, c)) by {}
    lemma_count_of_rect(all, size, 0, 0, dim, dim);
    assert forall|r: int, c: int| on_walk(size, r, c) implies (#[trigger] marked(
        first,
        size,
        r,
        c,
    ) <==> in_rect(0, 0, 9, 9, r, c)) by {}
    lemma_count_of_rect(first, size, 0, 0, 9, 9);
    assert forall|r: int, c: int| on_walk(size, r, c) implies (#[trigger] marked(
        second,
        size,
        r,
        c,
    ) <==> in_rect(0, dim - 8, 9, 8, r, c)) by {}
    lemma_count_of_rect(second, size, 0, dim - 8, 9, 8);
    assert forall|r: int, c: int| on_walk(size, r, c) implies (#[trigger] marked(
        third,
        size,
        r,
        c,
    ) <==> in_rect(dim - 8, 0, 8, 9, r, c)) by {}
    lemma_count_of_rect(third, size, dim - 8, 0, 8, 9);
    assert forall|r: int, c: int| on_walk(size, r, c) implies (#[trigger] marked(
        timing,
        size,
        r,
        c,
    ) <==> in_rect(6, 9, 1, dim - 17, r, c)) by {}
    lemma_count_of_rect(timing, size, 6, 9, 1, dim - 17);
    if v >= 7 {
        assert forall|r: int, c: int| on_walk(size, r, c) implies (#[trigger] marked(
            version_right,
            size,
            r,
            c,
        ) <==> in_rect(0, dim - 11, 6, 3, r, c)) by {}
        lemma_count_of_rect(version_right, size, 0, dim - 11, 6, 3);
        assert forall|r: int, c: int| on_walk(size, r, c) implies (#[trigger] marked(
            version_left,
            size,
            r,
            c,
        ) <==> in_rect(dim - 11, 0, 3, 6, r, c)) by {}
        lemma_count_of_rect(version_left, size, dim - 11, 0, 3, 6);
    } else {
        assert forall|r: int, c: int| on_walk(size, r, c) implies !#[trigger] marked(
            version_right,
            size,
            r,
            c,
        ) by {}
        lemma_count_of_nothing(version_right, size);
        assert forall|r: int, c: int| on_walk(size, r, c) implies !#[trigger] marked(
            version_left,
            size,
            r,
            c,
        ) by {}
        lemma_count_of_nothing(version_left, size);
    }
    if v >= 2 {
        let covered = grid_of(size, |r: int, c: int| covered_upto(coords, n, r, c));
        assert forall|r: int, c: int| on_walk(size, r, c) implies (#[trigger] marked(
            patterns,
            size,
            r,
            c,
        ) <==> marked(covered, size, r, c)) by {}
        lemma_count_of_same(patterns, covered, size);
        let in_band = grid_of(size, |r: int, c: int| r == 6 && band(coords, n, c));
        assert forall|r: int, c: int| on_walk(size, r, c) implies (#[trigger] marked(
            crossing,
            size,
            r,
            c,
        ) <==> marked(in_band, size, r, c)) by {}
        lemma_count_of_same(crossing, in_band, size);
    } else {
        assert forall|r: int, c: int| on_walk(size, r, c) implies !#[trigger] marked(
            patterns,
            size,
            r,
            c,
        ) by {}
        lemma_count_of_nothing(patterns, size);
        assert forall|r: int, c: int| on_walk(size, r, c) implies !#[trigger] marked(
            crossing,
            size,
            r,
            c,
        ) by {}
        lemma_count_of_nothing(crossing, size);
    }
    // the timing pattern is made up of its cells in alignment patterns and
    // of the others
    assert(splits_into(timing, timing_alone, crossing, size)) by {
        assert forall|r: int, c: int| on_walk(size, r, c) implies (#[trigger] marked(
            timing,
            size,
            r,
            c,
        ) <==> marked(timing_alone, size, r, c) || marked(crossing, size, r, c)) && !(marked(
            timing_alone,
            size,
            r,
            c,
        ) && marked(crossing, size, r, c)) by {
            if v >= 2 {
                lemma_covered_upto_in_row6(coords, dim, n, c);
                if band(coords, n, c) {
                    lemma_band_bounds(coords, dim, n, c);
                }
            }
        }
    }
    lemma_count_splits(timing, timing_alone, crossing, size);
    // the parts lie apart from each other
    assert(splits_into(corners, first, second, size)) by {
        assert forall|r: int, c: int| on_walk(size, r, c) implies (#[trigger] marked(
            corners,
            size,
            r,
            c,
        ) <==> marked(first, size, r, c) || marked(second, size, r, c)) && !(marked(
            first,
            size,
            r,
            c,
        ) && marked(second, size, r, c)) by {}
    }
    lemma_count_splits(corners, first, second, size);
    assert(splits_into(finders, corners, third, size)) by {
        assert forall|r: int, c: int| on_walk(size, r, c) implies (#[trigger] marked(
            finders,
            size,
            r,
            c,
        ) <==> marked(corners, size, r, c) || marked(third, size, r, c)) && !(marked(
            corners,
            size,
            r,
            c,
        ) && marked(third, size, r, c)) by {}
    }
    lemma_count_splits(finders, corners, third, size);
    assert(splits_into(with_right, finders, version_right, size)) by {
        assert forall|r: int, c: int| on_walk(size, r, c) implies (#[trigger] marked(
            with_right,
            size,
            r,
            c,
        ) <==> marked(finders, size, r, c) || marked(version_right, size, r, c)) && !(marked(
            finders,
            size,
            r,
            c,
        ) && marked(version_right, size, r, c)) by {}
    }
    lemma_count_splits(with_right, finders, version_right, size);
    assert(splits_into(with_versions, with_right, version_left, size)) by {
        assert forall|r: int, c: int| on_walk(size, r, c) implies (#[trigger] marked(
            with_versions,
            size,
            r,
            c,
        ) <==> marked(with_right, size, r, c) || marked(version_left, size, r, c)) && !(marked(
            with_right,
            size,
            r,
            c,
        ) && marked(version_left, size, r, c)) by {}
    }
    lemma_count_splits(with_versions, with_right, version_left, size);
    assert(splits_into(with_patterns, with_versions, patterns, size)) by {
        assert forall|r: int, c: int| on_walk(size, r, c) implies (#[trigger] marked(
            with_patterns,
            size,
            r,
            c,
        ) <==> marked(with_versions, size, r, c) || marked(patterns, size, r, c)) && !(marked(
            with_versions,
            size,
            r,
            c,
        ) && marked(patterns, size, r, c)) by {
            if v >= 2 && covered_upto(coords, n, r, c) {
                lemma_covered_keeps_clear(coords, dim, r, c);
            }
        }
    }
    lemma_count_splits(with_patterns, with_versions, patterns, size);
    assert(splits_into(functional, with_patterns, timing_alone, size)) by {
        assert forall|r: int, c: int| on_walk(size, r, c) implies (#[trigger] marked(
            functional,
            size,
            r,
            c,
        ) <==> marked(with_patterns, size, r, c) || marked(timing_alone, size, r, c)) && !(marked(
            with_patterns,
            size,
            r,
            c,
        ) && marked(timing_alone, size, r, c)) by {}
    }
    lemma_count_splits(functional, with_patterns, timing_alone, size);
    // what is left is the encoding region
    assert(splits_into(all, blank, functional, size)) by {
        assert forall|r: int, c: int| on_walk(size, r, c) implies (#[trigger] marked(
            all,
            size,
            r,
            c,
        ) <==> marked(blank, size, r, c) || marked(functional, size, r, c)) && !(marked(
            blank,
            size,
            r,
            c,
        ) && marked(functional, size, r, c)) by {
            assert(blank[size.quiet() + r][size.quiet() + c] == blank_module(
                size,
                size.quiet() + c,
                size.quiet() + r,
            ));
            assert(blank_module(size, size.quiet() + c, size.quiet() + r) == standard_module(
                v,
                r,
                c,
            ));
            lemma_points_cover(coords, n, r, c);
            lemma_alignment_at_is_light_or_dark(points, points.len() as int, r, c);
            if v >= 2 && covered_upto(coords, n, r, c) {
                lemma_covered_keeps_clear(coords, dim, r, c);
            }
        }
    }
    lemma_count_splits(all, blank, functional, size);
}

/// The walk finds as many cells of the encoding region on the blank
/// canvas of a symbol as the symbol has cells beside its functional
/// patterns and its format and version information.
pub proof fn lemma_blank_slot_count(size: Size)
    requires
        size.valid(),
    ensures
        slot_count(blank_grid(size), size) == encoding_region_cells(size),
{
    match size {
        Size::Micro(k) => {
            lemma_micro_cells(k);
        },
        Size::Standard(v) => {
            lemma_standard_cells(v);
        },
    }
}

/// Number of cells of the encoding region that are left when all
/// codewords are placed.
pub open spec fn remainder_bits(size: Size) -> int {
    match size {
        Size::Micro(_) => 0,
        Size::Standard(v) => if v == 1 {
            0
        } else if v <= 6 {
            7
        } else if v <= 13 {
            0
        } else if v <= 20 {
            3
        } else if v <= 27 {
            4
        } else if v <= 34 {
            3
        } else {
            0
        },
    }
}

proof fn lemma_region_values_1_to_4()
    ensures
        standard_region_cells(1, 21, 2) == 208,
        standard_region_cells(2, 25, 2) == 359,
        standard_region_cells(3, 29, 2) == 567,
        standard_region_cells(4, 33, 2) == 807,
{
}

proof fn lemma_region_of_versions_1_to_4(v: u8)
    requires
        1 <= v <= 4,
    ensures
        encoding_region_cells(Size::Standard(v)) == 8 * symbol_codewords(Size::Standard(v))
            + remainder_bits(Size::Standard(v)),
{
    lemma_region_values_1_to_4();
    if v == 1 {
        assert(encoding_region_cells(Size::Standard(1)) == standard_region_cells(1, 21, 2));
    } else if v == 2 {
        assert(encoding_region_cells(Size::Standard(2)) == standard_region_cells(2, 25, 2));
    } else if v == 3 {
        assert(encoding_region_cells(Size::Standard(3)) == standard_region_cells(3, 29, 2));
    } else if v == 4 {
        assert(encoding_region_cells(Size::Standard(4)) == standard_region_cells(4, 33, 2));
    }
}

proof fn lemma_region_values_5_to_8()
    ensures
        standard_region_cells(5, 37, 2) == 1079,
        standard_region_cells(6, 41, 2) == 1383,
        standard_region_cells(7, 45, 3) == 1568,
        standard_region_cells(8, 49, 3) == 1936,
{
}

proof fn lemma_region_of_versions_5_to_8(v: u8)
    requires
        5 <= v <= 8,
    ensures
        encoding_region_cells(Size::Standard(v)) == 8 * symbol_codewords(Size::Standard(v))
            + remainder_bits(Size::Standard(v)),
{
    lemma_region_values_5_to_8();
    if v == 5 {
        assert(encoding_region_cells(Size::Standard(5)) == standard_region_cells(5, 37, 2));
    } else if v == 6 {
        assert(encoding_region_cells(Size::Standard(6)) == standard_region_cells(6, 41, 2));
    } else if v == 7 {
        assert(encoding_region_cells(Size::Standard(7)) == standard_region_cells(7, 45, 3));
    } else if v == 8 {
        assert(encoding_region_cells(Size::Standard(8)) == standard_region_cells(8, 49, 3));
    }
}

proof fn lemma_region_values_9_to_12()
    ensures
        standard_region_cells(9, 53, 3) == 2336,
        standard_region_cells(10, 57, 3) == 2768,
        standard_region_cells(11, 61, 3) == 3232,
        standard_region_cells(12, 65, 3) == 3728,
{
}

proof fn lemma_region_of_versions_9_to_12(v: u8)
    requires
        9 <= v <= 12,
    ensures
        encoding_region_cells(Size::Standard(v)) == 8 * symbol_codewords(Size::Standard(v))
            + remainder_bits(Size::Standard(v)),
{
    lemma_region_values_9_to_12();
    if v == 9 {
        assert(encoding_region_cells(Size::Standard(9)) == standard_region_cells(9, 53, 3));
    } else if v == 10 {
        assert(encoding_region_cells(Size::Standard(10)) == standard_region_cells(10, 57, 3));
    } else if v == 11 {
        assert(encoding_region_cells(Size::Standard(11)) == standard_region_cells(11, 61, 3));
    } else if v == 12 {
        assert(encoding_region_cells(Size::Standard(12)) == standard_region_cells(12, 65, 3));
    }
}

proof fn lemma_region_values_13_to_16()
    ensures
        standard_region_cells(13, 69, 3) == 4256,
        standard_region_cells(14, 73, 4) == 4651,
        standard_region_cells(15, 77, 4) == 5243,
        standard_region_cells(16, 81, 4) == 5867,
{
}

proof fn lemma_region_of_versions_13_to_16(v: u8)
    requires
        13 <= v <= 16,
    ensures
        encoding_region_cells(Size::Standard(v)) == 8 * symbol_codewords(Size::Standard(v))
            + remainder_bits(Size::Standard(v)),
{
    lemma_region_values_13_to_16();
    if v == 13 {
        assert(encoding_region_cells(Size::Standard(13)) == standard_region_cells(13, 69, 3));
    } else if v == 14 {
        assert(encoding_region_cells(Size::Standard(14)) == standard_region_cells(14, 73, 4));
    } else if v == 15 {
        assert(encoding_region_cells(Size::Standard(15)) == standard_region_cells(15, 77, 4));
    } else if v == 16 {
        assert(encoding_region_cells(Size::Standard(16)) == standard_region_cells(16, 81, 4));
    }
}

proof fn lemma_region_values_17_to_20()
    ensures
        standard_region_cells(17, 85, 4) == 6523,
        standard_region_cells(18, 89, 4) == 7211,
        standard_region_cells(19, 93, 4) == 7931,
        standard_region_cells(20, 97, 4) == 8683,
{
}

proof fn lemma_region_of_versions_17_to_20(v: u8)
    requires
        17 <= v <= 20,
    ensures
        encoding_region_cells(Size::Standard(v)) == 8 * symbol_codewords(Size::Standard(v))
            + remainder_bits(Size::Standard(v)),
{
    lemma_region_values_17_to_20();
    if v == 17 {
        assert(encoding_region_cells(Size::Standard(17)) == standard_region_cells(17, 85, 4));
    } else if v == 18 {
        assert(encoding_region_cells(Size::Standard(18)) == standard_region_cells(18, 89, 4));
    } else if v == 19 {
        assert(encoding_region_cells(Size::Standard(19)) == standard_region_cells(19, 93, 4));
    } else if v == 20 {
        assert(encoding_region_cells(Size::Standard(20)) == standard_region_cells(20, 97, 4));
    }
}

proof fn lemma_region_values_21_to_24()
    ensures
        standard_region_cells(21, 101, 5) == 9252,
        standard_region_cells(22, 105, 5) == 10068,
        standard_region_cells(23, 109, 5) == 10916,
        standard_region_cells(24, 113, 5) == 11796,
{
}

proof fn lemma_region_of_versions_21_to_24(v: u8)
    requires
        21 <= v <= 24,
    ensures
        encoding_region_cells(Size::Standard(v)) == 8 * symbol_codewords(Size::Standard(v))
            + remainder_bits(Size::Standard(v)),
{
    lemma_region_values_21_to_24();
    if v == 21 {
        assert(encoding_region_cells(Size::Standard(21)) == standard_region_cells(21, 101, 5));
    } else if v == 22 {
        assert(encoding_region_cells(Size::Standard(22)) == standard_region_cells(22, 105, 5));
    } else if v == 23 {
        assert(encoding_region_cells(Size::Standard(23)) == standard_region_cells(23, 109, 5));
    } else if v == 24 {
        assert(encoding_region_cells(Size::Standard(24)) == standard_region_cells(24, 113, 5));
    }
}

proof fn lemma_region_values_25_to_28()
    ensures
        standard_region_cells(25, 117, 5) == 12708,
        standard_region_cells(26, 121, 5) == 13652,
        standard_region_cells(27, 125, 5) == 14628,
        standard_region_cells(28, 129, 6) == 15371,
{
}

proof fn lemma_region_of_versions_25_to_28(v: u8)
    requires
        25 <= v <= 28,
    ensures
        encoding_region_cells(Size::Standard(v)) == 8 * symbol_codewords(Size::Standard(v))
            + remainder_bits(Size::Standard(v)),
{
    lemma_region_values_25_to_28();
    if v == 25 {
        assert(encoding_region_cells(Size::Standard(25)) == standard_region_cells(25, 117, 5));
    } else if v == 26 {
        assert(encoding_region_cells(Size::Standard(26)) == standard_region_cells(26, 121, 5));
    } else if v == 27 {
        assert(encoding_region_cells(Size::Standard(27)) == standard_region_cells(27, 125, 5));
    } else if v == 28 {
        assert(encoding_region_cells(Size::Standard(28)) == standard_region_cells(28, 129, 6));
    }
}

proof fn lemma_region_values_29_to_32()
    ensures
        standard_region_cells(29, 133, 6) == 16411,
        standard_region_cells(30, 137, 6) == 17483,
        standard_region_cells(31, 141, 6) == 18587,
        standard_region_cells(32, 145, 6) == 19723,
{
}

proof fn lemma_region_of_versions_29_to_32(v: u8)
    requires
        29 <= v <= 32,
    ensures
        encoding_region_cells(Size::Standard(v)) == 8 * symbol_codewords(Size::Standard(v))
            + remainder_bits(Size::Standard(v)),
{
    lemma_region_values_29_to_32();
    if v == 29 {
        assert(encoding_region_cells(Size::Standard(29)) == standard_region_cells(29, 133, 6));
    } else if v == 30 {
        assert(encoding_region_cells(Size::Standard(30)) == standard_region_cells(30, 137, 6));
    } else if v == 31 {
        assert(encoding_region_cells(Size::Standard(31)) == standard_region_cells(31, 141, 6));
    } else if v == 32 {
        assert(encoding_region_cells(Size::Standard(32)) == standard_region_cells(32, 145, 6));
    }
}

proof fn lemma_region_values_33_to_36()
    ensures
        standard_region_cells(33, 149, 6) == 20891,
        standard_region_cells(34, 153, 6) == 22091,
        standard_region_cells(35, 157, 7) == 23008,
        standard_region_cells(36, 161, 7) == 24272,
{
}

proof fn lemma_region_of_versions_33_to_36(v: u8)
    requires
        33 <= v <= 36,
    ensures
        encoding_region_cells(Size::Standard(v)) == 8 * symbol_codewords(Size::Standard(v))
            + remainder_bits(Size::Standard(v)),
{
    lemma_region_values_33_to_36();
    if v == 33 {
        assert(encoding_region_cells(Size::Standard(33)) == standard_region_cells(33, 149, 6));
    } else if v == 34 {
        assert(encoding_region_cells(Size::Standard(34)) == standard_region_cells(34, 153, 6));
    } else if v == 35 {
        assert(encoding_region_cells(Size::Standard(35)) == standard_region_cells(35, 157, 7));
    } else if v == 36 {
        assert(encoding_region_cells(Size::Standard(36)) == standard_region_cells(36, 161, 7));
    }
}

proof fn lemma_region_values_37_to_40()
    ensures
        standard_region_cells(37, 165, 7) == 25568,
        standard_region_cells(38, 169, 7) == 26896,
        standard_region_cells(39, 173, 7) == 28256,
        standard_region_cells(40, 177, 7) == 29648,
{
}

proof fn lemma_region_of_versions_37_to_40(v: u8)
    requires
        37 <= v <= 40,
    ensures
        encoding_region_cells(Size::Standard(v)) == 8 * symbol_codewords(Size::Standard(v))
            + remainder_bits(Size::Standard(v)),
{
    lemma_region_values_37_to_40();
    if v == 37 {
        assert(encoding_region_cells(Size::Standard(37)) == standard_region_cells(37, 165, 7));
    } else if v == 38 {
        assert(encoding_region_cells(Size::Standard(38)) == standard_region_cells(38, 169, 7));
    } else if v == 39 {
        assert(encoding_region_cells(Size::Standard(39)) == standard_region_cells(39, 173, 7));
    } else if v == 40 {
        assert(encoding_region_cells(Size::Standard(40)) == standard_region_cells(40, 177, 7));
    }
}

proof fn lemma_micro_region_values()
    ensures
        micro_region_cells(11) == 36,
        micro_region_cells(13) == 80,
        micro_region_cells(15) == 132,
        micro_region_cells(17) == 192,
{
}

/// The encoding region of every symbol holds the bits of its codewords,
/// eight for each but four for the last data codeword of an M1 or M3
/// symbol, and the remainder bits beside them.
pub proof fn lemma_region_holds_codewords(size: Size)
    requires
        size.valid(),
    ensures
        encoding_region_cells(size) == 8 * symbol_codewords(size) - if size.has_half_codeword() {
            4int
        } else {
            0int
        } + remainder_bits(size),
        0 <= remainder_bits(size) <= 7,
{
    match size {
        Size::Micro(k) => {
            lemma_micro_region_values();
            if k == 1 {
                assert(encoding_region_cells(Size::Micro(1)) == micro_region_cells(11));
            } else if k == 2 {
                assert(encoding_region_cells(Size::Micro(2)) == micro_region_cells(13));
            } else if k == 3 {
                assert(encoding_region_cells(Size::Micro(3)) == micro_region_cells(15));
            } else {
                assert(encoding_region_cells(Size::Micro(4)) == micro_region_cells(17));
            }
        },
        Size::Standard(v) => {
            if v <= 4 {
                lemma_region_of_versions_1_to_4(v);
            } else if v <= 8 {
                lemma_region_of_versions_5_to_8(v);
            } else if v <= 12 {
                lemma_region_of_versions_9_to_12(v);
            } else if v <= 16 {
                lemma_region_of_versions_13_to_16(v);
            } else if v <= 20 {
                lemma_region_of_versions_17_to_20(v);
            } else if v <= 24 {
                lemma_region_of_versions_21_to_24(v);
            } else if v <= 28 {
                lemma_region_of_versions_25_to_28(v);
            } else if v <= 32 {
                lemma_region_of_versions_29_to_32(v);
            } else if v <= 36 {
                lemma_region_of_versions_33_to_36(v);
            } else if v <= 40 {
                lemma_region_of_versions_37_to_40(v);
            }
        },
    }
}

} // verus!
