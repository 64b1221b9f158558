//! The blank canvas: quiet zone, finder, timing and alignment patterns, and
//! the cells reserved for format and version information.
use crate::config::Size;
use crate::serialization::canvas::{Canvas, Module};
use vstd::prelude::*;

verus! {

/// Distance between two coordinates.
pub open spec fn distance(a: int, b: int) -> int {
    if a >= b {
        a - b
    } else {
        b - a
    }
}

/// The greater of the two distances of a cell from a centre, in other words
/// the number of the square ring around the centre on which the cell lies.
pub open spec fn ring(r: int, c: int, centre_r: int, centre_c: int) -> int {
    if distance(r, centre_r) >= distance(c, centre_c) {
        distance(r, centre_r)
    } else {
        distance(c, centre_c)
    }
}

/// A module of a finder pattern with its separator, by the ring around the
/// centre on which it lies: a dark 3x3 core, a light ring, a dark ring, and
/// the light separator.
pub open spec fn finder_module(ring: int) -> Module {
    if ring <= 1 || ring == 3 {
        Module::Dark
    } else {
        Module::Light
    }
}

/// A module of an alignment pattern by its ring: dark centre, light ring,
/// dark ring.
pub open spec fn alignment_module(ring: int) -> Module {
    if ring % 2 == 0 {
        Module::Dark
    } else {
        Module::Light
    }
}

/// A module of a timing pattern by its position along the line.
pub open spec fn timing_module(t: int) -> Module {
    if t % 2 == 0 {
        Module::Dark
    } else {
        Module::Light
    }
}

/// The row and column coordinates of the alignment pattern centres of a
/// Standard symbol of version `v`.
pub open spec fn alignment_coords(v: u8) -> Seq<i32> {
    if v == 2 {
        seq![6i32, 18]
    } else if v == 3 {
        seq![6i32, 22]
    } else if v == 4 {
        seq![6i32, 26]
    } else if v == 5 {
        seq![6i32, 30]
    } else if v == 6 {
        seq![6i32, 34]
    } else if v == 7 {
        seq![6i32, 22, 38]
    } else if v == 8 {
        seq![6i32, 24, 42]
    } else if v == 9 {
        seq![6i32, 26, 46]
    } else if v == 10 {
        seq![6i32, 28, 50]
    } else if v == 11 {
        seq![6i32, 30, 54]
    } else if v == 12 {
        seq![6i32, 32, 58]
    } else if v == 13 {
        seq![6i32, 34, 62]
    } else if v == 14 {
        seq![6i32, 26, 46, 66]
    } else if v == 15 {
        seq![6i32, 26, 48, 70]
    } else if v == 16 {
        seq![6i32, 26, 50, 74]
    } else if v == 17 {
        seq![6i32, 30, 54, 78]
    } else if v == 18 {
        seq![6i32, 30, 56, 82]
    } else if v == 19 {
        seq![6i32, 30, 58, 86]
    } else if v == 20 {
        seq![6i32, 34, 62, 90]
    } else if v == 21 {
        seq![6i32, 28, 50, 72, 94]
    } else if v == 22 {
        seq![6i32, 26, 50, 74, 98]
    } else if v == 23 {
        seq![6i32, 30, 54, 78, 102]
    } else if v == 24 {
        seq![6i32, 28, 54, 80, 106]
    } else if v == 25 {
        seq![6i32, 32, 58, 84, 110]
    } else if v == 26 {
        seq![6i32, 30, 58, 86, 114]
    } else if v == 27 {
        seq![6i32, 34, 62, 90, 118]
    } else if v == 28 {
        seq![6i32, 26, 50, 74, 98, 122]
    } else if v == 29 {
        seq![6i32, 30, 54, 78, 102, 126]
    } else if v == 30 {
        seq![6i32, 26, 52, 78, 104, 130]
    } else if v == 31 {
        seq![6i32, 30, 56, 82, 108, 134]
    } else if v == 32 {
        seq![6i32, 34, 60, 86, 112, 138]
    } else if v == 33 {
        seq![6i32, 30, 58, 86, 114, 142]
    } else if v == 34 {
        seq![6i32, 34, 62, 90, 118, 146]
    } else if v == 35 {
        seq![6i32, 30, 54, 78, 102, 126, 150]
    } else if v == 36 {
        seq![6i32, 24, 50, 76, 102, 128, 154]
    } else if v == 37 {
        seq![6i32, 28, 54, 80, 106, 132, 158]
    } else if v == 38 {
        seq![6i32, 32, 58, 84, 110, 136, 162]
    } else if v == 39 {
        seq![6i32, 26, 54, 82, 110, 138, 166]
    } else if v == 40 {
        seq![6i32, 30, 58, 86, 114, 142, 170]
    } else {
        seq![6i32]
    }
}

/// Whether the pair of the coordinates number `i` and `j`, of `n`, names a
/// corner at which a finder pattern stands.
pub open spec fn is_finder_corner(n: int, i: int, j: int) -> bool {
    (i == 0 && j == 0) || (i == 0 && j == n - 1) || (i == n - 1 && j == 0)
}

/// The pairs of coordinate `i` with the first `j` coordinates, finder
/// corners left out.
pub open spec fn points_with(coords: Seq<i32>, i: int, j: int) -> Seq<(i32, i32)>
    decreases j,
{
    if j <= 0 {
        Seq::<(i32, i32)>::empty()
    } else if is_finder_corner(coords.len() as int, i, j - 1) {
        points_with(coords, i, j - 1)
    } else {
        points_with(coords, i, j - 1).push((coords[i], coords[j - 1]))
    }
}

/// The pairs of the first `i` coordinates with all coordinates, finder
/// corners left out.
pub open spec fn points_upto(coords: Seq<i32>, i: int) -> Seq<(i32, i32)>
    decreases i,
{
    if i <= 0 {
        Seq::<(i32, i32)>::empty()
    } else {
        points_upto(coords, i - 1) + points_with(coords, i - 1, coords.len() as int)
    }
}

/// The centres `(x, y)` of the alignment patterns: all pairs of
/// coordinates but the three at which finder patterns stand.
pub open spec fn alignment_points(coords: Seq<i32>) -> Seq<(i32, i32)> {
    points_upto(coords, coords.len() as int)
}

/// Whether all coordinates of the points lie between 0 and 200.
pub open spec fn points_in_range(points: Seq<(i32, i32)>) -> bool {
    forall|k: int|
        0 <= k < points.len() ==> 0 <= (#[trigger] points[k]).0 <= 200 && 0 <= points[k].1 <= 200
}

/// The module that the last of the first `n` alignment patterns to cover
/// the cell in row `r` and column `c` gives to it, if one covers it.
pub open spec fn alignment_at(points: Seq<(i32, i32)>, n: int, r: int, c: int) -> Option<Module>
    decreases n,
{
    if n <= 0 {
        None
    } else if ring(r, c, points[n - 1].1 as int, points[n - 1].0 as int) <= 2 {
        Some(alignment_module(ring(r, c, points[n - 1].1 as int, points[n - 1].0 as int)))
    } else {
        alignment_at(points, n - 1, r, c)
    }
}

/// Whether the cell lies in one of the two blocks of six by three cells
/// that hold the version information.
pub open spec fn in_version_area(dim: int, r: int, c: int) -> bool {
    (0 <= c <= 5 && dim - 11 <= r <= dim - 9) || (0 <= r <= 5 && dim - 11 <= c <= dim - 9)
}

/// Whether the cell of a Standard symbol is one of those along the finder
/// patterns that hold the format information.
pub open spec fn in_standard_format_area(dim: int, r: int, c: int) -> bool {
    (r == 8 && (0 <= c <= 8 || dim - 8 <= c <= dim - 1) && c != 6) || (c == 8 && (0 <= r <= 8
        || dim - 8 <= r <= dim - 1) && r != 6)
}

/// Whether the cell of a Micro symbol is one of those along the finder
/// pattern that hold the format information.
pub open spec fn in_micro_format_area(r: int, c: int) -> bool {
    (r == 8 && 1 <= c <= 8) || (c == 8 && 1 <= r <= 8)
}

/// The cell in row `r` and column `c` of the blank Standard symbol of
/// version `v`. Where patterns meet, the one named first here decides: the
/// dark module, the version information, the format information, the
/// alignment patterns, the timing patterns, the three finder patterns with
/// their separators. All other cells belong to the encoding region.
pub open spec fn standard_module(v: u8, r: int, c: int) -> Module {
    let dim = 4 * v + 17;
    let points = alignment_points(alignment_coords(v));
    if c == 8 && r == dim - 8 {
        Module::Dark
    } else if v >= 7 && in_version_area(dim, r, c) {
        Module::VersionReserved
    } else if in_standard_format_area(dim, r, c) {
        Module::FormatReserved
    } else if v >= 2 && alignment_at(points, points.len() as int, r, c) is Some {
        alignment_at(points, points.len() as int, r, c).unwrap()
    } else if r == 6 && 8 <= c <= dim - 9 {
        timing_module(c)
    } else if c == 6 && 8 <= r <= dim - 9 {
        timing_module(r)
    } else if r <= 7 && c <= 7 {
        finder_module(ring(r, c, 3, 3))
    } else if r <= 7 && c >= dim - 8 {
        finder_module(ring(r, c, 3, dim - 4))
    } else if r >= dim - 8 && c <= 7 {
        finder_module(ring(r, c, dim - 4, 3))
    } else {
        Module::DataRegion
    }
}

/// The cell in row `r` and column `c` of the blank Micro symbol of version
/// `k`. Where patterns meet, the one named first here decides: the format
/// information, the timing patterns along the top row and the left column,
/// the finder pattern with its separator. All other cells belong to the
/// encoding region.
pub open spec fn micro_module(k: u8, r: int, c: int) -> Module {
    let dim = 2 * k + 9;
    if in_micro_format_area(r, c) {
        Module::FormatReserved
    } else if r == 0 && 8 <= c <= dim - 1 {
        timing_module(c)
    } else if c == 0 && 8 <= r <= dim - 1 {
        timing_module(r)
    } else if r <= 7 && c <= 7 {
        finder_module(ring(r, c, 3, 3))
    } else {
        Module::DataRegion
    }
}

/// The cell in column `x` of row `y` of the blank canvas of a symbol: the
/// quiet zone around the functional patterns and the encoding region.
pub open spec fn blank_module(size: Size, x: int, y: int) -> Module {
    let q = size.quiet();
    let dim = size.interior();
    if x < q || y < q || x >= q + dim || y >= q + dim {
        Module::QuietZone
    } else {
        match size {
            Size::Micro(k) => micro_module(k, y - q, x - q),
            Size::Standard(v) => standard_module(v, y - q, x - q),
        }
    }
}

/// Whether the cell in column `x` of row `y` of a canvas lies in the quiet
/// zone around the symbol.
pub open spec fn in_quiet_zone(size: Size, x: int, y: int) -> bool {
    x < size.quiet() || y < size.quiet() || x >= size.quiet() + size.interior() || y
        >= size.quiet() + size.interior()
}

/// An alignment pattern gives a cell a light or a dark module.
pub proof fn lemma_alignment_at_is_light_or_dark(points: Seq<(i32, i32)>, n: int, r: int, c: int)
    ensures
        alignment_at(points, n, r, c) matches Some(m) ==> m == Module::Light || m == Module::Dark,
    decreases n,
{
    if n > 0 {
        lemma_alignment_at_is_light_or_dark(points, n - 1, r, c);
    }
}

/// Where the markers of the blank canvas stand: the quiet zone holds
/// nothing but its own marker, and the reserved cells are those of the
/// format area and of the version area.
pub proof fn lemma_blank_module_markers(size: Size, x: int, y: int)
    requires
        size.valid(),
        0 <= x < size.side(),
        0 <= y < size.side(),
    ensures
        blank_module(size, x, y) == Module::QuietZone <==> in_quiet_zone(size, x, y),
        blank_module(size, x, y) == Module::FormatReserved ==> match size {
            Size::Micro(_) => in_micro_format_area(y - size.quiet(), x - size.quiet()),
            Size::Standard(v) => in_standard_format_area(
                size.interior(),
                y - size.quiet(),
                x - size.quiet(),
            ) && !(x - size.quiet() == 8 && y - size.quiet() == size.interior() - 8),
        },
        blank_module(size, x, y) == Module::VersionReserved ==> (size matches Size::Standard(v)
            && v >= 7 && in_version_area(size.interior(), y - size.quiet(), x - size.quiet())),
{
    match size {
        Size::Micro(_) => {},
        Size::Standard(v) => {
            let points = alignment_points(alignment_coords(v));
            lemma_alignment_at_is_light_or_dark(
                points,
                points.len() as int,
                y - size.quiet(),
                x - size.quiet(),
            );
        },
    }
}

/// The grid of cells of the blank canvas of a symbol.
pub open spec fn blank_grid(size: Size) -> Seq<Seq<Module>> {
    Seq::new(
        size.side() as nat,
        |y: int| Seq::new(size.side() as nat, |x: int| blank_module(size, x, y)),
    )
}

/// Whether a canvas is the finder pattern with its separator: nine by nine
/// cells around the centre at (4, 4).
pub open spec fn is_finder_pattern(pattern: &Canvas) -> bool {
    &&& pattern.wf()
    &&& pattern.side() == 9
    &&& forall|x: int, y: int|
        0 <= x < 9 && 0 <= y < 9 ==> #[trigger] pattern.at(x, y) == finder_module(ring(y, x, 4, 4))
}

/// Whether a canvas is the alignment pattern: five by five cells around
/// the centre at (2, 2).
pub open spec fn is_alignment_pattern(pattern: &Canvas) -> bool {
    &&& pattern.wf()
    &&& pattern.side() == 5
    &&& forall|x: int, y: int|
        0 <= x < 5 && 0 <= y < 5 ==> #[trigger] pattern.at(x, y) == alignment_module(
            ring(y, x, 2, 2),
        )
}

fn ring_of(r: i32, c: i32, centre_r: i32, centre_c: i32) -> (d: i32)
    requires
        0 <= r <= 200,
        0 <= c <= 200,
        0 <= centre_r <= 200,
        0 <= centre_c <= 200,
    ensures
        d == ring(r as int, c as int, centre_r as int, centre_c as int),
        0 <= d <= 200,
{
    let dr: i32 = if r >= centre_r {
        r - centre_r
    } else {
        centre_r - r
    };
    let dc: i32 = if c >= centre_c {
        c - centre_c
    } else {
        centre_c - c
    };
    if dr >= dc {
        dr
    } else {
        dc
    }
}

/// Creates a finder pattern image (concentric squares
/// including the white separator around the finder
/// pattern)
pub fn create_finder_pattern() -> (pattern: Canvas)
    ensures
        is_finder_pattern(&pattern),
{
    let mut pattern = Canvas::new(9, Module::Light);
    let mut y: usize = 0;
    while y < 9
        invariant
            y <= 9,
            pattern.wf(),
            pattern.side() == 9,
            forall|i: int, j: int|
                0 <= i < 9 && 0 <= j < 9 ==> #[trigger] pattern.at(i, j) == if j < y {
                    finder_module(ring(j, i, 4, 4))
                } else {
                    Module::Light
                },
        decreases 9 - y,
    {
        let mut x: usize = 0;
        while x < 9
            invariant
                y < 9,
                x <= 9,
                pattern.wf(),
                pattern.side() == 9,
                forall|i: int, j: int|
                    0 <= i < 9 && 0 <= j < 9 ==> #[trigger] pattern.at(i, j) == if j < y || (j == y
                        && i < x) {
                        finder_module(ring(j, i, 4, 4))
                    } else {
                        Module::Light
                    },
            decreases 9 - x,
        {
            let d: i32 = ring_of(y as i32, x as i32, 4, 4);
            if d <= 1 || d == 3 {
                pattern.put(x, y, Module::Dark);
            }
            x += 1;
        }
        y += 1;
    }
    pattern
}

/// Creates an alignment pattern image
pub fn create_alignment_pattern() -> (pattern: Canvas)
    ensures
        is_alignment_pattern(&pattern),
{
    let mut pattern = Canvas::new(5, Module::Light);
    let mut y: usize = 0;
    while y < 5
        invariant
            y <= 5,
            pattern.wf(),
            pattern.side() == 5,
            forall|i: int, j: int|
                0 <= i < 5 && 0 <= j < 5 ==> #[trigger] pattern.at(i, j) == if j < y {
                    alignment_module(ring(j, i, 2, 2))
                } else {
                    Module::Light
                },
        decreases 5 - y,
    {
        let mut x: usize = 0;
        while x < 5
            invariant
                y < 5,
                x <= 5,
                pattern.wf(),
                pattern.side() == 5,
                forall|i: int, j: int|
                    0 <= i < 5 && 0 <= j < 5 ==> #[trigger] pattern.at(i, j) == if j < y || (j == y
                        && i < x) {
                        alignment_module(ring(j, i, 2, 2))
                    } else {
                        Module::Light
                    },
            decreases 5 - x,
        {
            let d: i32 = ring_of(y as i32, x as i32, 2, 2);
            if d % 2 == 0 {
                pattern.put(x, y, Module::Dark);
            }
            x += 1;
        }
        y += 1;
    }
    pattern
}

/// Creates a vector with alignment coordinates, i.e. the
/// numbers from the row of the table E.1 in Annex E
pub fn create_alignment_pattern_coord_list(size: u8) -> (row: Vec<i32>)
    ensures
        row@ == alignment_coords(size),
        1 <= row@.len() <= 7,
        forall|i: int| 0 <= i < row@.len() ==> 6 <= #[trigger] row@[i] <= 170,
{
    let mut row: Vec<i32> = Vec::new();
    row.push(6);
    let v: i32 = size as i32;
    if size >= 2 && size < 7 {
        row.push((v - 2) * 4 + 18);
    } else if size >= 7 && size < 14 {
        row.push((v - 7) * 2 + 22);
        row.push((v - 7) * 4 + 38);
    } else if size >= 14 && size < 21 {
        let a: i32 = ((v - 14) / 3) * 4 + 26;
        let b: i32 = (v - 14) * 4 + 66;
        row.push(a);
        row.push((a + b) / 2);
        row.push(b);
    } else if size >= 21 && size < 28 {
        let b: i32 = ((v - 21) / 2) * 4 + 50;
        let d: i32 = (v - 21) * 4 + 94;
        let a: i32 = if size == 21 {
            28
        } else if size == 22 {
            26
        } else if size == 23 {
            30
        } else if size == 24 {
            28
        } else if size == 25 {
            32
        } else if size == 26 {
            30
        } else {
            34
        };
        row.push(a);
        row.push(b);
        row.push((b + d) / 2);
        row.push(d);
    } else if size >= 28 && size < 35 {
        let a: i32 = if size == 28 || size == 30 {
            26
        } else if size == 29 || size == 31 || size == 33 {
            30
        } else {
            34
        };
        let step: i32 = if size == 28 || size == 29 {
            24
        } else if size == 30 || size == 31 || size == 32 {
            26
        } else {
            28
        };
        row.push(a);
        row.push(a + step);
        row.push(a + 2 * step);
        row.push(a + 3 * step);
        row.push(a + 4 * step);
    } else if size >= 35 && size <= 40 {
        let a: i32 = if size == 35 || size == 40 {
            30
        } else if size == 36 {
            24
        } else if size == 37 {
            28
        } else if size == 38 {
            32
        } else {
            26
        };
        let step: i32 = if size == 35 {
            24
        } else if size == 36 || size == 37 || size == 38 {
            26
        } else {
            28
        };
        row.push(a);
        row.push(a + step);
        row.push(a + 2 * step);
        row.push(a + 3 * step);
        row.push(a + 4 * step);
        row.push(a + 5 * step);
    }
    assert(row@ =~= alignment_coords(size));
    row
}

/// The points that pair a coordinate with all coordinates lie in range when
/// the coordinates do.
proof fn lemma_points_with_in_range(coords: Seq<i32>, i: int, j: int)
    requires
        0 <= i < coords.len(),
        0 <= j <= coords.len(),
        forall|k: int| 0 <= k < coords.len() ==> 0 <= #[trigger] coords[k] <= 200,
    ensures
        points_in_range(points_with(coords, i, j)),
    decreases j,
{
    if j > 0 {
        lemma_points_with_in_range(coords, i, j - 1);
    }
}

/// Creates a vector with alignment coordinate pairs (x,y),
/// from the entries returned by create_alignment_pattern_coord_list
pub fn get_alignment_pattern_points(size: u8) -> (points: Vec<(i32, i32)>)
    ensures
        points@ == alignment_points(alignment_coords(size)),
        points_in_range(points@),
        points@.len() <= 49,
{
    let coords = create_alignment_pattern_coord_list(size);
    let n: usize = coords.len();
    let last_coord_index: usize = n - 1;
    let mut points: Vec<(i32, i32)> = Vec::new();
    let mut i: usize = 0;
    while i < n
        invariant
            n == coords@.len(),
            1 <= n <= 7,
            last_coord_index == n - 1,
            i <= n,
            forall|k: int| 0 <= k < coords@.len() ==> 6 <= #[trigger] coords@[k] <= 170,
            points@ == points_upto(coords@, i as int),
            points_in_range(points@),
            points@.len() <= 7 * i,
        decreases n - i,
    {
        let s: i32 = coords[i];
        let mut j: usize = 0;
        let ghost before = points@;
        while j < n
            invariant
                n == coords@.len(),
                1 <= n <= 7,
                last_coord_index == n - 1,
                i < n,
                j <= n,
                s == coords@[i as int],
                forall|k: int| 0 <= k < coords@.len() ==> 6 <= #[trigger] coords@[k] <= 170,
                points@ == before + points_with(coords@, i as int, j as int),
                points_in_range(points@),
                before.len() <= 7 * i,
                points@.len() <= before.len() + j,
            decreases n - j,
        {
            let t: i32 = coords[j];
            let corner: bool = (i == 0 && j == 0) || (i == 0 && j == last_coord_index) || (i
                == last_coord_index && j == 0);
            if !corner {
                points.push((s, t));
                assert(points@ =~= before + points_with(coords@, i as int, j as int + 1));
            }
            j += 1;
        }
        i += 1;
    }
    points
}

/// The module that the alignment patterns give to a cell, if one covers it.
fn alignment_module_at(points: &Vec<(i32, i32)>, pattern: &Canvas, r: i32, c: i32) -> (m: Option<
    Module,
>)
    requires
        points_in_range(points@),
        is_alignment_pattern(pattern),
        0 <= r <= 200,
        0 <= c <= 200,
    ensures
        m == alignment_at(points@, points@.len() as int, r as int, c as int),
{
    let mut k: usize = points.len();
    while k > 0
        invariant
            points_in_range(points@),
            is_alignment_pattern(pattern),
            0 <= r <= 200,
            0 <= c <= 200,
            k <= points@.len(),
            alignment_at(points@, points@.len() as int, r as int, c as int) == alignment_at(
                points@,
                k as int,
                r as int,
                c as int,
            ),
        decreases k,
    {
        k -= 1;
        let p: (i32, i32) = points[k];
        if ring_of(r, c, p.1, p.0) <= 2 {
            // the cell of the pattern that lies over this cell when the
            // centre of the pattern lies on the point
            return Some(pattern.get((c - p.0 + 2) as usize, (r - p.1 + 2) as usize));
        }
    }
    None
}

fn finder_module_at(pattern: &Canvas, r: i32, c: i32, centre_r: i32, centre_c: i32) -> (m: Module)
    requires
        is_finder_pattern(pattern),
        0 <= r <= 200,
        0 <= c <= 200,
        0 <= centre_r <= 200,
        0 <= centre_c <= 200,
        ring(r as int, c as int, centre_r as int, centre_c as int) <= 4,
    ensures
        m == finder_module(ring(r as int, c as int, centre_r as int, centre_c as int)),
{
    // the cell of the pattern that lies over this cell when the centre of
    // the pattern lies on the given centre
    pattern.get((c - centre_c + 4) as usize, (r - centre_r + 4) as usize)
}

fn timing_module_at(t: i32) -> (m: Module)
    requires
        0 <= t,
    ensures
        m == timing_module(t as int),
{
    if t % 2 == 0 {
        Module::Dark
    } else {
        Module::Light
    }
}

/// The cell in row `r` and column `c` of the blank Standard symbol.
fn standard_module_at(
    v: u8,
    points: &Vec<(i32, i32)>,
    finder: &Canvas,
    alignment: &Canvas,
    r: i32,
    c: i32,
) -> (m: Module)
    requires
        1 <= v <= 40,
        points@ == alignment_points(alignment_coords(v)),
        points_in_range(points@),
        is_finder_pattern(finder),
        is_alignment_pattern(alignment),
        0 <= r < 4 * v + 17,
        0 <= c < 4 * v + 17,
    ensures
        m == standard_module(v, r as int, c as int),
{
    let dim: i32 = 4 * (v as i32) + 17;
    if c == 8 && r == dim - 8 {
        return Module::Dark;
    }
    if v >= 7 && ((c <= 5 && dim - 11 <= r && r <= dim - 9) || (r <= 5 && dim - 11 <= c && c <= dim
        - 9)) {
        return Module::VersionReserved;
    }
    if (r == 8 && (c <= 8 || dim - 8 <= c) && c != 6) || (c == 8 && (r <= 8 || dim - 8 <= r) && r
        != 6) {
        return Module::FormatReserved;
    }
    if v >= 2 {
        match alignment_module_at(points, alignment, r, c) {
            Some(m) => {
                return m;
            },
            None => {},
        }
    }
    if r == 6 && 8 <= c && c <= dim - 9 {
        timing_module_at(c)
    } else if c == 6 && 8 <= r && r <= dim - 9 {
        timing_module_at(r)
    } else if r <= 7 && c <= 7 {
        finder_module_at(finder, r, c, 3, 3)
    } else if r <= 7 && c >= dim - 8 {
        finder_module_at(finder, r, c, 3, dim - 4)
    } else if r >= dim - 8 && c <= 7 {
        finder_module_at(finder, r, c, dim - 4, 3)
    } else {
        Module::DataRegion
    }
}

/// The cell in row `r` and column `c` of the blank Micro symbol.
fn micro_module_at(k: u8, finder: &Canvas, r: i32, c: i32) -> (m: Module)
    requires
        1 <= k <= 4,
        is_finder_pattern(finder),
        0 <= r < 2 * k + 9,
        0 <= c < 2 * k + 9,
    ensures
        m == micro_module(k, r as int, c as int),
{
    let dim: i32 = 2 * (k as i32) + 9;
    if (r == 8 && 1 <= c && c <= 8) || (c == 8 && 1 <= r && r <= 8) {
        Module::FormatReserved
    } else if r == 0 && 8 <= c {
        timing_module_at(c)
    } else if c == 0 && 8 <= r {
        timing_module_at(r)
    } else if r <= 7 && c <= 7 {
        finder_module_at(finder, r, c, 3, 3)
    } else {
        Module::DataRegion
    }
}

/// The blank canvas of a Standard symbol of the given version.
pub fn create_standard_qt_canvas(size: u8) -> (mask: Canvas)
    requires
        1 <= size <= 40,
    ensures
        mask.wf(),
        mask@ == blank_grid(Size::Standard(size)),
{
    let dim: usize = 17 + 4 * (size as usize);
    let s: usize = dim + 8;
    // retrieve point list of alignment pattern center points
    let points = get_alignment_pattern_points(size);
    // get the pattern images
    let finder = create_finder_pattern();
    let pattern = create_alignment_pattern();
    let mut mask = Canvas::new(s, Module::QuietZone);
    let mut r: usize = 0;
    while r < dim
        invariant
            1 <= size <= 40,
            dim == 4 * size + 17,
            s == dim + 8,
            r <= dim,
            mask.wf(),
            mask.side() == s,
            points@ == alignment_points(alignment_coords(size)),
            points_in_range(points@),
            is_finder_pattern(&finder),
            is_alignment_pattern(&pattern),
            forall|x: int, y: int|
                0 <= x < s && 0 <= y < s ==> #[trigger] mask.at(x, y) == if y < 4 + r {
                    blank_module(Size::Standard(size), x, y)
                } else {
                    Module::QuietZone
                },
        decreases dim - r,
    {
        let mut c: usize = 0;
        while c < dim
            invariant
                1 <= size <= 40,
                dim == 4 * size + 17,
                s == dim + 8,
                r < dim,
                c <= dim,
                mask.wf(),
                mask.side() == s,
                points@ == alignment_points(alignment_coords(size)),
                points_in_range(points@),
                is_finder_pattern(&finder),
                is_alignment_pattern(&pattern),
                forall|x: int, y: int|
                    0 <= x < s && 0 <= y < s ==> #[trigger] mask.at(x, y) == if y < 4 + r || (y == 4
                        + r && x < 4 + c) {
                        blank_module(Size::Standard(size), x, y)
                    } else {
                        Module::QuietZone
                    },
            decreases dim - c,
        {
            let m: Module = standard_module_at(size, &points, &finder, &pattern, r as i32, c as i32);
            mask.put(4 + c, 4 + r, m);
            c += 1;
        }
        r += 1;
    }
    proof {
        let target = blank_grid(Size::Standard(size));
        assert forall|y: int| 0 <= y < s implies #[trigger] mask@[y] =~= target[y] by {
            assert forall|x: int| 0 <= x < s implies mask@[y][x] == target[y][x] by {
                assert(mask.at(x, y) == blank_module(Size::Standard(size), x, y));
            }
        }
        assert(mask@ =~= target);
    }
    mask
}

/// The blank canvas of a Micro symbol of the given version.
pub fn create_micro_qr_canvas(size: u8) -> (mask: Canvas)
    requires
        1 <= size <= 4,
    ensures
        mask.wf(),
        mask@ == blank_grid(Size::Micro(size)),
{
    let dim: usize = 9 + 2 * (size as usize);
    let s: usize = dim + 4;
    let finder = create_finder_pattern();
    let mut mask = Canvas::new(s, Module::QuietZone);
    let mut r: usize = 0;
    while r < dim
        invariant
            1 <= size <= 4,
            dim == 2 * size + 9,
            s == dim + 4,
            r <= dim,
            mask.wf(),
            mask.side() == s,
            is_finder_pattern(&finder),
            forall|x: int, y: int|
                0 <= x < s && 0 <= y < s ==> #[trigger] mask.at(x, y) == if y < 2 + r {
                    blank_module(Size::Micro(size), x, y)
                } else {
                    Module::QuietZone
                },
        decreases dim - r,
    {
        let mut c: usize = 0;
        while c < dim
            invariant
                1 <= size <= 4,
                dim == 2 * size + 9,
                s == dim + 4,
                r < dim,
                c <= dim,
                mask.wf(),
                mask.side() == s,
                is_finder_pattern(&finder),
                forall|x: int, y: int|
                    0 <= x < s && 0 <= y < s ==> #[trigger] mask.at(x, y) == if y < 2 + r || (y == 2
                        + r && x < 2 + c) {
                        blank_module(Size::Micro(size), x, y)
                    } else {
                        Module::QuietZone
                    },
            decreases dim - c,
        {
            let m: Module = micro_module_at(size, &finder, r as i32, c as i32);
            mask.put(2 + c, 2 + r, m);
            c += 1;
        }
        r += 1;
    }
    proof {
        let target = blank_grid(Size::Micro(size));
        assert forall|y: int| 0 <= y < s implies #[trigger] mask@[y] =~= target[y] by {
            assert forall|x: int| 0 <= x < s implies mask@[y][x] == target[y][x] by {
                assert(mask.at(x, y) == blank_module(Size::Micro(size), x, y));
            }
        }
        assert(mask@ =~= target);
    }
    mask
}

/// Return a basic QR image with all the functional patterns
/// painted in: the finder patterns, alignment patterns
/// and timing patterns.
///
/// Every cell that belongs to no functional pattern is tagged as part of
/// the encoding region, which receives the codewords later; the cells that
/// will hold format and version information are tagged as reserved.
pub fn create_qr_canvas(size: Size) -> (canvas: Canvas)
    requires
        size.valid(),
    ensures
        canvas.wf(),
        canvas.side() == size.interior() + 2 * size.quiet(),
        canvas@ == blank_grid(size),
{
    match size {
        Size::Micro(s) => create_micro_qr_canvas(s),
        Size::Standard(s) => create_standard_qt_canvas(s),
    }
}

} // verus!
