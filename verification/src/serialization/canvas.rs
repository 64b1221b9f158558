//! The module canvas: a square grid of role-tagged cells.
use vstd::prelude::*;

verus! {

/// What a cell of the canvas holds. `Light` and `Dark` are the values of a
/// finished symbol; the quiet zone is light; the other three mark cells that
/// a later stage fills.
#[derive(Clone, Copy, Debug, PartialEq, Eq, Hash, Structural)]
pub enum Module {
    /// A cell of the border around the symbol, always light.
    QuietZone,
    /// A light module.
    Light,
    /// A dark module.
    Dark,
    /// A cell of the encoding region that no codeword bit has reached yet.
    DataRegion,
    /// A cell that will hold a bit of the format information.
    FormatReserved,
    /// A cell that will hold a bit of the version information.
    VersionReserved,
}

/// A square grid of modules. Cell `(0, 0)` is the top-left corner; `x` counts
/// columns and `y` rows.
#[derive(Debug, PartialEq, Eq)]
pub struct Canvas {
    rows: Vec<Vec<Module>>,
}

impl View for Canvas {
    type V = Seq<Seq<Module>>;

    /// The rows of the canvas from top to bottom, each from left to right.
    closed spec fn view(&self) -> Seq<Seq<Module>> {
        Seq::new(self.rows@.len(), |y: int| self.rows@[y]@)
    }
}

/// Whether a grid of cells is square and small enough to index by `u32`.
pub open spec fn is_square(g: Seq<Seq<Module>>) -> bool {
    &&& g.len() <= 0xFFFF
    &&& forall|y: int| 0 <= y < g.len() ==> (#[trigger] g[y]).len() == g.len()
}

impl Canvas {
    /// The rows all have the length of the side.
    pub open spec fn wf(&self) -> bool {
        is_square(self@)
    }

    /// Number of cells along one side.
    pub open spec fn side(&self) -> int {
        self@.len() as int
    }

    /// The cell in column `x` of row `y`.
    pub open spec fn at(&self, x: int, y: int) -> Module {
        self@[y][x]
    }

    /// A canvas of the given side with all cells set to `fill`.
    pub fn new(side: usize, fill: Module) -> (c: Canvas)
        requires
            side <= 0xFFFF,
        ensures
            c.wf(),
            c.side() == side,
            forall|x: int, y: int| 0 <= x < side && 0 <= y < side ==> c.at(x, y) == fill,
    {
        let mut rows: Vec<Vec<Module>> = Vec::new();
        let mut y: usize = 0;
        while y < side
            invariant
                y <= side,
                rows@.len() == y,
                forall|j: int| 0 <= j < y ==> (#[trigger] rows@[j])@.len() == side,
                forall|i: int, j: int|
                    0 <= i < side && 0 <= j < y ==> (#[trigger] rows@[j]@[i]) == fill,
            decreases side - y,
        {
            let mut row: Vec<Module> = Vec::new();
            let mut x: usize = 0;
            while x < side
                invariant
                    x <= side,
                    row@.len() == x,
                    forall|i: int| 0 <= i < x ==> (#[trigger] row@[i]) == fill,
                decreases side - x,
            {
                row.push(fill);
                x += 1;
            }
            rows.push(row);
            y += 1;
        }
        Canvas { rows }
    }

    /// Number of columns.
    pub fn width(&self) -> (w: u32)
        requires
            self.wf(),
        ensures
            w == self.side(),
    {
        self.rows.len() as u32
    }

    /// Number of rows.
    pub fn height(&self) -> (h: u32)
        requires
            self.wf(),
        ensures
            h == self.side(),
    {
        self.rows.len() as u32
    }

    /// Width and height.
    pub fn dimensions(&self) -> (d: (u32, u32))
        requires
            self.wf(),
        ensures
            d.0 == self.side(),
            d.1 == self.side(),
    {
        (self.rows.len() as u32, self.rows.len() as u32)
    }

    /// The cell in column `x` of row `y`.
    pub fn get(&self, x: usize, y: usize) -> (m: Module)
        requires
            self.wf(),
            x < self.side(),
            y < self.side(),
        ensures
            m == self.at(x as int, y as int),
    {
        assert(self@[y as int] == self.rows@[y as int]@);
        self.rows[y][x]
    }

    /// Sets the cell in column `x` of row `y` and leaves the others as they
    /// are.
    pub fn put(&mut self, x: usize, y: usize, m: Module)
        requires
            old(self).wf(),
            x < old(self).side(),
            y < old(self).side(),
        ensures
            final(self).wf(),
            final(self).side() == old(self).side(),
            final(self)@ == old(self)@.update(y as int, old(self)@[y as int].update(x as int, m)),
            final(self).at(x as int, y as int) == m,
            forall|i: int, j: int|
                0 <= i < old(self).side() && 0 <= j < old(self).side() && (i != x || j != y)
                    ==> final(self).at(i, j) == old(self).at(i, j),
    {
        assert(self@[y as int] == self.rows@[y as int]@);
        self.rows[y][x] = m;
        assert(self@ =~= old(self)@.update(y as int, old(self)@[y as int].update(x as int, m)));
    }

    /// The canvas as rows of bits: a bit is set where the module is dark.
    pub fn to_matrix(&self) -> (bits: Vec<Vec<bool>>)
        requires
            self.wf(),
        ensures
            bits@.len() == self.side(),
            forall|y: int| 0 <= y < self.side() ==> (#[trigger] bits@[y])@.len() == self.side(),
            forall|x: int, y: int|
                0 <= x < self.side() && 0 <= y < self.side() ==> (#[trigger] bits@[y]@[x]) == (
                self.at(x, y) == Module::Dark),
    {
        let n: usize = self.rows.len();
        let mut bits: Vec<Vec<bool>> = Vec::new();
        let mut y: usize = 0;
        while y < n
            invariant
                self.wf(),
                n == self.rows@.len(),
                n == self.side(),
                y <= n,
                bits@.len() == y,
                forall|j: int| 0 <= j < y ==> (#[trigger] bits@[j])@.len() == n,
                forall|i: int, j: int|
                    0 <= i < n && 0 <= j < y ==> (#[trigger] bits@[j]@[i]) == (self.at(i, j)
                        == Module::Dark),
            decreases n - y,
        {
            let mut row: Vec<bool> = Vec::new();
            let mut x: usize = 0;
            while x < n
                invariant
                    self.wf(),
                    n == self.rows@.len(),
                    n == self.side(),
                    y < n,
                    x <= n,
                    row@.len() == x,
                    forall|i: int|
                        0 <= i < x ==> (#[trigger] row@[i]) == (self.at(i, y as int)
                            == Module::Dark),
                decreases n - x,
            {
                let dark: bool = self.get(x, y) == Module::Dark;
                row.push(dark);
                x += 1;
            }
            bits.push(row);
            y += 1;
        }
        bits
    }

    /// A copy of the canvas.
    pub fn duplicate(&self) -> (c: Canvas)
        requires
            self.wf(),
        ensures
            c@ == self@,
    {
        let n: usize = self.rows.len();
        let mut rows: Vec<Vec<Module>> = Vec::new();
        let mut y: usize = 0;
        while y < n
            invariant
                self.wf(),
                n == self.rows@.len(),
                y <= n,
                rows@.len() == y,
                forall|j: int| 0 <= j < y ==> (#[trigger] rows@[j])@ == self.rows@[j]@,
            decreases n - y,
        {
            let mut row: Vec<Module> = Vec::new();
            let mut x: usize = 0;
            assert(self@[y as int].len() == n);
            while x < n
                invariant
                    y < n,
                    n == self.rows@.len(),
                    self.rows@[y as int]@.len() == n,
                    x <= n,
                    row@.len() == x,
                    forall|i: int| 0 <= i < x ==> (#[trigger] row@[i]) == self.rows@[y as int]@[i],
                decreases n - x,
            {
                row.push(self.rows[y][x]);
                x += 1;
            }
            assert(row@ =~= self.rows@[y as int]@);
            rows.push(row);
            y += 1;
        }
        let c = Canvas { rows };
        assert(c@ =~= self@);
        c
    }
}

} // verus!
