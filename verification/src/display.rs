//! The monochrome pixel grid. A write combines with what is there by XOR.
use vstd::prelude::*;

verus! {

/// The mathematical grid: 64 columns of 32 cells, read as `grid[x][y]`.
pub type Grid = Seq<Seq<u8>>;

/// A grid has 64 columns of 32 cells each.
pub open spec fn grid_wf(g: Grid) -> bool {
    &&& g.len() == 64
    &&& forall|x: int| 0 <= x < 64 ==> (#[trigger] g[x]).len() == 32
}

/// Every cell of the grid is 0 or 1.
pub open spec fn grid_is_binary(g: Grid) -> bool {
    forall|x: int, y: int| 0 <= x < 64 && 0 <= y < 32 ==> (#[trigger] g[x][y]) <= 1
}

/// The grid with every cell unset.
pub open spec fn blank_grid() -> Grid {
    Seq::new(64, |x: int| Seq::new(32, |y: int| 0u8))
}

/// The grid after `val` was combined by XOR into the cell at (`x`, `y`).
pub open spec fn xor_cell(g: Grid, x: int, y: int, val: u8) -> Grid {
    g.update(x, g[x].update(y, g[x][y] ^ val))
}

/// The grid that an array of columns stands for.
pub open spec fn grid_of(cells: [[u8; 32]; 64]) -> Grid {
    Seq::new(64, |x: int| cells@[x]@)
}

/// The blank grid has the dimensions of a grid, and all its cells are unset.
pub proof fn lemma_blank_grid()
    ensures
        grid_wf(blank_grid()),
        grid_is_binary(blank_grid()),
        forall|x: int, y: int| 0 <= x < 64 && 0 <= y < 32 ==> blank_grid()[x][y] == 0,
{
}

/// Combining a bit into a cell of a grid of zeros and ones leaves a grid of
/// zeros and ones.
pub proof fn lemma_xor_cell_keeps_binary(g: Grid, x: int, y: int, val: u8)
    requires
        grid_wf(g),
        grid_is_binary(g),
        0 <= x < 64,
        0 <= y < 32,
        val <= 1,
    ensures
        grid_wf(xor_cell(g, x, y, val)),
        grid_is_binary(xor_cell(g, x, y, val)),
{
    let p = g[x][y];
    assert(p <= 1 && val <= 1 ==> (p ^ val) <= 1) by (bit_vector);
    let after = xor_cell(g, x, y, val);
    assert forall|cx: int, cy: int| 0 <= cx < 64 && 0 <= cy < 32 implies (#[trigger] after[cx][cy])
        <= 1 by {
        if cx == x && cy == y {
        } else {
            assert(after[cx][cy] == g[cx][cy]);
        }
    }
}

/// The display: 64x32 cells, each holding 0 or 1 in ordinary use.
pub struct Display {
    screen: [[u8; 32]; 64],
}

impl View for Display {
    type V = Grid;

    closed spec fn view(&self) -> Grid {
        grid_of(self.screen)
    }
}

impl Display {
    /// A display always has 64 columns of 32 cells.
    pub proof fn lemma_dimensions(&self)
        ensures
            grid_wf(self@),
    {
    }

    /// A display with every pixel unset.
    pub fn new() -> (d: Self)
        ensures
            d@ == blank_grid(),
    {
        let d = Display { screen: [[0; 32]; 64] };
        assert(d@ =~~= blank_grid());
        d
    }

    /// Combines `val` by XOR into the pixel at (`x`, `y`) and reports whether
    /// that pixel went from set to unset.
    pub fn set_pixel(&mut self, x: usize, y: usize, val: u8) -> (erased: bool)
        requires
            x < 64,
            y < 32,
        ensures
            final(self)@ == xor_cell(old(self)@, x as int, y as int, val),
            erased == (old(self)@[x as int][y as int] == 1 && final(self)@[x as int][y as int] == 0),
    {
        let current_val: u8 = self.screen[x][y];
        self.screen[x][y] ^= val;
        assert(self@ =~~= xor_cell(old(self)@, x as int, y as int, val));
        current_val == 1 && self.screen[x][y] == 0
    }

    /// The value of the pixel at (`x`, `y`).
    pub fn get_pixel(&self, x: usize, y: usize) -> (val: u8)
        requires
            x < 64,
            y < 32,
        ensures
            val == self@[x as int][y as int],
    {
        self.screen[x][y]
    }

    /// The whole grid, column by column.
    pub fn get_screen_state(&self) -> (state: &[[u8; 32]; 64])
        ensures
            grid_of(*state) == self@,
    {
        &self.screen
    }

    /// Unsets every pixel.
    pub fn clear_screen(&mut self)
        ensures
            final(self)@ == blank_grid(),
    {
        self.screen = [[0; 32]; 64];
        assert(self@ =~~= blank_grid());
    }
}

} // verus!
