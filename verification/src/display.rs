//! The 64 by 32 monochrome display surface.

use vstd::prelude::*;

verus! {

/// Pixels per row.
pub const WIDTH: usize = 64;

/// Rows on the surface.
pub const HEIGHT: usize = 32;

/// A grid of pixels as rows of columns: `grid[y][x]`.
pub type Grid = Seq<Seq<bool>>;

/// The grid has `HEIGHT` rows of `WIDTH` pixels each.
pub open spec fn is_grid(grid: Grid) -> bool {
    &&& grid.len() == HEIGHT
    &&& forall|y: int| 0 <= y < HEIGHT ==> (#[trigger] grid[y]).len() == WIDTH
}

/// The grid with every pixel off.
pub open spec fn blank_grid() -> Grid {
    Seq::new(HEIGHT as nat, |y: int| Seq::new(WIDTH as nat, |x: int| false))
}

/// The state of the pixel that coordinate `(x, y)` wraps onto.
pub open spec fn pixel(grid: Grid, x: int, y: int) -> bool {
    grid[y % (HEIGHT as int)][x % (WIDTH as int)]
}

/// Whether plotting `on` at `(x, y)` turns a lit pixel off.
pub open spec fn plot_collides(grid: Grid, x: int, y: int, on: bool) -> bool {
    pixel(grid, x, y) && on
}

/// The grid after `on` is XORed into the pixel that `(x, y)` wraps onto.
pub open spec fn plot(grid: Grid, x: int, y: int, on: bool) -> Grid {
    let row = y % (HEIGHT as int);
    let col = x % (WIDTH as int);
    grid.update(row, grid[row].update(col, grid[row][col] != on))
}

/// Coordinates wrap around both edges: a position one full width to the
/// right, or one full height further down, is the same pixel.
pub proof fn lemma_plot_wraps(grid: Grid, x: int, y: int, on: bool)
    ensures
        pixel(grid, x + WIDTH, y) == pixel(grid, x, y),
        pixel(grid, x, y + HEIGHT) == pixel(grid, x, y),
        plot(grid, x + WIDTH, y, on) == plot(grid, x, y, on),
        plot(grid, x, y + HEIGHT, on) == plot(grid, x, y, on),
        plot_collides(grid, x + WIDTH, y, on) == plot_collides(grid, x, y, on),
        plot_collides(grid, x, y + HEIGHT, on) == plot_collides(grid, x, y, on),
        plot(grid, x, y, on) == plot(grid, x % (WIDTH as int), y % (HEIGHT as int), on),
{
    assert((x + 64) % 64 == x % 64);
    assert((y + 32) % 32 == y % 32);
    assert((x % 64) % 64 == x % 64);
    assert((y % 32) % 32 == y % 32);
}

/// Plotting changes the one pixel the coordinate wraps onto, and that pixel
/// only: it is inverted if `on` is set and stays as it is otherwise.
pub proof fn lemma_plot_pixel(grid: Grid, x: int, y: int, on: bool, px: int, py: int)
    requires
        is_grid(grid),
        0 <= px < WIDTH,
        0 <= py < HEIGHT,
    ensures
        is_grid(plot(grid, x, y, on)),
        plot(grid, x, y, on)[py][px] == if px == x % (WIDTH as int) && py == y % (HEIGHT as int) {
            grid[py][px] != on
        } else {
            grid[py][px]
        },
{
}

/// The display surface. Pixels change only by XOR through `set_pixel`, or
/// all at once through `clear`.
pub struct Display {
    screen: [[bool; 64]; 32],
}

impl View for Display {
    type V = Grid;

    closed spec fn view(&self) -> Grid {
        Seq::new(HEIGHT as nat, |y: int| self.screen@[y]@)
    }
}

impl Display {
    /// The surface always has `HEIGHT` rows of `WIDTH` pixels.
    pub proof fn lemma_is_grid(&self)
        ensures
            is_grid(self@),
    {
    }

    /// A surface with every pixel off.
    pub fn new() -> (display: Display)
        ensures
            display@ == blank_grid(),
    {
        let display = Display { screen: [[false; 64]; 32] };
        assert(display@ =~~= blank_grid());
        display
    }

    /// Turns every pixel off.
    pub fn clear(&mut self)
        ensures
            final(self)@ == blank_grid(),
    {
        self.screen = [[false; 64]; 32];
        assert(self@ =~~= blank_grid());
    }

    /// XORs `on` into the pixel at `(x mod 64, y mod 32)` and reports whether
    /// that pixel was lit and has been turned off by this call.
    pub fn set_pixel(&mut self, x: usize, y: usize, on: bool) -> (collision: bool)
        ensures
            collision == plot_collides(old(self)@, x as int, y as int, on),
            final(self)@ == plot(old(self)@, x as int, y as int, on),
    {
        proof {
            self.lemma_is_grid();
        }
        let x = x % 64;
        let y = y % 32;
        let lit = self.screen[y][x];
        self.screen[y][x] = lit != on;
        assert(self@ =~~= plot(old(self)@, x as int, y as int, on));
        lit && on
    }

    /// Whether the pixel at `(x mod 64, y mod 32)` is lit.
    pub fn pixel_at(&self, x: usize, y: usize) -> (lit: bool)
        ensures
            lit == pixel(self@, x as int, y as int),
    {
        self.screen[y % 32][x % 64]
    }

    /// The whole surface, row by row, for whoever renders it.
    pub fn pixel_grid(&self) -> (rows: &[[bool; 64]; 32])
        ensures
            forall|x: int, y: int| 0 <= x < 64 && 0 <= y < 32 ==> rows@[y]@[x] == #[trigger] self@[y][x],
    {
        &self.screen
    }
}

} // verus!
