//! The display surface: one brightness value for each cell of the grid.

use vstd::prelude::*;
use crate::point::Point;

verus! {

/// What the LED matrix shows: `leds[x][y]` is the LED at row `x` and column
/// `y`, zero for dark and one for lit.
#[derive(Clone, Copy, Debug)]
pub struct World {
    pub leds: [[u8; 5]; 5],
}

impl Default for World {
    fn default() -> (w: World)
        ensures
            w.dark(),
    {
        World { leds: [[0u8; 5]; 5] }
    }
}

impl World {
    /// The LED at row `x` and column `y` is lit.
    pub open spec fn lit(self, x: int, y: int) -> bool {
        self.leds[x][y] != 0
    }

    /// No LED is lit.
    pub open spec fn dark(self) -> bool {
        forall|x: int, y: int| 0 <= x < 5 && 0 <= y < 5 ==> !#[trigger] self.lit(x, y)
    }

    /// The LED at `p` is lit with brightness one and every other LED is
    /// dark.
    pub open spec fn shows(self, p: Point) -> bool {
        forall|x: int, y: int|
            0 <= x < 5 && 0 <= y < 5 ==> #[trigger] self.leds[x][y] == if x == p.x && y == p.y {
                1u8
            } else {
                0u8
            }
    }

    /// The surface that shows the cell `p` and nothing else.
    pub fn render(p: &Point) -> (w: World)
        requires
            p.in_grid(),
        ensures
            w.shows(*p),
    {
        let mut leds = [[0u8; 5]; 5];
        leds[p.x as usize][p.y as usize] = 1;
        World { leds }
    }
}

/// A surface that shows a cell has exactly one lit LED, the one at that
/// cell.
pub proof fn lemma_shows_one_lit(w: World, p: Point)
    requires
        w.shows(p),
        p.in_grid(),
    ensures
        w.lit(p.x as int, p.y as int),
        forall|x: int, y: int|
            0 <= x < 5 && 0 <= y < 5 && #[trigger] w.lit(x, y) ==> x == p.x && y == p.y,
{
    assert(w.leds[p.x as int][p.y as int] == 1u8);
    assert forall|x: int, y: int| 0 <= x < 5 && 0 <= y < 5 && #[trigger] w.lit(x, y) implies x
        == p.x && y == p.y by {
        assert(w.leds[x][y] != 0);
    }
}

} // verus!
