//! Cells of the grid and single steps between them.
//!
//! A cell is named by its row `x` and its column `y`. `Up` and `Down` change
//! the row, `Left` and `Right` the column; `Down` and `Right` count upward.

use vstd::prelude::*;
use crate::accel::Direction;
use crate::accel::Sample;

verus! {

/// Number of rows, and of columns, of the grid.
pub const GRID_SIZE: u8 = 5;

/// The least significant byte of an integer in two's complement.
pub open spec fn low_byte(v: int) -> int {
    v % 256
}

/// Computes the least significant byte of `v`.
pub fn low_byte_of(v: i32) -> (b: u8)
    ensures
        b == low_byte(v as int),
{
    let b: u8 = #[verifier::truncate] (v as u8);
    assert(v as u8 == (v as int) % 256) by (bit_vector);
    b
}

/// A cell of the grid: row `x`, column `y`.
#[derive(Clone, Copy, Debug, PartialEq, Eq, Structural)]
pub struct Point {
    pub x: u8,
    pub y: u8,
}

impl Default for Point {
    fn default() -> (p: Point)
        ensures
            p == (Point { x: 0, y: 0 }),
    {
        Point { x: 0, y: 0 }
    }
}

impl Point {
    /// Both coordinates lie on the grid.
    pub open spec fn in_grid(self) -> bool {
        self.x < GRID_SIZE && self.y < GRID_SIZE
    }

    /// The two cells differ by exactly one in exactly one coordinate.
    pub open spec fn adjacent(self, q: Point) -> bool {
        ||| self.x == q.x && (self.y + 1 == q.y || q.y + 1 == self.y)
        ||| self.y == q.y && (self.x + 1 == q.x || q.x + 1 == self.x)
    }

    /// The cell one step in direction `d`, or the cell itself where that
    /// step would leave the grid or `d` is `Stop`.
    pub open spec fn toward(self, d: Direction) -> Point {
        match d {
            Direction::Right => if self.y < GRID_SIZE - 1 {
                Point { x: self.x, y: (self.y + 1) as u8 }
            } else {
                self
            },
            Direction::Left => if self.y > 0 {
                Point { x: self.x, y: (self.y - 1) as u8 }
            } else {
                self
            },
            Direction::Down => if self.x < GRID_SIZE - 1 {
                Point { x: (self.x + 1) as u8, y: self.y }
            } else {
                self
            },
            Direction::Up => if self.x > 0 {
                Point { x: (self.x - 1) as u8, y: self.y }
            } else {
                self
            },
            Direction::Stop => self,
        }
    }

    /// The cell that a sample designates: the low byte of its x and of its y
    /// axis, each reduced modulo the grid size.
    pub open spec fn drawn(m: Sample) -> Point {
        Point {
            x: (low_byte(m.x as int) % (GRID_SIZE as int)) as u8,
            y: (low_byte(m.y as int) % (GRID_SIZE as int)) as u8,
        }
    }

    /// The cell at row `x` and column `y`, if it lies on the grid.
    pub fn new(x: u8, y: u8) -> (r: Option<Point>)
        ensures
            r is Some <==> x < GRID_SIZE && y < GRID_SIZE,
            r matches Some(p) ==> p.x == x && p.y == y,
    {
        if x < GRID_SIZE && y < GRID_SIZE {
            Some(Point { x, y })
        } else {
            None
        }
    }

    /// Tells whether both coordinates lie on the grid.
    pub fn is_in_grid(&self) -> (b: bool)
        ensures
            b == self.in_grid(),
    {
        self.x < GRID_SIZE && self.y < GRID_SIZE
    }

    /// Tells whether the two cells are neighbours along a row or a column.
    pub fn is_adjacent(&self, q: &Point) -> (b: bool)
        ensures
            b == self.adjacent(*q),
    {
        let dx: u8 = if self.x < q.x {
            q.x - self.x
        } else {
            self.x - q.x
        };
        let dy: u8 = if self.y < q.y {
            q.y - self.y
        } else {
            self.y - q.y
        };
        (dx == 0 && dy == 1) || (dx == 1 && dy == 0)
    }

    fn move_down(&mut self)
        ensures
            *final(self) == old(self).toward(Direction::Down),
    {
        if self.x < GRID_SIZE - 1 {
            self.x = self.x + 1;
        }
    }

    fn move_up(&mut self)
        ensures
            *final(self) == old(self).toward(Direction::Up),
    {
        if self.x > 0 {
            self.x = self.x - 1;
        }
    }

    fn move_right(&mut self)
        ensures
            *final(self) == old(self).toward(Direction::Right),
    {
        if self.y < GRID_SIZE - 1 {
            self.y = self.y + 1;
        }
    }

    fn move_left(&mut self)
        ensures
            *final(self) == old(self).toward(Direction::Left),
    {
        if self.y > 0 {
            self.y = self.y - 1;
        }
    }

    /// The cell that a step in direction `d` aims at, clamped to the grid.
    pub fn candidate(&self, d: &Direction) -> (np: Point)
        ensures
            np == self.toward(*d),
    {
        let mut np = *self;
        match d {
            Direction::Right => np.move_right(),
            Direction::Left => np.move_left(),
            Direction::Down => np.move_down(),
            Direction::Up => np.move_up(),
            Direction::Stop => (),
        }
        np
    }

    /// Draws a cell from the x and y axes of a sample.
    pub fn rand(m: &Sample) -> (p: Point)
        ensures
            p == Point::drawn(*m),
            p.in_grid(),
    {
        Point { x: low_byte_of(m.x) % GRID_SIZE, y: low_byte_of(m.y) % GRID_SIZE }
    }
}

/// A step never leaves the grid, and where it moves at all it lands on a
/// neighbouring cell.
pub proof fn lemma_toward_stays(p: Point, d: Direction)
    requires
        p.in_grid(),
    ensures
        p.toward(d).in_grid(),
        p.toward(d) != p ==> p.adjacent(p.toward(d)),
{
}

/// From a cell on the grid, every two opposite directions hold one that
/// moves: a cell cannot touch both ends of a row, nor of a column.
pub proof fn lemma_some_step_moves(p: Point)
    requires
        p.in_grid(),
    ensures
        p.toward(Direction::Up) != p || p.toward(Direction::Down) != p,
        p.toward(Direction::Left) != p || p.toward(Direction::Right) != p,
{
}

} // verus!
