//! Movement of a cell through a labyrinth, one step at a time.

use vstd::prelude::*;
use crate::accel::Direction;
use crate::labyrinth::blocks_in;
use crate::labyrinth::lemma_wall_blocks_both_ways;
use crate::labyrinth::Labyrinth;
use crate::point::lemma_toward_stays;
use crate::point::Point;
use crate::point::GRID_SIZE;
use crate::wall::Wall;

verus! {

/// Where a step from `p` in direction `d` through `walls` ends: at the
/// neighbouring cell, or at `p` itself where the grid ends or a wall is in
/// the way.
pub open spec fn step(p: Point, d: Direction, walls: Seq<Wall>) -> Point {
    if p.toward(d) == p || blocks_in(walls, p, p.toward(d)) {
        p
    } else {
        p.toward(d)
    }
}

impl Point {
    /// Tells whether no wall of `l` lies between this cell and `np`.
    pub fn is_ok(&self, np: &Point, l: &Labyrinth) -> (ok: bool)
        ensures
            ok == !blocks_in(l@, *self, *np),
    {
        !l.blocks(self, np)
    }

    /// Moves one step in direction `d` unless the grid ends there or a wall
    /// of `l` is in the way.
    pub fn shift(&mut self, d: &Direction, l: &Labyrinth)
        ensures
            *final(self) == step(*old(self), *d, l@),
            old(self).in_grid() ==> final(self).in_grid(),
    {
        let np = self.candidate(d);
        if *self == np {
            return;
        }
        proof {
            if self.in_grid() {
                lemma_toward_stays(*self, *d);
            }
        }
        if self.is_ok(&np, l) {
            *self = np;
        }
    }
}

/// A `Stop` leaves the cell where it is, whatever the walls.
pub proof fn lemma_stop_stays(p: Point, walls: Seq<Wall>)
    ensures
        step(p, Direction::Stop, walls) == p,
{
}

/// A step that would leave the grid leaves the cell where it is, whatever
/// the walls. In particular the corner cell at row 0 and column 0 moves
/// neither up nor left.
pub proof fn lemma_edge_stops(p: Point, walls: Seq<Wall>)
    ensures
        p.x == 0 ==> step(p, Direction::Up, walls) == p,
        p.y == 0 ==> step(p, Direction::Left, walls) == p,
        p.x == GRID_SIZE - 1 ==> step(p, Direction::Down, walls) == p,
        p.y == GRID_SIZE - 1 ==> step(p, Direction::Right, walls) == p,
        step(Point { x: 0, y: 0 }, Direction::Up, walls) == (Point { x: 0, y: 0 }),
        step(Point { x: 0, y: 0 }, Direction::Left, walls) == (Point { x: 0, y: 0 }),
{
}

/// A step from a cell of the grid ends on the grid, at the cell itself or
/// at a neighbour of it.
pub proof fn lemma_step_stays(p: Point, d: Direction, walls: Seq<Wall>)
    requires
        p.in_grid(),
    ensures
        step(p, d, walls).in_grid(),
        step(p, d, walls) == p || p.adjacent(step(p, d, walls)),
{
    lemma_toward_stays(p, d);
}

/// A step toward a cell behind a wall is rejected: the cell stays where it
/// is.
pub proof fn lemma_wall_stops_step(walls: Seq<Wall>, i: int, d: Direction)
    requires
        0 <= i < walls.len(),
    ensures
        walls[i].a.toward(d) == walls[i].b ==> step(walls[i].a, d, walls) == walls[i].a,
        walls[i].b.toward(d) == walls[i].a ==> step(walls[i].b, d, walls) == walls[i].b,
{
    lemma_wall_blocks_both_ways(walls, i);
}

/// Where no wall is in the way and the grid does not end, a step moves to
/// the neighbouring cell.
pub proof fn lemma_free_step_moves(p: Point, d: Direction, walls: Seq<Wall>)
    requires
        !blocks_in(walls, p, p.toward(d)),
    ensures
        step(p, d, walls) == p.toward(d),
{
}

} // verus!
