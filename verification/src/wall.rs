//! Walls: blocked transitions between two neighbouring cells.

use vstd::prelude::*;
use vstd::std_specs::cmp::PartialEqSpecImpl;
use crate::accel::Direction;
use crate::accel::Sample;
use crate::point::low_byte;
use crate::point::low_byte_of;
use crate::point::lemma_some_step_moves;
use crate::point::lemma_toward_stays;
use crate::point::Point;

verus! {

/// A blocked transition between the cells `a` and `b`, in both directions.
#[derive(Clone, Copy, Debug)]
pub struct Wall {
    pub a: Point,
    pub b: Point,
}

impl View for Wall {
    type V = Set<Point>;

    /// A wall is the unordered pair of its endpoints.
    open spec fn view(&self) -> Set<Point> {
        set![self.a, self.b]
    }
}

impl PartialEq for Wall {
    /// Two walls are equal when they join the same two cells.
    fn eq(&self, other: &Wall) -> (r: bool) {
        (self.a == other.a && self.b == other.b) || (self.a == other.b && self.b == other.a)
    }
}

impl PartialEqSpecImpl for Wall {
    open spec fn obeys_eq_spec() -> bool {
        true
    }

    open spec fn eq_spec(&self, other: &Wall) -> bool {
        self.joins(other.a, other.b)
    }
}

impl Eq for Wall {

}

/// The direction that a selector stands for, by its remainder modulo four.
pub open spec fn heading(sel: int) -> Direction {
    if sel % 4 == 0 {
        Direction::Up
    } else if sel % 4 == 1 {
        Direction::Down
    } else if sel % 4 == 2 {
        Direction::Right
    } else {
        Direction::Left
    }
}

/// The first cell other than `a` that a step from `a` reaches when the
/// selectors `sel`, `sel + 1`, `sel + 2`, `sel + 3` are tried in this order.
pub open spec fn neighbor(a: Point, sel: int) -> Point {
    if a.toward(heading(sel)) != a {
        a.toward(heading(sel))
    } else if a.toward(heading(sel + 1)) != a {
        a.toward(heading(sel + 1))
    } else if a.toward(heading(sel + 2)) != a {
        a.toward(heading(sel + 2))
    } else {
        a.toward(heading(sel + 3))
    }
}

/// Computes the direction that a selector below four stands for.
fn heading_of(sel: u8) -> (d: Direction)
    requires
        sel < 4,
    ensures
        d == heading(sel as int),
{
    if sel == 0 {
        Direction::Up
    } else if sel == 1 {
        Direction::Down
    } else if sel == 2 {
        Direction::Right
    } else {
        Direction::Left
    }
}

impl Wall {
    /// Both endpoints lie on the grid and are neighbours.
    pub open spec fn wf(self) -> bool {
        &&& self.a.in_grid()
        &&& self.b.in_grid()
        &&& self.a.adjacent(self.b)
    }

    /// The endpoints of the wall are `p` and `q`, in either order.
    pub open spec fn joins(self, p: Point, q: Point) -> bool {
        (p == self.a && q == self.b) || (p == self.b && q == self.a)
    }

    /// The wall that a sample designates: from the cell drawn from its x and
    /// y axes to the neighbour selected by its z axis.
    pub open spec fn drawn(m: Sample) -> Wall {
        Wall { a: Point::drawn(m), b: neighbor(Point::drawn(m), low_byte(m.z as int) % 4) }
    }

    /// The wall between `a` and `b`, if both lie on the grid and are
    /// neighbours.
    pub fn new(a: Point, b: Point) -> (r: Option<Wall>)
        ensures
            r is Some <==> a.in_grid() && b.in_grid() && a.adjacent(b),
            r matches Some(w) ==> w.a == a && w.b == b,
    {
        if a.is_in_grid() && b.is_in_grid() && a.is_adjacent(&b) {
            Some(Wall { a, b })
        } else {
            None
        }
    }

    /// Tells whether the wall lies between `p` and `np`.
    pub fn is_blocking(&self, p: &Point, np: &Point) -> (r: bool)
        ensures
            r == self.joins(*p, *np),
    {
        (*p == self.a && *np == self.b) || (*p == self.b && *np == self.a)
    }

    /// Draws a wall from a sample.
    ///
    /// The first endpoint comes from the x and y axes. The low byte of the z
    /// axis selects the direction of the second; where that step would leave
    /// the grid the selector is incremented until a step moves.
    pub fn rand(m: Sample) -> (w: Wall)
        ensures
            w == Wall::drawn(m),
            w.wf(),
    {
        let a = Point::rand(&m);
        let first: u8 = low_byte_of(m.z) % 4;
        let mut tries: u8 = 0;
        let mut b = a.candidate(&heading_of(first));
        while b == a && tries < 3
            invariant
                first < 4,
                tries <= 3,
                a.in_grid(),
                b == a.toward(heading(first + tries)),
                tries >= 1 ==> a.toward(heading(first as int)) == a,
                tries >= 2 ==> a.toward(heading(first + 1)) == a,
                tries >= 3 ==> a.toward(heading(first + 2)) == a,
            decreases 3 - tries,
        {
            tries = tries + 1;
            b = a.candidate(&heading_of((first + tries) % 4));
        }
        proof {
            lemma_some_step_moves(a);
            lemma_toward_stays(a, heading(first + tries));
        }
        Wall { a, b }
    }
}

/// The wall drawn from a sample lies between two neighbouring cells of the
/// grid.
pub proof fn lemma_drawn_wf(m: Sample)
    ensures
        Wall::drawn(m).wf(),
{
    let a = Point::drawn(m);
    let sel = low_byte(m.z as int) % 4;
    assert(a.in_grid());
    lemma_some_step_moves(a);
    lemma_toward_stays(a, heading(sel));
    lemma_toward_stays(a, heading(sel + 1));
    lemma_toward_stays(a, heading(sel + 2));
    lemma_toward_stays(a, heading(sel + 3));
}

/// A wall joins two cells exactly when it is, as an unordered pair, the pair
/// of these cells.
pub proof fn lemma_joins_is_pair(w: Wall, p: Point, q: Point)
    ensures
        w.joins(p, q) <==> w@ == set![p, q],
{
    if w.joins(p, q) {
        assert(w@ =~= set![p, q]);
    }
    if w@ == set![p, q] {
        assert(w@.contains(w.a) && w@.contains(w.b));
        assert(set![p, q].contains(p) && set![p, q].contains(q));
    }
}

/// A wall blocks both directions of travel between its endpoints.
pub proof fn lemma_joins_symmetric(w: Wall, p: Point, q: Point)
    ensures
        w.joins(p, q) == w.joins(q, p),
        w.joins(w.a, w.b),
        w.joins(w.b, w.a),
{
}

} // verus!
