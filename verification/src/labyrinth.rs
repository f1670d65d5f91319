//! The labyrinth: a bounded set of walls, the query that movement needs of
//! it, and its construction wall by wall or from samples.

use vstd::prelude::*;
use vstd::set_lib::lemma_int_range;
use vstd::set_lib::lemma_len_subset;
use vstd::set_lib::lemma_subset_equality;
use vstd::set_lib::set_int_range;
use crate::accel::Sample;
use crate::point::Point;
use crate::point::GRID_SIZE;
use crate::store::held;
use crate::store::store_new;
use crate::store::store_push;
use crate::store::store_slice;
use crate::store::MAX_WALLS;
use crate::wall::lemma_drawn_wf;
use crate::wall::Wall;

verus! {

/// Some wall of `walls` lies between `p` and `q`.
pub open spec fn blocks_in(walls: Seq<Wall>, p: Point, q: Point) -> bool {
    exists|i: int| 0 <= i < walls.len() && (#[trigger] walls[i]).joins(p, q)
}

/// No two walls of `walls` join the same two cells.
pub open spec fn distinct(walls: Seq<Wall>) -> bool {
    forall|i: int, j: int|
        0 <= i < j < walls.len() ==> !(#[trigger] walls[i]).joins(
            (#[trigger] walls[j]).a,
            walls[j].b,
        )
}

/// At most `MAX_WALLS` walls, each between two neighbouring cells of the
/// grid, no two between the same cells.
pub open spec fn well_formed(walls: Seq<Wall>) -> bool {
    &&& walls.len() <= MAX_WALLS
    &&& forall|i: int| 0 <= i < walls.len() ==> (#[trigger] walls[i]).wf()
    &&& distinct(walls)
}

/// The walls after `w` was offered: unchanged where a wall between the same
/// cells is already among them, else with `w` appended.
pub open spec fn offered(walls: Seq<Wall>, w: Wall) -> Seq<Wall> {
    if blocks_in(walls, w.a, w.b) {
        walls
    } else {
        walls.push(w)
    }
}

/// Number of the transition that a wall blocks, among the transitions
/// between neighbouring cells of the grid: those along a row come first,
/// row by row, then those along a column.
pub open spec fn slot(w: Wall) -> int {
    let x = if w.a.x <= w.b.x {
        w.a.x as int
    } else {
        w.b.x as int
    };
    let y = if w.a.y <= w.b.y {
        w.a.y as int
    } else {
        w.b.y as int
    };
    if w.a.x == w.b.x {
        x * (GRID_SIZE - 1) + y
    } else {
        GRID_SIZE * (GRID_SIZE - 1) + x * GRID_SIZE + y
    }
}

/// The slots of the walls of a sequence, in the same order.
pub open spec fn slots(walls: Seq<Wall>) -> Seq<int> {
    Seq::new(walls.len(), |i: int| slot(walls[i]))
}

/// The walls after the walls drawn from `samples` were offered in order,
/// stopping as soon as `target` walls are there.
pub open spec fn grown(walls: Seq<Wall>, samples: Seq<Sample>, target: nat) -> Seq<Wall>
    decreases samples.len(),
{
    if samples.len() == 0 || walls.len() >= target {
        walls
    } else {
        grown(offered(walls, Wall::drawn(samples[0])), samples.drop_first(), target)
    }
}

/// A set of walls on the grid.
pub struct Labyrinth {
    walls: heapless::Vec<Wall, MAX_WALLS>,
}

impl View for Labyrinth {
    type V = Seq<Wall>;

    /// The walls in the order in which they were accepted.
    closed spec fn view(&self) -> Seq<Wall> {
        held(self.walls)
    }
}

impl Default for Labyrinth {
    fn default() -> (l: Labyrinth)
        ensures
            l@ == Seq::<Wall>::empty(),
            l.wf(),
    {
        Labyrinth::new()
    }
}

impl Labyrinth {
    /// The invariant of a labyrinth.
    pub open spec fn wf(&self) -> bool {
        well_formed(self@)
    }

    /// A labyrinth without walls.
    pub fn new() -> (l: Labyrinth)
        ensures
            l@ == Seq::<Wall>::empty(),
            l.wf(),
    {
        Labyrinth { walls: store_new() }
    }

    /// Number of walls.
    pub fn len(&self) -> (n: usize)
        ensures
            n == self@.len(),
    {
        store_slice(&self.walls).len()
    }

    /// The wall accepted as number `i`, counting from zero.
    pub fn get(&self, i: usize) -> (r: Option<Wall>)
        ensures
            r is Some <==> i < self@.len(),
            r matches Some(w) ==> w == self@[i as int],
    {
        let walls = store_slice(&self.walls);
        if i < walls.len() {
            Some(walls[i])
        } else {
            None
        }
    }

    /// Tells whether a wall lies between `p` and `q`.
    pub fn blocks(&self, p: &Point, q: &Point) -> (r: bool)
        ensures
            r == blocks_in(self@, *p, *q),
    {
        let walls = store_slice(&self.walls);
        let mut i: usize = 0;
        while i < walls.len()
            invariant
                i <= walls.len(),
                walls@ == self@,
                forall|k: int| 0 <= k < i ==> !(#[trigger] walls@[k]).joins(*p, *q),
            decreases walls.len() - i,
        {
            if walls[i].is_blocking(p, q) {
                return true;
            }
            i = i + 1;
        }
        false
    }

    /// Offers a wall: it is accepted unless a wall between the same cells is
    /// already there. A labyrinth has room for every wall of the grid, so
    /// lack of room never turns a wall away.
    pub fn insert(&mut self, w: Wall) -> (added: bool)
        requires
            old(self).wf(),
            w.wf(),
        ensures
            added <==> !blocks_in(old(self)@, w.a, w.b),
            final(self)@ == offered(old(self)@, w),
            final(self).wf(),
    {
        if self.blocks(&w.a, &w.b) {
            return false;
        }
        proof {
            lemma_room_for_new_wall(self@, w);
        }
        let r = store_push(&mut self.walls, w);
        r.is_ok()
    }

    /// Offers the wall drawn from a sample.
    pub fn offer(&mut self, m: Sample) -> (added: bool)
        requires
            old(self).wf(),
        ensures
            added <==> !blocks_in(old(self)@, Wall::drawn(m).a, Wall::drawn(m).b),
            final(self)@ == offered(old(self)@, Wall::drawn(m)),
            final(self).wf(),
    {
        self.insert(Wall::rand(m))
    }

    /// Builds a labyrinth from samples: the wall drawn from each is offered
    /// in turn until `target` walls are there or the samples run out.
    pub fn generate(samples: &[Sample], target: usize) -> (l: Labyrinth)
        ensures
            l@ == grown(Seq::<Wall>::empty(), samples@, target as nat),
            l.wf(),
            l@.len() <= target,
    {
        let mut l = Labyrinth::new();
        let mut i: usize = 0;
        assert(samples@.skip(0) == samples@);
        while i < samples.len() && l.len() < target
            invariant
                i <= samples.len(),
                l.wf(),
                l@.len() <= target,
                grown(Seq::<Wall>::empty(), samples@, target as nat) == grown(
                    l@,
                    samples@.skip(i as int),
                    target as nat,
                ),
            decreases samples.len() - i,
        {
            proof {
                assert(samples@.skip(i as int)[0] == samples@[i as int]);
                assert(samples@.skip(i as int).drop_first() == samples@.skip(i + 1));
            }
            l.offer(samples[i]);
            i = i + 1;
        }
        l
    }
}

/// Blocking does not depend on the direction of travel.
pub proof fn lemma_blocks_symmetric(walls: Seq<Wall>, p: Point, q: Point)
    ensures
        blocks_in(walls, p, q) == blocks_in(walls, q, p),
{
    if blocks_in(walls, p, q) {
        let i = choose|i: int| 0 <= i < walls.len() && (#[trigger] walls[i]).joins(p, q);
        assert(walls[i].joins(q, p));
    }
    if blocks_in(walls, q, p) {
        let i = choose|i: int| 0 <= i < walls.len() && (#[trigger] walls[i]).joins(q, p);
        assert(walls[i].joins(p, q));
    }
}

/// Every wall of a labyrinth blocks the way between its endpoints, in both
/// directions.
pub proof fn lemma_wall_blocks_both_ways(walls: Seq<Wall>, i: int)
    requires
        0 <= i < walls.len(),
    ensures
        blocks_in(walls, walls[i].a, walls[i].b),
        blocks_in(walls, walls[i].b, walls[i].a),
{
    assert(walls[i].joins(walls[i].a, walls[i].b));
    assert(walls[i].joins(walls[i].b, walls[i].a));
}

/// Offering a wall between neighbouring cells of the grid keeps the walls
/// well formed, keeps every wall that was there, and adds at most the one
/// offered.
pub proof fn lemma_offered_well_formed(walls: Seq<Wall>, w: Wall)
    requires
        well_formed(walls),
        w.wf(),
    ensures
        well_formed(offered(walls, w)),
        offered(walls, w) == walls || offered(walls, w) == walls.push(w),
        blocks_in(offered(walls, w), w.a, w.b),
{
    let after = offered(walls, w);
    if !blocks_in(walls, w.a, w.b) {
        lemma_room_for_new_wall(walls, w);
        assert(after[walls.len() as int].joins(w.a, w.b));
    }
}

/// The slot of a wall between neighbouring cells of the grid is one of
/// `MAX_WALLS` numbers, and two such walls with the same slot join the same
/// cells.
pub proof fn lemma_slot_names_wall(w: Wall, v: Wall)
    requires
        w.wf(),
        v.wf(),
    ensures
        0 <= slot(w) < MAX_WALLS,
        slot(w) == slot(v) <==> w.joins(v.a, v.b),
{
}

/// Walls that are well formed and fill the capacity block every transition
/// between neighbouring cells of the grid.
pub proof fn lemma_full_blocks_all(walls: Seq<Wall>, w: Wall)
    requires
        well_formed(walls),
        walls.len() == MAX_WALLS,
        w.wf(),
    ensures
        blocks_in(walls, w.a, w.b),
{
    let taken = slots(walls);
    assert forall|i: int, j: int|
        0 <= i < taken.len() && 0 <= j < taken.len() && i != j implies taken[i] != taken[j] by {
        lemma_slot_names_wall(walls[i], walls[j]);
        if i < j {
            assert(!walls[i].joins(walls[j].a, walls[j].b));
        } else {
            assert(!walls[j].joins(walls[i].a, walls[i].b));
        }
    }
    taken.unique_seq_to_set();
    let all = set_int_range(0, MAX_WALLS as int);
    lemma_int_range(0, MAX_WALLS as int);
    assert forall|s: int| taken.to_set().contains(s) implies all.contains(s) by {
        let i = choose|i: int| 0 <= i < taken.len() && taken[i] == s;
        lemma_slot_names_wall(walls[i], w);
    }
    lemma_len_subset(taken.to_set(), all);
    lemma_subset_equality(taken.to_set(), all);
    lemma_slot_names_wall(w, w);
    assert(all.contains(slot(w)));
    assert(taken.to_set().contains(slot(w)));
    let i = choose|i: int| 0 <= i < taken.len() && taken[i] == slot(w);
    lemma_slot_names_wall(walls[i], w);
    assert(walls[i].joins(w.a, w.b));
}

/// Well-formed walls that do not yet hold a given wall of the grid are
/// below capacity.
pub proof fn lemma_room_for_new_wall(walls: Seq<Wall>, w: Wall)
    requires
        well_formed(walls),
        w.wf(),
        !blocks_in(walls, w.a, w.b),
    ensures
        walls.len() < MAX_WALLS,
{
    if walls.len() == MAX_WALLS {
        lemma_full_blocks_all(walls, w);
    }
}

/// Generation from samples yields at most `target` walls when it starts
/// with no more than that, each between neighbouring cells of the grid and
/// no two between the same cells; the walls it started with stay in front.
pub proof fn lemma_grown_well_formed(walls: Seq<Wall>, samples: Seq<Sample>, target: nat)
    requires
        well_formed(walls),
        walls.len() <= target,
    ensures
        well_formed(grown(walls, samples, target)),
        grown(walls, samples, target).len() <= target,
        walls.len() <= grown(walls, samples, target).len(),
        grown(walls, samples, target).subrange(0, walls.len() as int) == walls,
    decreases samples.len(),
{
    if samples.len() == 0 || walls.len() >= target {
        assert(walls.subrange(0, walls.len() as int) == walls);
    } else {
        let w = Wall::drawn(samples[0]);
        lemma_drawn_wf(samples[0]);
        lemma_offered_well_formed(walls, w);
        let next = offered(walls, w);
        lemma_grown_well_formed(next, samples.drop_first(), target);
        let end = grown(next, samples.drop_first(), target);
        assert(end.subrange(0, walls.len() as int) == end.subrange(0, next.len() as int).subrange(
            0,
            walls.len() as int,
        ));
    }
}

/// Once the target count is reached, generation takes no further wall.
pub proof fn lemma_grown_complete(walls: Seq<Wall>, samples: Seq<Sample>, target: nat)
    requires
        walls.len() >= target,
    ensures
        grown(walls, samples, target) == walls,
{
}

/// Generation ends below the target count only where the samples run out:
/// it then holds the wall drawn from every sample. So it yields exactly the
/// target count whenever the samples draw that many different walls.
pub proof fn lemma_grown_short_when_exhausted(
    walls: Seq<Wall>,
    samples: Seq<Sample>,
    target: nat,
)
    requires
        well_formed(walls),
        walls.len() <= target,
        grown(walls, samples, target).len() < target,
    ensures
        forall|k: int|
            0 <= k < samples.len() ==> blocks_in(
                grown(walls, samples, target),
                Wall::drawn(#[trigger] samples[k]).a,
                Wall::drawn(samples[k]).b,
            ),
    decreases samples.len(),
{
    if samples.len() > 0 && walls.len() < target {
        let w = Wall::drawn(samples[0]);
        let rest = samples.drop_first();
        let next = offered(walls, w);
        let end = grown(next, rest, target);
        lemma_drawn_wf(samples[0]);
        lemma_offered_well_formed(walls, w);
        lemma_grown_well_formed(next, rest, target);
        lemma_grown_short_when_exhausted(next, rest, target);
        assert forall|k: int| 0 <= k < samples.len() implies blocks_in(
            end,
            Wall::drawn(#[trigger] samples[k]).a,
            Wall::drawn(samples[k]).b,
        ) by {
            if k == 0 {
                let i = choose|i: int| 0 <= i < next.len() && (#[trigger] next[i]).joins(w.a, w.b);
                assert(end.subrange(0, next.len() as int)[i] == end[i]);
                assert(end[i].joins(w.a, w.b));
            } else {
                assert(samples[k] == rest[k - 1]);
            }
        }
    }
}

} // verus!
