//! One turn of the control loop: samples go in one by one, and each time a
//! window is complete the dot moves and a new frame comes out.

use vstd::prelude::*;
use crate::accel::classify;
use crate::accel::Averager;
use crate::accel::Direction;
use crate::accel::Sample;
use crate::accel::Tally;
use crate::labyrinth::well_formed;
use crate::labyrinth::Labyrinth;
use crate::movement::step;
use crate::point::lemma_toward_stays;
use crate::point::Point;
use crate::wall::Wall;
use crate::world::World;

verus! {

/// Number of walls of a generated labyrinth.
pub const DIFFICULTY: usize = 10;

/// What a completed window leads to: the direction read from the tilt and
/// the surface to show.
#[derive(Clone, Copy, Debug)]
pub struct Frame {
    pub dir: Direction,
    pub world: World,
}

/// Where the dot ends when the window `window` is completed by the sample
/// `m`: one step from `dot` in the direction of the window's average.
pub open spec fn destination(dot: Point, window: Tally, m: Sample, walls: Seq<Wall>) -> Point {
    step(dot, window_direction(window.with(m)), walls)
}

/// The direction that the average of a window expresses.
pub open spec fn window_direction(window: Tally) -> Direction {
    classify(window.average().0, window.average().1)
}

/// The dot, the window of samples under way, and the labyrinth.
pub struct Game {
    dot: Point,
    window: Averager,
    maze: Labyrinth,
}

impl Game {
    /// The cell of the dot.
    pub closed spec fn dot(&self) -> Point {
        self.dot
    }

    /// The window of samples under way.
    pub closed spec fn window(&self) -> Tally {
        self.window@
    }

    /// The walls of the labyrinth.
    pub closed spec fn walls(&self) -> Seq<Wall> {
        self.maze@
    }

    /// The invariant of a game: the dot is on the grid, the window is within
    /// its limits and waits for at least one sample, the walls are well
    /// formed.
    pub open spec fn wf(&self) -> bool {
        &&& self.dot().in_grid()
        &&& self.window().within_limits()
        &&& self.window().left > 0
        &&& well_formed(self.walls())
    }

    /// A game in the given labyrinth, with the dot at row 0 and column 0 and
    /// an empty window.
    pub fn new(maze: Labyrinth) -> (g: Game)
        requires
            maze.wf(),
        ensures
            g.dot() == (Point { x: 0, y: 0 }),
            g.window() == Tally::fresh(),
            g.walls() == maze@,
            g.wf(),
    {
        Game { dot: Point { x: 0, y: 0 }, window: Averager::new(), maze }
    }

    /// The cell of the dot.
    pub fn position(&self) -> (p: Point)
        ensures
            p == self.dot(),
    {
        self.dot
    }

    /// The labyrinth.
    pub fn maze(&self) -> (l: &Labyrinth)
        ensures
            l@ == self.walls(),
    {
        &self.maze
    }

    /// Puts the dot on a cell of the grid.
    pub fn place(&mut self, p: Point)
        requires
            old(self).wf(),
            p.in_grid(),
        ensures
            final(self).dot() == p,
            final(self).window() == old(self).window(),
            final(self).walls() == old(self).walls(),
            final(self).wf(),
    {
        self.dot = p;
    }

    /// Takes one sample.
    ///
    /// While the window is incomplete the sample is only counted. The sample
    /// that completes the window makes the dot take one step in the
    /// direction of the window's average, and the frame that shows the dot
    /// comes back; the next sample starts a new window.
    pub fn tick(&mut self, m: Sample) -> (r: Option<Frame>)
        requires
            old(self).wf(),
            m.bounded(),
        ensures
            final(self).wf(),
            final(self).walls() == old(self).walls(),
            r is Some <==> old(self).window().left == 1,
            r is None ==> final(self).dot() == old(self).dot() && final(self).window() == old(
                self,
            ).window().with(m),
            r matches Some(frame) ==> {
                &&& frame.dir == window_direction(old(self).window().with(m))
                &&& final(self).dot() == destination(
                    old(self).dot(),
                    old(self).window(),
                    m,
                    old(self).walls(),
                )
                &&& frame.world.shows(final(self).dot())
                &&& final(self).window() == Tally::fresh()
            },
    {
        self.window.add(m);
        if !self.window.is_ready() {
            return None;
        }
        let avg = self.window.finalize();
        let dir = avg.dir();
        self.dot.shift(&dir, &self.maze);
        let world = World::render(&self.dot);
        Some(Frame { dir, world })
    }
}

/// A game whose window averages inside the dead zone leaves the dot where
/// it is; so does one whose dot is asked to leave the grid or to cross a
/// wall. In every case the dot stays on the grid.
pub proof fn lemma_destination_on_grid(dot: Point, window: Tally, m: Sample, walls: Seq<Wall>)
    requires
        dot.in_grid(),
    ensures
        destination(dot, window, m, walls).in_grid(),
        window_direction(window.with(m)) == Direction::Stop ==> destination(
            dot,
            window,
            m,
            walls,
        ) == dot,
{
    lemma_toward_stays(dot, window_direction(window.with(m)));
}

} // verus!
