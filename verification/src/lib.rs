//! Decision logic of a tilt-controlled maze on a five-by-five LED matrix.
//!
//! Raw accelerometer samples are averaged over a fixed window, the average is
//! classified into a movement direction, the dot moves one cell unless a wall
//! or the edge of the grid is in the way, and its position is projected onto
//! the display surface.
//!
//! - `accel`: samples, their average over a window, and the direction that
//!   an average expresses.
//! - `point`: cells of the grid and single steps between them.
//! - `wall`: blocked transitions between neighbouring cells, fixed or drawn
//!   from a sample.
//! - `store`: the fixed-capacity vector that holds the walls.
//! - `labyrinth`: the set of walls and its construction.
//! - `movement`: a step through a labyrinth.
//! - `world`: the display surface.
//! - `game`: one turn of the control loop.
//!
//! Every function carries a contract over a mathematical model of its
//! arguments, and every contract is proved, with one exception: what the
//! vector of `store` does is stated there and taken on trust.

pub mod accel;
pub mod point;
pub mod wall;
pub mod store;
pub mod labyrinth;
pub mod movement;
pub mod world;
pub mod game;
