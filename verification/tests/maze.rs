use tilt_maze::accel::{Accel, Averager, Direction, Sample};
use tilt_maze::game::{Game, DIFFICULTY};
use tilt_maze::labyrinth::Labyrinth;
use tilt_maze::point::Point;
use tilt_maze::store::MAX_WALLS;
use tilt_maze::wall::Wall;
use tilt_maze::world::World;

fn at(x: u8, y: u8) -> Point {
    Point::new(x, y).unwrap()
}

fn wall(ax: u8, ay: u8, bx: u8, by: u8) -> Wall {
    Wall::new(at(ax, ay), at(bx, by)).unwrap()
}

fn sample(x: i32, y: i32, z: i32) -> Sample {
    Sample { x, y, z }
}

fn fixed_maze() -> Labyrinth {
    let mut l = Labyrinth::new();
    assert!(l.insert(wall(0, 0, 1, 0)));
    l
}

fn lit_cells(w: &World) -> Vec<(usize, usize)> {
    let mut cells = Vec::new();
    for x in 0..5 {
        for y in 0..5 {
            if w.leds[x][y] != 0 {
                cells.push((x, y));
            }
        }
    }
    cells
}

#[test]
fn new_labyrinth_is_empty() {
    let l = Labyrinth::new();
    assert_eq!(l.len(), 0);
    assert!(l.get(0).is_none());
    assert!(!l.blocks(&at(0, 0), &at(1, 0)));
    assert_eq!(Labyrinth::default().len(), 0);
    assert_eq!(MAX_WALLS, 40);
}

#[test]
fn insert_keeps_walls_in_order() {
    let mut l = Labyrinth::new();
    assert!(l.insert(wall(0, 0, 1, 0)));
    assert!(l.insert(wall(2, 2, 2, 3)));
    assert!(l.insert(wall(4, 4, 4, 3)));
    assert_eq!(l.len(), 3);
    assert_eq!(l.get(0), Some(wall(0, 0, 1, 0)));
    assert_eq!(l.get(1), Some(wall(2, 2, 2, 3)));
    assert_eq!(l.get(2), Some(wall(4, 4, 4, 3)));
    assert_eq!(l.get(1).unwrap().a, at(2, 2));
    assert_eq!(l.get(1).unwrap().b, at(2, 3));
    assert_eq!(l.get(3), None);
}

#[test]
fn insert_discards_a_wall_between_the_same_cells() {
    let mut l = fixed_maze();
    assert!(!l.insert(wall(0, 0, 1, 0)));
    assert!(!l.insert(wall(1, 0, 0, 0)));
    assert_eq!(l.len(), 1);
    assert!(l.insert(wall(0, 0, 0, 1)));
    assert_eq!(l.len(), 2);
}

#[test]
fn walls_block_in_both_directions() {
    let mut l = fixed_maze();
    l.insert(wall(3, 3, 3, 4));
    for i in 0..l.len() {
        let w = l.get(i).unwrap();
        assert!(l.blocks(&w.a, &w.b));
        assert!(l.blocks(&w.b, &w.a));
    }
    assert!(l.blocks(&at(0, 0), &at(1, 0)));
    assert!(l.blocks(&at(1, 0), &at(0, 0)));
    assert!(l.blocks(&at(3, 4), &at(3, 3)));
    assert!(!l.blocks(&at(0, 0), &at(0, 1)));
    assert!(!l.blocks(&at(0, 0), &at(0, 0)));
    assert!(!l.blocks(&at(1, 0), &at(2, 0)));
}

#[test]
fn labyrinth_holds_every_wall_of_the_grid() {
    let mut l = Labyrinth::new();
    let mut count = 0;
    for x in 0..5u8 {
        for y in 0..5u8 {
            if y < 4 {
                assert!(l.insert(wall(x, y, x, y + 1)));
                count += 1;
            }
            if x < 4 {
                assert!(l.insert(wall(x, y, x + 1, y)));
                count += 1;
            }
            assert_eq!(l.len(), count);
        }
    }
    assert_eq!(l.len(), MAX_WALLS);
    assert!(!l.insert(wall(2, 2, 2, 3)));
    assert!(!l.insert(wall(2, 3, 2, 2)));
    assert_eq!(l.len(), MAX_WALLS);
    // every step from every cell is blocked or clamped
    for x in 0..5u8 {
        for y in 0..5u8 {
            for d in [Direction::Up, Direction::Down, Direction::Left, Direction::Right] {
                let mut p = at(x, y);
                p.shift(&d, &l);
                assert_eq!(p, at(x, y));
            }
        }
    }
}

#[test]
fn is_ok_is_the_negation_of_blocks() {
    let l = fixed_maze();
    assert!(!at(0, 0).is_ok(&at(1, 0), &l));
    assert!(!at(1, 0).is_ok(&at(0, 0), &l));
    assert!(at(0, 0).is_ok(&at(0, 1), &l));
    assert!(at(1, 0).is_ok(&at(1, 1), &l));
    assert!(at(2, 2).is_ok(&at(2, 3), &Labyrinth::new()));
}

#[test]
fn stop_never_moves() {
    let empty = Labyrinth::new();
    let l = fixed_maze();
    for x in 0..5u8 {
        for y in 0..5u8 {
            let mut p = at(x, y);
            p.shift(&Direction::Stop, &empty);
            assert_eq!(p, at(x, y));
            p.shift(&Direction::Stop, &l);
            assert_eq!(p, at(x, y));
        }
    }
}

#[test]
fn shift_is_clamped_at_the_origin() {
    for l in [Labyrinth::new(), fixed_maze()] {
        let mut p = at(0, 0);
        p.shift(&Direction::Up, &l);
        assert_eq!(p, at(0, 0));
        p.shift(&Direction::Left, &l);
        assert_eq!(p, at(0, 0));
    }
}

#[test]
fn shift_is_clamped_at_the_far_corner() {
    let l = Labyrinth::new();
    let mut p = at(4, 4);
    p.shift(&Direction::Down, &l);
    assert_eq!(p, at(4, 4));
    p.shift(&Direction::Right, &l);
    assert_eq!(p, at(4, 4));
    p.shift(&Direction::Up, &l);
    assert_eq!(p, at(3, 4));
    p.shift(&Direction::Left, &l);
    assert_eq!(p, at(3, 3));
}

#[test]
fn shift_moves_through_an_empty_labyrinth() {
    let l = Labyrinth::new();
    let mut p = at(2, 2);
    p.shift(&Direction::Right, &l);
    assert_eq!(p, at(2, 3));
    p.shift(&Direction::Down, &l);
    assert_eq!(p, at(3, 3));
    p.shift(&Direction::Left, &l);
    assert_eq!(p, at(3, 2));
    p.shift(&Direction::Up, &l);
    assert_eq!(p, at(2, 2));
}

#[test]
fn shift_is_rejected_by_a_wall() {
    let l = fixed_maze();
    let mut p = at(0, 0);
    p.shift(&Direction::Down, &l);
    assert_eq!(p, at(0, 0));
    let mut q = at(1, 0);
    q.shift(&Direction::Up, &l);
    assert_eq!(q, at(1, 0));
}

#[test]
fn shift_passes_beside_a_wall() {
    let l = fixed_maze();
    let mut p = at(0, 0);
    p.shift(&Direction::Right, &l);
    assert_eq!(p, at(0, 1));
    p.shift(&Direction::Down, &l);
    assert_eq!(p, at(1, 1));
    p.shift(&Direction::Left, &l);
    assert_eq!(p, at(1, 0));
    p.shift(&Direction::Down, &l);
    assert_eq!(p, at(2, 0));
}

#[test]
fn offer_draws_the_wall_from_the_sample() {
    let mut l = Labyrinth::new();
    assert!(l.offer(sample(7, 13, 2)));
    assert_eq!(l.len(), 1);
    assert_eq!(l.get(0), Some(wall(2, 3, 2, 4)));
    assert!(l.blocks(&at(2, 4), &at(2, 3)));
    // the same wall again, and the same wall from its other end
    assert!(!l.offer(sample(7, 13, 2)));
    assert!(!l.offer(sample(7, 14, 3)));
    assert_eq!(l.len(), 1);
    assert!(l.offer(sample(7, 13, 3)));
    assert_eq!(l.len(), 2);
}

#[test]
fn generate_stops_at_the_target_count() {
    let samples: Vec<Sample> = (0..200).map(|i| sample(i * 3, i * 7 + 1, i * 5 + 2)).collect();
    let l = Labyrinth::generate(&samples, 10);
    assert_eq!(l.len(), 10);
    for i in 0..l.len() {
        let w = l.get(i).unwrap();
        assert!(w.a.is_in_grid());
        assert!(w.b.is_in_grid());
        assert!(w.a.is_adjacent(&w.b));
        for j in 0..i {
            assert_ne!(l.get(j).unwrap(), w);
        }
    }
}

#[test]
fn generate_takes_walls_in_sample_order_and_skips_repeats() {
    let samples = [
        sample(0, 0, 1),
        sample(0, 0, 0),
        sample(1, 0, 0),
        sample(7, 13, 2),
        sample(2, 4, 3),
        sample(4, 4, 0),
    ];
    let l = Labyrinth::generate(&samples, 10);
    assert_eq!(l.len(), 3);
    assert_eq!(l.get(0), Some(wall(0, 0, 1, 0)));
    assert_eq!(l.get(1), Some(wall(2, 3, 2, 4)));
    assert_eq!(l.get(2), Some(wall(4, 4, 3, 4)));
    let short = Labyrinth::generate(&samples, 2);
    assert_eq!(short.len(), 2);
    assert_eq!(short.get(1), Some(wall(2, 3, 2, 4)));
}

#[test]
fn generate_with_nothing_to_do() {
    assert_eq!(Labyrinth::generate(&[], 10).len(), 0);
    assert_eq!(Labyrinth::generate(&[sample(1, 2, 3)], 0).len(), 0);
}

#[test]
fn generate_agrees_with_offering_one_by_one() {
    let samples: Vec<Sample> = (0..60).map(|i| sample(i * i, 11 * i, 3 * i)).collect();
    let l = Labyrinth::generate(&samples, 10);
    let mut m = Labyrinth::new();
    for s in &samples {
        if m.len() == 10 {
            break;
        }
        m.offer(*s);
    }
    assert_eq!(l.len(), m.len());
    for i in 0..l.len() {
        assert_eq!(l.get(i), m.get(i));
    }
}

#[test]
fn generate_cannot_exceed_the_walls_of_the_grid() {
    let mut samples = Vec::new();
    for x in 0..5 {
        for y in 0..5 {
            for z in 0..4 {
                samples.push(sample(x, y, z));
            }
        }
    }
    let l = Labyrinth::generate(&samples, 100);
    assert_eq!(l.len(), 40);
}

#[test]
fn render_lights_exactly_the_cell() {
    for x in 0..5u8 {
        for y in 0..5u8 {
            let w = World::render(&at(x, y));
            assert_eq!(lit_cells(&w), vec![(x as usize, y as usize)]);
            assert_eq!(w.leds[x as usize][y as usize], 1);
        }
    }
}

#[test]
fn default_world_is_dark() {
    assert_eq!(World::default().leds, [[0u8; 5]; 5]);
    assert!(lit_cells(&World::default()).is_empty());
}

#[test]
fn tilt_to_the_right_moves_one_column() {
    let mut dot = at(2, 2);
    let maze = Labyrinth::new();
    let mut window = Averager::new();
    for i in 0..15 {
        // fifteen samples whose x axis averages to 150
        window.add(sample(150 + (i - 7) * 4, 7 - i, 0));
    }
    assert!(window.is_ready());
    let avg = window.finalize();
    assert_eq!(avg, Accel { x: 150, y: 0, z: 0 });
    let dir = avg.dir();
    assert_eq!(dir, Direction::Right);
    dot.shift(&dir, &maze);
    assert_eq!(dot, at(2, 3));
    let world = World::render(&dot);
    assert_eq!(lit_cells(&world), vec![(2, 3)]);
}

#[test]
fn level_board_keeps_the_dot_in_place() {
    let mut dot = at(2, 2);
    let maze = fixed_maze();
    let mut window = Averager::new();
    for _ in 0..15 {
        window.add(sample(50, 50, 1000));
    }
    let dir = window.finalize().dir();
    assert_eq!(dir, Direction::Stop);
    dot.shift(&dir, &maze);
    assert_eq!(dot, at(2, 2));
    assert_eq!(lit_cells(&World::render(&dot)), vec![(2, 2)]);
}

#[test]
fn game_starts_at_the_origin_with_its_maze() {
    let game = Game::new(fixed_maze());
    assert_eq!(game.position(), at(0, 0));
    assert_eq!(game.maze().len(), 1);
    assert_eq!(game.maze().get(0), Some(wall(0, 0, 1, 0)));
    assert_eq!(DIFFICULTY, 10);
}

#[test]
fn game_moves_once_per_window() {
    let mut game = Game::new(Labyrinth::new());
    game.place(at(2, 2));
    for _ in 0..14 {
        assert!(game.tick(sample(150, 0, 0)).is_none());
        assert_eq!(game.position(), at(2, 2));
    }
    let frame = game.tick(sample(150, 0, 0)).unwrap();
    assert_eq!(frame.dir, Direction::Right);
    assert_eq!(game.position(), at(2, 3));
    assert_eq!(lit_cells(&frame.world), vec![(2, 3)]);
    // the next window starts from nothing
    for _ in 0..14 {
        assert!(game.tick(sample(0, -200, 0)).is_none());
    }
    let next = game.tick(sample(0, -200, 0)).unwrap();
    assert_eq!(next.dir, Direction::Down);
    assert_eq!(game.position(), at(3, 3));
    assert_eq!(lit_cells(&next.world), vec![(3, 3)]);
}

#[test]
fn game_averages_the_whole_window() {
    let mut game = Game::new(Labyrinth::new());
    game.place(at(2, 2));
    // fourteen level samples and one strong tilt: the mean is 1500 / 15 = 100
    for _ in 0..14 {
        assert!(game.tick(sample(0, 0, 0)).is_none());
    }
    let frame = game.tick(sample(0, 1500, 0)).unwrap();
    assert_eq!(frame.dir, Direction::Up);
    assert_eq!(game.position(), at(1, 2));
    // one raw unit less and the mean falls into the dead zone
    for _ in 0..14 {
        assert!(game.tick(sample(0, 0, 0)).is_none());
    }
    let still = game.tick(sample(0, 1499, 0)).unwrap();
    assert_eq!(still.dir, Direction::Stop);
    assert_eq!(game.position(), at(1, 2));
    assert_eq!(lit_cells(&still.world), vec![(1, 2)]);
}

#[test]
fn game_stops_at_walls_and_edges() {
    let mut game = Game::new(fixed_maze());
    // down from the origin runs into the wall
    for _ in 0..14 {
        game.tick(sample(0, -500, 0));
    }
    let frame = game.tick(sample(0, -500, 0)).unwrap();
    assert_eq!(frame.dir, Direction::Down);
    assert_eq!(game.position(), at(0, 0));
    assert_eq!(lit_cells(&frame.world), vec![(0, 0)]);
    // left from the origin runs into the edge
    for _ in 0..14 {
        game.tick(sample(-500, 0, 0));
    }
    let edge = game.tick(sample(-500, 0, 0)).unwrap();
    assert_eq!(edge.dir, Direction::Left);
    assert_eq!(game.position(), at(0, 0));
    // right is free
    for _ in 0..14 {
        game.tick(sample(500, 0, 0));
    }
    let free = game.tick(sample(500, 0, 0)).unwrap();
    assert_eq!(free.dir, Direction::Right);
    assert_eq!(game.position(), at(0, 1));
    assert_eq!(lit_cells(&free.world), vec![(0, 1)]);
}
