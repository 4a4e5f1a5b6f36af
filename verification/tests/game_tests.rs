use snake::game::{Direction, Game, Location, LoseReason, TickResult, WinReason};
use snake::rng::Rng;

/// How many cells the board currently classifies as food.
fn count_food(g: &Game) -> usize {
    let mut n = 0;
    for x in 0..g.width {
        for y in 0..g.height {
            if matches!(g.at(x, y), Location::Food) {
                n += 1;
            }
        }
    }
    n
}

#[test]
fn new_game_initial_state() {
    // seed (1, 1) puts the first food cell at (1, 0)
    let mut g = Game::new(4, 4, 1, 4, 0, Rng::new(1, 1));
    assert_eq!(g.width, 4);
    assert_eq!(g.height, 4);
    assert_eq!(g.size, 1);
    assert_eq!(g.head, [0, 0]);
    assert!(matches!(g.at(0, 0), Location::Head(1)));
    assert!(matches!(g.at(1, 0), Location::Food));
    assert_eq!(count_food(&g), 1);
    for x in 0..4u8 {
        for y in 0..4u8 {
            if (x, y) != (0, 0) && (x, y) != (1, 0) {
                assert!(matches!(g.at(x, y), Location::Empty));
            }
        }
    }
    assert!(matches!(g.tick(), TickResult::Continue));
}

#[test]
fn eating_food_grows_and_replaces_it() {
    // a 4x4 board, head at (0, 0) moving right, food forced to (1, 0)
    let mut g = Game::new(4, 4, 1, 4, 0, Rng::new(1, 1));
    let r = g.tick();
    assert!(matches!(r, TickResult::Continue));
    assert_eq!(g.head, [1, 0]);
    assert_eq!(g.size, 2);
    // the stamped former head, about to decay
    assert!(matches!(g.at(0, 0), Location::Body(1)));
    // a fresh food cell was placed elsewhere
    assert!(matches!(g.at(3, 3), Location::Food));
    assert_eq!(count_food(&g), 1);
}

#[test]
fn filling_the_board_wins() {
    // a 2x2 board, head at (0, 0) moving right; up, left, up eats every
    // cell, the probe finds no empty cell and the game is won
    let mut g = Game::new(2, 2, 1, 2, 0, Rng::new(0, 0));
    g.set_direction(Direction::Up);
    assert!(matches!(g.tick(), TickResult::Continue));
    assert_eq!(g.size, 2);
    g.set_direction(Direction::Left);
    assert!(matches!(g.tick(), TickResult::Continue));
    assert_eq!(g.size, 3);
    g.set_direction(Direction::Up);
    assert!(matches!(g.tick(), TickResult::Win(WinReason::BoardFull)));
    assert_eq!(g.size, 4);
}

#[test]
fn running_into_the_body_loses() {
    // grow the snake, then steer the head into a body cell showing 3
    let mut g = Game::new(4, 4, 1, 4, 0, Rng::new(0, 52));
    let script = [
        Direction::Up,
        Direction::Right,
        Direction::Down,
        Direction::Right,
        Direction::Down,
        Direction::Up,
        Direction::Up,
    ];
    for d in script {
        g.set_direction(d);
        assert!(matches!(g.tick(), TickResult::Continue));
        assert!(count_food(&g) <= 1);
    }
    // the head sits at (2, 1); the cell above it carries a body value of 3
    assert_eq!(g.head, [2, 1]);
    assert!(matches!(g.at(2, 0), Location::Body(3)));
    g.set_direction(Direction::Up);
    assert!(matches!(g.tick(), TickResult::Lose(LoseReason::Ouroboros)));
    assert_eq!(g.head, [2, 0]);
}

#[test]
fn head_wraps_around_every_edge() {
    let mut g = Game::new(4, 4, 1, 4, 0, Rng::new(1, 1));
    let expect = [
        (Direction::Right, [1, 0]),
        (Direction::Right, [2, 0]),
        (Direction::Right, [3, 0]),
        // off the right edge, back to column 0
        (Direction::Right, [0, 0]),
        // off the bottom edge, up to row 3
        (Direction::Down, [0, 3]),
        // off the left edge, back to column 3
        (Direction::Left, [3, 3]),
        (Direction::Left, [2, 3]),
        // off the top edge, down to row 0
        (Direction::Up, [2, 0]),
    ];
    for (d, head) in expect {
        g.set_direction(d);
        assert!(matches!(g.tick(), TickResult::Continue));
        assert_eq!(g.head, head);
    }
}

#[test]
fn reversal_is_rejected() {
    let mut g = Game::new(8, 8, 4, 4, 0, Rng::new(9, 9));
    // the game starts moving right; left is its reversal and is dropped
    g.set_direction(Direction::Left);
    let x0 = g.head[0];
    assert!(matches!(g.tick(), TickResult::Continue));
    assert_eq!(g.head[0], x0 + 1);

    // a 90-degree turn is accepted
    g.set_direction(Direction::Up);
    let y1 = g.head[1];
    assert!(matches!(g.tick(), TickResult::Continue));
    assert_eq!(g.head[1], y1 + 1);

    // down is now the reversal of the committed up and is dropped
    g.set_direction(Direction::Down);
    let y2 = g.head[1];
    assert!(matches!(g.tick(), TickResult::Continue));
    assert_eq!(g.head[1], y2 + 1);

    // repeating the current direction is accepted
    g.set_direction(Direction::Up);
    let y3 = g.head[1];
    assert!(matches!(g.tick(), TickResult::Continue));
    assert_eq!(g.head[1], y3 + 1);
}

#[test]
fn body_decays_by_one_per_step() {
    let mut g = Game::new(4, 4, 1, 4, 0, Rng::new(1, 1));
    // first step eats the food at (1, 0): no decay, (0, 0) keeps its stamp
    g.tick();
    assert!(matches!(g.at(0, 0), Location::Body(1)));
    // second step eats nothing: (0, 0) decays to empty, the stamped
    // (1, 0) decays from 2 to 1
    g.tick();
    assert!(matches!(g.at(0, 0), Location::Empty));
    assert!(matches!(g.at(1, 0), Location::Body(1)));
}

#[test]
fn terminal_result_is_sticky() {
    // drive the 2x2 board to its win
    let mut g = Game::new(2, 2, 1, 2, 0, Rng::new(0, 0));
    g.set_direction(Direction::Up);
    g.tick();
    g.set_direction(Direction::Left);
    g.tick();
    g.set_direction(Direction::Up);
    assert!(matches!(g.tick(), TickResult::Win(WinReason::BoardFull)));
    let head = g.head;
    let size = g.size;
    for _ in 0..5 {
        assert!(matches!(g.tick(), TickResult::Win(WinReason::BoardFull)));
        assert_eq!(g.head, head);
        assert_eq!(g.size, size);
    }
}

#[test]
fn lost_game_repeats_its_result() {
    let mut g = Game::new(4, 4, 1, 4, 0, Rng::new(0, 52));
    let script = [
        Direction::Up,
        Direction::Right,
        Direction::Down,
        Direction::Right,
        Direction::Down,
        Direction::Up,
        Direction::Up,
        Direction::Up,
    ];
    for d in script {
        g.set_direction(d);
        g.tick();
    }
    let head = g.head;
    for _ in 0..5 {
        assert!(matches!(g.tick(), TickResult::Lose(LoseReason::Ouroboros)));
        assert_eq!(g.head, head);
    }
}

#[test]
fn reset_restarts_in_place() {
    let mut g = Game::new(4, 4, 1, 4, 0, Rng::new(0, 52));
    let script = [
        Direction::Up,
        Direction::Right,
        Direction::Down,
        Direction::Right,
        Direction::Down,
        Direction::Up,
        Direction::Up,
        Direction::Up,
    ];
    for d in script {
        g.set_direction(d);
        g.tick();
    }
    assert!(matches!(g.tick(), TickResult::Lose(LoseReason::Ouroboros)));
    g.reset();
    assert_eq!(g.size, 1);
    assert_eq!(g.head, [2, 2]);
    assert!(count_food(&g) <= 1);
    // the terminal result is gone: the game continues
    assert!(matches!(g.tick(), TickResult::Continue));
}

#[test]
fn simulation_runs_once_per_interval() {
    // with an interval of two frames, only every third call moves the head
    let mut g = Game::new(4, 4, 1, 4, 2, Rng::new(1, 1));
    assert!(matches!(g.tick(), TickResult::Continue));
    assert_eq!(g.head, [0, 0]);
    assert!(matches!(g.tick(), TickResult::Continue));
    assert_eq!(g.head, [0, 0]);
    assert!(matches!(g.tick(), TickResult::Continue));
    assert_eq!(g.head, [1, 0]);
    g.tick();
    g.tick();
    assert_eq!(g.head, [1, 0]);
    g.tick();
    assert_eq!(g.head, [2, 0]);
}

#[test]
fn smallest_board_loses_at_once() {
    // on a 1x1 board the food lands under the head and is stamped over;
    // the first step wraps the head onto its own freshly stamped cell
    let mut g = Game::new(1, 1, 1, 1, 0, Rng::new(5, 5));
    assert!(matches!(g.at(0, 0), Location::Head(1)));
    assert_eq!(count_food(&g), 0);
    assert!(matches!(g.tick(), TickResult::Lose(LoseReason::Ouroboros)));
    assert_eq!(g.head, [0, 0]);
}

#[test]
fn out_of_range_coordinates_read_cell_zero() {
    let mut g = Game::new(4, 4, 1, 4, 0, Rng::new(1, 1));
    g.tick();
    // cell (0, 0) holds a body value of 1; coordinates off the board fall
    // back to that same flat index 0
    assert!(matches!(g.at(0, 0), Location::Body(1)));
    assert!(matches!(g.at(7, 0), Location::Body(1)));
    assert!(matches!(g.at(0, 9), Location::Body(1)));
}

#[test]
fn at_most_one_food_cell_throughout_a_session() {
    let mut g = Game::new(4, 4, 1, 4, 0, Rng::new(1, 1));
    assert!(count_food(&g) <= 1);
    let script = [
        Direction::Right,
        Direction::Right,
        Direction::Right,
        Direction::Right,
        Direction::Down,
        Direction::Left,
        Direction::Left,
        Direction::Up,
    ];
    for d in script {
        g.set_direction(d);
        g.tick();
        assert!(count_food(&g) <= 1);
    }
}
