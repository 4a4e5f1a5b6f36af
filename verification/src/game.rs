//! The grid state machine: a toroidal board whose cells carry decay
//! counters, a head tracked beside the grid, and sticky win/lose results.
//!
//! A cell value of `0` is empty, `-1` carries food, and a positive value `v`
//! marks a snake body segment that outlives the head's departure by `v`
//! simulation steps: every non-eating step decrements all positive cells, so
//! the tail retracts without any explicit segment list.  The head's own cell
//! is written only at the moment the head moves away, so the head reads back
//! from its own field, never from the grid.

use vstd::prelude::*;

use crate::rng;
use crate::rng::Rng;

verus! {

/// A cardinal direction of head movement.  `Up` increases the row
/// coordinate, `Down` decreases it.
#[derive(Clone, Copy, PartialEq, Eq, Debug)]
pub enum Direction {
    Up,
    Down,
    Left,
    Right,
}

/// Why a finished game was won: the food probe found no empty cell left.
#[derive(Clone, Copy, PartialEq, Eq, Debug)]
pub enum WinReason {
    BoardFull,
}

/// Why a finished game was lost: the head ran into the snake's own body.
#[derive(Clone, Copy, PartialEq, Eq, Debug)]
pub enum LoseReason {
    Ouroboros,
}

/// The outcome of one [`Game::tick`] call.  A terminal value is sticky: once
/// returned, every later call repeats it until [`Game::reset`].
#[derive(Clone, Copy, PartialEq, Eq, Debug)]
pub enum TickResult<W, L> {
    Win(W),
    Lose(L),
    Continue,
}

/// What one cell shows: the head (with the snake's length), a body segment
/// (with its remaining decay), food, or nothing.
#[derive(Clone, Copy, PartialEq, Eq, Debug)]
pub enum Location {
    Head(u16),
    Body(u16),
    Food,
    Empty,
}

/// The food probe failed: no empty cell at or after the drawn one.
enum FoodError {
    NoSpace,
}

/// Whether `a` is the 180-degree reversal of `b`.
pub open spec fn opposite(a: Direction, b: Direction) -> bool {
    match (a, b) {
        (Direction::Up, Direction::Down) => true,
        (Direction::Down, Direction::Up) => true,
        (Direction::Left, Direction::Right) => true,
        (Direction::Right, Direction::Left) => true,
        _ => false,
    }
}

/// The column after one move in direction `dir`, wrapping at the edges.
pub open spec fn move_x(x: u8, dir: Direction, width: u8) -> u8 {
    match dir {
        Direction::Left => if x == 0 {
            (width - 1) as u8
        } else {
            (x - 1) as u8
        },
        Direction::Right => if x == width - 1 {
            0
        } else {
            (x + 1) as u8
        },
        _ => x,
    }
}

/// The row after one move in direction `dir`, wrapping at the edges.
pub open spec fn move_y(y: u8, dir: Direction, height: u8) -> u8 {
    match dir {
        Direction::Up => if y == height - 1 {
            0
        } else {
            (y + 1) as u8
        },
        Direction::Down => if y == 0 {
            (height - 1) as u8
        } else {
            (y - 1) as u8
        },
        _ => y,
    }
}

/// The flat index of cell `(x, y)`, row by row; out-of-range coordinates
/// fall back to index `0` rather than being an error.
pub open spec fn grid_index(width: u8, height: u8, x: u8, y: u8) -> int {
    if x >= width || y >= height {
        0
    } else {
        y as int * width as int + x as int
    }
}

/// The board after one decay pass: every positive cell loses one, empty and
/// food cells stay as they are.
pub open spec fn decayed(t: Seq<i16>) -> Seq<i16> {
    Seq::new(t.len(), |i: int| if t[i] > 0 {
        (t[i] - 1) as i16
    } else {
        t[i]
    })
}

/// The first empty cell at flat index `i` or after it, scanning forward only:
/// the probe never wraps past the end of the array, so cells before `i` are
/// out of its reach.
pub open spec fn first_empty(t: Seq<i16>, i: int) -> Option<int>
    decreases t.len() - i,
{
    if i < 0 || i >= t.len() {
        None
    } else if t[i] == 0 {
        Some(i)
    } else {
        first_empty(t, i + 1)
    }
}

/// Every cell is at least `-1`: food is canonically `-1`, never deeper.
pub open spec fn cells_ok(t: Seq<i16>) -> bool {
    forall|i: int| 0 <= i < t.len() ==> t[i] >= -1
}

/// No two distinct cells are negative.
pub open spec fn at_most_one_neg(t: Seq<i16>) -> bool {
    forall|i: int, j: int|
        0 <= i < t.len() && 0 <= j < t.len() && t[i] < 0 && t[j] < 0 ==> i == j
}

/// No two distinct cells besides `hi` (the head's own cell, whose stale food
/// value the head hides until it is stamped over) are negative.
pub open spec fn at_most_one_food(t: Seq<i16>, hi: int) -> bool {
    forall|i: int, j: int|
        0 <= i < t.len() && 0 <= j < t.len() && i != hi && j != hi && t[i] < 0 && t[j] < 0 ==> i
            == j
}

/// The game state as a mathematical value.
pub struct GameView {
    pub width: u8,
    pub height: u8,
    pub grid: Seq<i16>,
    pub size: u16,
    pub last_direction: Direction,
    pub direction: Direction,
    pub head: (u8, u8),
    pub interval_frames: u32,
    pub interval_frame: u32,
    pub frame: u32,
    pub clock: u32,
    pub rng: (u8, u8),
    pub last_tick: TickResult<WinReason, LoseReason>,
}

impl GameView {
    /// The flat index of the head's own cell.
    pub open spec fn head_index(self) -> int {
        grid_index(self.width, self.height, self.head.0, self.head.1)
    }

    /// Well-formedness: positive dimensions, a board of matching length, the
    /// head on the board, a length that fits a cell stamp, a phase counter
    /// within its interval, and the food invariant.
    pub open spec fn wf(self) -> bool {
        &&& self.width >= 1
        &&& self.height >= 1
        &&& self.grid.len() == self.width as int * self.height as int
        &&& self.head.0 < self.width
        &&& self.head.1 < self.height
        &&& 1 <= self.size <= 0x7FFF
        &&& self.interval_frame <= self.interval_frames
        &&& cells_ok(self.grid)
        &&& at_most_one_food(self.grid, self.head_index())
    }
}

/// One simulation step, from `pre` to `post` with result `r`: stamp the
/// head's length into its cell, move the head one cell with wraparound,
/// commit the direction, then settle collision, food and decay.  The clock
/// fields and the stored result are no concern of this relation.
pub open spec fn sim_step_rel(
    pre: GameView,
    post: GameView,
    r: TickResult<WinReason, LoseReason>,
) -> bool {
    let w = pre.width;
    let h = pre.height;
    let stamped = pre.grid.update(pre.head_index(), pre.size as i16);
    let nx = move_x(pre.head.0, pre.direction, w);
    let ny = move_y(pre.head.1, pre.direction, h);
    let ni = grid_index(w, h, nx, ny);
    &&& post.width == w
    &&& post.height == h
    &&& post.head == (nx, ny)
    &&& post.direction == pre.direction
    &&& post.last_direction == pre.direction
    &&& if stamped[ni] > 0 {
        // the head ran into a body segment
        &&& r == TickResult::<WinReason, LoseReason>::Lose(LoseReason::Ouroboros)
        &&& post.grid == stamped
        &&& post.size == pre.size
        &&& post.rng == pre.rng
    } else if stamped[ni] < 0 {
        // the head ate the food: grow, draw a cell, probe forward from it
        let b = rng::next_bytes(pre.rng);
        let cand = grid_index(w, h, (b.0 as int % w as int) as u8, (b.1 as int % w as int) as u8);
        &&& post.size == if pre.size < 0x7FFF {
            (pre.size + 1) as u16
        } else {
            pre.size
        }
        &&& post.rng == rng::step_state(rng::step_state(pre.rng))
        &&& match first_empty(stamped, cand) {
            Some(j) => {
                &&& r == TickResult::<WinReason, LoseReason>::Continue
                &&& post.grid == stamped.update(j, -1i16)
            },
            None => {
                &&& r == TickResult::<WinReason, LoseReason>::Win(WinReason::BoardFull)
                &&& post.grid == stamped
            },
        }
    } else {
        // an ordinary move: the whole body decays by one
        &&& r == TickResult::<WinReason, LoseReason>::Continue
        &&& post.grid == decayed(stamped)
        &&& post.size == pre.size
        &&& post.rng == pre.rng
    }
}

/// What one cell shows, as a function of the game state: the head masks its
/// cell, then `-1` is food, positive is body, anything else empty.
pub open spec fn spec_at(v: GameView, x: u8, y: u8) -> Location {
    if x == v.head.0 && y == v.head.1 {
        Location::Head(v.size)
    } else {
        let c = v.grid[grid_index(v.width, v.height, x, y)];
        if c == -1 {
            Location::Food
        } else if c > 0 {
            Location::Body(c as u16)
        } else {
            Location::Empty
        }
    }
}

/// Wraparound stated edge by edge: a move off any edge lands on coordinate
/// `0` or `dimension - 1` of the opposite edge, and any other move is by one
/// cell.
pub proof fn lemma_wraparound(x: u8, y: u8, width: u8, height: u8)
    requires
        x < width,
        y < height,
    ensures
        x == width - 1 ==> move_x(x, Direction::Right, width) == 0,
        x < width - 1 ==> move_x(x, Direction::Right, width) == x + 1,
        x == 0 ==> move_x(x, Direction::Left, width) == width - 1,
        x > 0 ==> move_x(x, Direction::Left, width) == x - 1,
        y == height - 1 ==> move_y(y, Direction::Up, height) == 0,
        y < height - 1 ==> move_y(y, Direction::Up, height) == y + 1,
        y == 0 ==> move_y(y, Direction::Down, height) == height - 1,
        y > 0 ==> move_y(y, Direction::Down, height) == y - 1,
        move_x(x, Direction::Up, width) == x && move_x(x, Direction::Down, width) == x,
        move_y(y, Direction::Left, height) == y && move_y(y, Direction::Right, height) == y,
{
}

/// A decay pass, cell by cell: a positive cell loses exactly one, a cell at
/// zero stays at zero, and food keeps its mark.
pub proof fn lemma_decay(t: Seq<i16>)
    ensures
        decayed(t).len() == t.len(),
        forall|i: int| 0 <= i < t.len() && t[i] > 0 ==> decayed(t)[i] == t[i] - 1,
        forall|i: int| 0 <= i < t.len() && t[i] <= 0 ==> decayed(t)[i] == t[i],
{
}

/// The flat index of a cell is on the board, wherever the coordinates lie.
proof fn lemma_grid_index_bounds(width: u8, height: u8, x: u8, y: u8)
    requires
        width >= 1,
        height >= 1,
    ensures
        0 <= grid_index(width, height, x, y) < width as int * height as int,
{
    assert(width as int * height as int >= 1) by (nonlinear_arith)
        requires
            width >= 1 && height >= 1,
    ;
    if x < width && y < height {
        assert((y as int * width as int + x as int) < width as int * height as int)
            by (nonlinear_arith)
            requires
                x < width && y < height,
        ;
    }
}

/// Distinct in-range cells have distinct flat indices.
proof fn lemma_grid_index_injective(width: u8, height: u8, x1: u8, y1: u8, x2: u8, y2: u8)
    requires
        x1 < width,
        y1 < height,
        x2 < width,
        y2 < height,
        grid_index(width, height, x1, y1) == grid_index(width, height, x2, y2),
    ensures
        x1 == x2 && y1 == y2,
{
    assert(x1 == x2 && y1 == y2) by (nonlinear_arith)
        requires
            x1 < width && x2 < width && y1 as int * width as int + x1 as int == y2 as int
                * width as int + x2 as int,
    ;
}

/// Stamping a positive value over the head's cell leaves at most one
/// negative cell anywhere on the board.
proof fn lemma_stamp_leaves_one_food(t: Seq<i16>, hi: int, v: i16)
    requires
        0 <= hi < t.len(),
        v > 0,
        at_most_one_food(t, hi),
        cells_ok(t),
    ensures
        cells_ok(t.update(hi, v)),
        at_most_one_neg(t.update(hi, v)),
{
    let t1 = t.update(hi, v);
    assert forall|i: int, j: int|
        0 <= i < t1.len() && 0 <= j < t1.len() && t1[i] < 0 && t1[j] < 0 implies i == j by {
        assert(i != hi && j != hi);
        assert(t[i] < 0 && t[j] < 0);
    }
}

/// At most one cell of the board shows food: any two in-range coordinates
/// classified as food name the same cell.
pub proof fn lemma_food_unique(v: GameView, x1: u8, y1: u8, x2: u8, y2: u8)
    requires
        v.wf(),
        x1 < v.width,
        y1 < v.height,
        x2 < v.width,
        y2 < v.height,
        spec_at(v, x1, y1) is Food,
        spec_at(v, x2, y2) is Food,
    ensures
        x1 == x2 && y1 == y2,
{
    let i1 = grid_index(v.width, v.height, x1, y1);
    let i2 = grid_index(v.width, v.height, x2, y2);
    lemma_grid_index_bounds(v.width, v.height, x1, y1);
    lemma_grid_index_bounds(v.width, v.height, x2, y2);
    if i1 == v.head_index() {
        lemma_grid_index_injective(v.width, v.height, x1, y1, v.head.0, v.head.1);
    }
    if i2 == v.head_index() {
        lemma_grid_index_injective(v.width, v.height, x2, y2, v.head.0, v.head.1);
    }
    assert(i1 == i2);
    lemma_grid_index_injective(v.width, v.height, x1, y1, x2, y2);
}

/// The game: board, head, direction handling, simulation clock, generator
/// and the sticky result of the last simulation step.
pub struct Game {
    pub width: u8,
    pub height: u8,
    table: Vec<i16>,
    pub size: u16,
    last_direction: Direction,
    direction: Direction,
    pub head: [u8; 2],
    interval_frames: u32,
    interval_frame: u32,
    frame: u32,
    tick: u32,
    rng: Rng,
    last_tick: TickResult<WinReason, LoseReason>,
}

impl View for Game {
    type V = GameView;

    closed spec fn view(&self) -> GameView {
        GameView {
            width: self.width,
            height: self.height,
            grid: self.table@,
            size: self.size,
            last_direction: self.last_direction,
            direction: self.direction,
            head: (self.head[0], self.head[1]),
            interval_frames: self.interval_frames,
            interval_frame: self.interval_frame,
            frame: self.frame,
            clock: self.tick,
            rng: self.rng.state(),
            last_tick: self.last_tick,
        }
    }
}

impl Game {
    /// A fresh game on a `width` by `height` board.  The head starts at
    /// column `left - 1`, row `height - top`, moving right; the first food
    /// cell is drawn from the generator at once, so a session's draws line
    /// up whether or not a frame has run yet.
    pub fn new(width: u8, height: u8, left: u8, top: u8, interval_frames: u32, rng: Rng) -> (g:
        Game)
        requires
            1 <= left <= width,
            1 <= top <= height,
        ensures
            g@.wf(),
            ({
                let zeros = Seq::<i16>::new(width as nat * height as nat, |k: int| 0i16);
                let b = rng::next_bytes(rng.state());
                let cand = grid_index(
                    width,
                    height,
                    (b.0 as int % width as int) as u8,
                    (b.1 as int % width as int) as u8,
                );
                g@ == (GameView {
                    width,
                    height,
                    grid: zeros.update(cand, -1i16),
                    size: 1u16,
                    last_direction: Direction::Right,
                    direction: Direction::Right,
                    head: ((left - 1) as u8, (height - top) as u8),
                    interval_frames,
                    interval_frame: 0u32,
                    frame: 0u32,
                    clock: 0u32,
                    rng: rng::step_state(rng::step_state(rng.state())),
                    last_tick: TickResult::<WinReason, LoseReason>::Continue,
                })
            }),
    {
        proof {
            assert(width as int * height as int <= 255 * 255) by (nonlinear_arith)
                requires
                    width <= 255 && height <= 255,
            ;
        }
        let count = (width as usize) * (height as usize);
        let mut table: Vec<i16> = Vec::with_capacity(count);
        let mut i: usize = 0;
        while i < count
            invariant
                i <= count,
                table@.len() == i,
                forall|k: int| 0 <= k < i ==> table@[k] == 0i16,
            decreases count - i,
        {
            table.push(0);
            i += 1;
        }

        let mut game = Game {
            width,
            height,
            table,
            size: 1,
            last_direction: Direction::Right,
            direction: Direction::Right,
            head: [left - 1, height - top],
            interval_frames,
            interval_frame: 0,
            frame: 0,
            tick: 0,
            rng,
            last_tick: TickResult::Continue,
        };
        proof {
            assert(game@.grid =~= Seq::<i16>::new(width as nat * height as nat, |k: int| 0i16));
            let v = game@;
            let b = rng::next_bytes(v.rng);
            let cx = (b.0 as int % v.width as int) as u8;
            let cy = (b.1 as int % v.width as int) as u8;
            lemma_grid_index_bounds(v.width, v.height, cx, cy);
            let cand = grid_index(v.width, v.height, cx, cy);
            assert(v.grid[cand] == 0);
            assert(first_empty(v.grid, cand) == Some(cand));
        }
        let _ = game.new_food();
        game
    }

    /// Restart in place: length one, the head at the board's centre, a
    /// cleared grid with one fresh food cell, counters at zero.  The
    /// dimensions, the interval, the direction pair and the generator's
    /// position in its sequence all carry over.
    pub fn reset(&mut self)
        requires
            old(self)@.wf(),
        ensures
            final(self)@.wf(),
            ({
                let v = old(self)@;
                let zeros = Seq::<i16>::new(v.width as nat * v.height as nat, |k: int| 0i16);
                let b = rng::next_bytes(v.rng);
                let cand = grid_index(
                    v.width,
                    v.height,
                    (b.0 as int % v.width as int) as u8,
                    (b.1 as int % v.width as int) as u8,
                );
                final(self)@ == (GameView {
                    grid: zeros.update(cand, -1i16),
                    size: 1u16,
                    head: ((v.width / 2) as u8, (v.height / 2) as u8),
                    interval_frame: 0u32,
                    frame: 0u32,
                    clock: 0u32,
                    rng: rng::step_state(rng::step_state(v.rng)),
                    last_tick: TickResult::<WinReason, LoseReason>::Continue,
                    ..v
                })
            }),
    {
        proof {
            assert(self.width as int * self.height as int <= 255 * 255) by (nonlinear_arith)
                requires
                    self.width <= 255 && self.height <= 255,
            ;
        }
        self.size = 1;
        self.head[0] = self.width / 2;
        self.head[1] = self.height / 2;
        self.interval_frame = 0;
        self.frame = 0;
        self.tick = 0;
        self.last_tick = TickResult::Continue;

        let count = (self.width as usize) * (self.height as usize);
        let mut table: Vec<i16> = Vec::with_capacity(count);
        let mut i: usize = 0;
        while i < count
            invariant
                i <= count,
                table@.len() == i,
                forall|k: int| 0 <= k < i ==> table@[k] == 0i16,
            decreases count - i,
        {
            table.push(0);
            i += 1;
        }
        self.table = table;
        proof {
            assert(self@.grid =~= Seq::<i16>::new(
                self.width as nat * self.height as nat,
                |k: int| 0i16,
            ));
            let v = self@;
            let b = rng::next_bytes(v.rng);
            let cx = (b.0 as int % v.width as int) as u8;
            let cy = (b.1 as int % v.width as int) as u8;
            lemma_grid_index_bounds(v.width, v.height, cx, cy);
            let cand = grid_index(v.width, v.height, cx, cy);
            assert(v.grid[cand] == 0);
            assert(first_empty(v.grid, cand) == Some(cand));
        }
        let _ = self.new_food();
    }

    /// Take a steering input.  A 180-degree reversal of the last committed
    /// direction is dropped without a trace; anything else becomes the
    /// pending direction for the next simulation step.
    pub fn set_direction(&mut self, direction: Direction)
        ensures
            final(self)@ == (GameView {
                direction: if opposite(direction, old(self)@.last_direction) {
                    old(self)@.direction
                } else {
                    direction
                },
                ..old(self)@
            }),
    {
        // prevent turning back on ourselves
        if matches!(direction, Direction::Up) && matches!(self.last_direction, Direction::Down) {
            return;
        }
        if matches!(direction, Direction::Down) && matches!(self.last_direction, Direction::Up) {
            return;
        }
        if matches!(direction, Direction::Left) && matches!(self.last_direction, Direction::Right) {
            return;
        }
        if matches!(direction, Direction::Right) && matches!(self.last_direction, Direction::Left) {
            return;
        }
        self.direction = direction;
    }

    /// Classify cell `(x, y)` for a reader: the head first, then food, body
    /// or nothing from the grid value.
    pub fn at(&self, x: u8, y: u8) -> (r: Location)
        requires
            self@.wf(),
        ensures
            r == spec_at(self@, x, y),
    {
        if x == self.head[0] && y == self.head[1] {
            return Location::Head(self.size);
        }
        let val = self.get(x, y);
        if val == -1 {
            return Location::Food;
        }
        if val > 0 {
            return Location::Body(val as u16);
        }
        Location::Empty
    }

    /// The flat index of cell `(x, y)`, falling back to index `0` for
    /// out-of-range coordinates.
    fn get_index(&self, x: u8, y: u8) -> (r: usize)
        requires
            self@.wf(),
        ensures
            r == grid_index(self@.width, self@.height, x, y),
            r < self@.grid.len(),
    {
        proof {
            lemma_grid_index_bounds(self.width, self.height, x, y);
        }
        if x >= self.width || y >= self.height {
            return 0;
        }
        proof {
            assert((y as int) * (self.width as int) + (x as int) < 65536) by (nonlinear_arith)
                requires
                    y <= 255 && x <= 255 && self.width <= 255,
            ;
        }
        (y as usize) * (self.width as usize) + (x as usize)
    }

    /// Read the cell at `(x, y)`.
    fn get(&self, x: u8, y: u8) -> (r: i16)
        requires
            self@.wf(),
        ensures
            r == self@.grid[grid_index(self@.width, self@.height, x, y)],
    {
        let i = self.get_index(x, y);
        self.table[i]
    }

    /// Write the cell at `(x, y)`.
    fn set(&mut self, x: u8, y: u8, value: i16)
        requires
            old(self)@.wf(),
        ensures
            final(self)@ == (GameView {
                grid: old(self)@.grid.update(
                    grid_index(old(self)@.width, old(self)@.height, x, y),
                    value,
                ),
                ..old(self)@
            }),
    {
        let index = self.get_index(x, y);
        self.table[index] = value;
    }

    /// One frame of the game.  Every call advances the frame clock; a call
    /// after a terminal result repeats that result and touches nothing else;
    /// a call inside the frame interval only counts the phase up and reports
    /// `Continue`; and one call in `interval_frames + 1` runs a simulation
    /// step, stores its result and returns it.
    pub fn tick(&mut self) -> (r: TickResult<WinReason, LoseReason>)
        requires
            old(self)@.wf(),
        ensures
            final(self)@.wf(),
            !(old(self)@.last_tick is Continue) ==> r == old(self)@.last_tick && final(self)@
                == (GameView { clock: old(self)@.clock.wrapping_add(1), ..old(self)@ }),
            old(self)@.last_tick is Continue && old(self)@.interval_frame < old(self)@.interval_frames
                ==> r == TickResult::<WinReason, LoseReason>::Continue && final(self)@
                == (GameView {
                clock: old(self)@.clock.wrapping_add(1),
                interval_frame: (old(self)@.interval_frame + 1) as u32,
                ..old(self)@
            }),
            old(self)@.last_tick is Continue && old(self)@.interval_frame >= old(self)@.interval_frames
                ==> {
                &&& sim_step_rel(old(self)@, final(self)@, r)
                &&& final(self)@.interval_frames == old(self)@.interval_frames
                &&& final(self)@.interval_frame == 0
                &&& final(self)@.frame == old(self)@.frame.wrapping_add(1)
                &&& final(self)@.clock == old(self)@.clock.wrapping_add(1)
                &&& final(self)@.last_tick == r
            },
    {
        self.tick = self.tick.wrapping_add(1);

        match self.last_tick {
            TickResult::Continue => {},
            _ => {
                return self.last_tick;
            },
        }

        if self.interval_frame < self.interval_frames {
            self.interval_frame = self.interval_frame + 1;
            return TickResult::Continue;
        }
        self.interval_frame = 0;
        self.frame = self.frame.wrapping_add(1);

        let result = self.tick_internal();
        self.last_tick = result;
        result
    }

    /// One simulation step: stamp the head's length into its cell, move the
    /// head one cell in the committed direction with wraparound, then lose
    /// on a body cell, grow and replace the food on a food cell, or decay
    /// the whole board on an empty one.
    fn tick_internal(&mut self) -> (r: TickResult<WinReason, LoseReason>)
        requires
            old(self)@.wf(),
        ensures
            final(self)@.wf(),
            sim_step_rel(old(self)@, final(self)@, r),
            final(self)@.interval_frames == old(self)@.interval_frames,
            final(self)@.interval_frame == old(self)@.interval_frame,
            final(self)@.frame == old(self)@.frame,
            final(self)@.clock == old(self)@.clock,
            final(self)@.last_tick == old(self)@.last_tick,
    {
        let ghost v0 = self@;

        // set head
        let hx = self.head[0];
        let hy = self.head[1];
        let sz = self.size;
        self.set(hx, hy, sz as i16);
        proof {
            lemma_grid_index_bounds(v0.width, v0.height, hx, hy);
            lemma_stamp_leaves_one_food(v0.grid, v0.head_index(), v0.size as i16);
        }
        let ghost stamped = self@.grid;

        // move head
        match self.direction {
            Direction::Up => {
                if self.head[1] == self.height - 1 {
                    self.head[1] = 0;
                } else {
                    self.head[1] = self.head[1] + 1;
                }
            },
            Direction::Down => {
                if self.head[1] == 0 {
                    self.head[1] = self.height - 1;
                } else {
                    self.head[1] = self.head[1] - 1;
                }
            },
            Direction::Left => {
                if self.head[0] == 0 {
                    self.head[0] = self.width - 1;
                } else {
                    self.head[0] = self.head[0] - 1;
                }
            },
            Direction::Right => {
                if self.head[0] == self.width - 1 {
                    self.head[0] = 0;
                } else {
                    self.head[0] = self.head[0] + 1;
                }
            },
        }
        self.last_direction = self.direction;

        let nx = self.head[0];
        let ny = self.head[1];
        proof {
            assert(nx == move_x(v0.head.0, v0.direction, v0.width));
            assert(ny == move_y(v0.head.1, v0.direction, v0.height));
        }

        // check if we hit ourselves
        let val = self.get(nx, ny);
        if val > 0 {
            return TickResult::Lose(LoseReason::Ouroboros);
        }

        // check if we hit food
        if val < 0 {
            // the length saturates at the largest cell stamp, so a stamped
            // cell can never read as food
            if self.size < 0x7FFF {
                self.size = self.size + 1;
            }
            proof {
                let ni = self@.head_index();
                lemma_grid_index_bounds(v0.width, v0.height, nx, ny);
                assert forall|i: int|
                    0 <= i < self@.grid.len() && i != ni implies self@.grid[i] >= 0 by {
                    if self@.grid[i] < 0 {
                        assert(stamped[i] < 0 && stamped[ni] < 0);
                    }
                }
            }
            match self.new_food() {
                Ok(()) => {},
                Err(FoodError::NoSpace) => {
                    return TickResult::Win(WinReason::BoardFull);
                },
            }
        } else {
            // decay snake
            let ghost vd = self@;
            let len = self.table.len();
            let mut i: usize = 0;
            while i < len
                invariant
                    i <= len,
                    len == self@.grid.len(),
                    len == vd.grid.len(),
                    self@ == (GameView { grid: self@.grid, ..vd }),
                    forall|k: int| 0 <= k < i ==> self@.grid[k] == decayed(vd.grid)[k],
                    forall|k: int| i <= k < len ==> self@.grid[k] == vd.grid[k],
                decreases len - i,
            {
                if self.table[i] > 0 {
                    let v = self.table[i];
                    self.table[i] = v - 1;
                }
                i += 1;
            }
            proof {
                assert(self@.grid =~= decayed(vd.grid));
            }
        }

        TickResult::Continue
    }

    /// Draw a candidate cell from the generator and probe forward through
    /// the flat array for the first empty cell; mark it as food.
    ///
    /// The candidate comes from one paired draw with both coordinates
    /// reduced modulo the width, so on a board wider than it is tall the
    /// row byte can land out of range and the candidate falls back to cell
    /// `0`.  The probe does not wrap past the end of the array, so empty
    /// cells before the candidate are out of its reach and the probe can
    /// fail while the board still has room: the caller treats any failure
    /// as a full board.
    fn new_food(&mut self) -> (r: Result<(), FoodError>)
        requires
            old(self)@.wf(),
            forall|i: int|
                0 <= i < old(self)@.grid.len() && i != old(self)@.head_index()
                    ==> old(self)@.grid[i] >= 0,
        ensures
            final(self)@.wf(),
            ({
                let v = old(self)@;
                let b = rng::next_bytes(v.rng);
                let cand = grid_index(
                    v.width,
                    v.height,
                    (b.0 as int % v.width as int) as u8,
                    (b.1 as int % v.width as int) as u8,
                );
                let stepped = (GameView { rng: rng::step_state(rng::step_state(v.rng)), ..v });
                match first_empty(v.grid, cand) {
                    Some(j) => r == Ok::<(), FoodError>(()) && final(self)@ == (GameView {
                        grid: v.grid.update(j, -1i16),
                        ..stepped
                    }),
                    None => r == Err::<(), FoodError>(FoodError::NoSpace) && final(self)@
                        == stepped,
                }
            }),
    {
        let w = self.width;
        let pos = self.rng.random(w);
        let index = self.get_index(pos[0], pos[1]);
        let ghost vm = self@;
        let len = self.table.len();

        let mut j = index;
        while j < len && self.table[j] != 0
            invariant
                index <= j <= len,
                self@ == vm,
                len == vm.grid.len(),
                index < len,
                first_empty(vm.grid, index as int) == first_empty(vm.grid, j as int),
            decreases len - j,
        {
            j += 1;
        }

        if j == len {
            return Err(FoodError::NoSpace);
        }
        self.table[j] = -1;
        proof {
            let hi = vm.head_index();
            assert forall|a: int, b: int|
                0 <= a < self@.grid.len() && 0 <= b < self@.grid.len() && a != hi && b != hi
                    && self@.grid[a] < 0 && self@.grid[b] < 0 implies a == b by {
                assert(self@.grid[a] < 0 && a != j as int ==> vm.grid[a] < 0);
                assert(self@.grid[b] < 0 && b != j as int ==> vm.grid[b] < 0);
            }
        }
        Ok(())
    }
}

} // verus!
