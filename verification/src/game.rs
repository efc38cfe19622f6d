use vstd::prelude::*;

use crate::snake::Block;
use crate::snake::Direction;
use crate::snake::Snake;
use crate::snake::SnakeV;
use crate::snake::adjacent;
use crate::snake::lemma_advance_keeps_connected;
use crate::snake::lemma_grow_keeps_connected;
use crate::snake::opposite_of;

verus! {

/// Milliseconds of accumulated waiting time after which a move is forced.
pub const MOVE_PERIOD_MS: u64 = 100;

/// Milliseconds of delay after a game over before the game restarts.
pub const RESTART_TIME_MS: u64 = 1000;

/// Accumulated waiting time after `d` more milliseconds, capped at the
/// largest representable value.
pub open spec fn wait_after(w: u64, d: u64) -> u64 {
    if w + d <= u64::MAX {
        (w + d) as u64
    } else {
        u64::MAX
    }
}

/// The mathematical state of a game: the snake, the food cell and whether it
/// is present, the board size, the game-over flag, and the waiting time
/// accumulated since the last move.
#[verifier::ext_equal]
pub ghost struct GameV {
    pub snake: SnakeV,
    pub food_exists: bool,
    pub food: Block,
    pub width: i32,
    pub height: i32,
    pub game_over: bool,
    pub waiting_ms: u64,
}

impl GameV {
    /// Is `b` strictly inside the one-cell border of the board?
    pub open spec fn cell_interior(self, b: Block) -> bool {
        0 < b.x < self.width - 1 && 0 < b.y < self.height - 1
    }

    /// Every snake body cell lies strictly inside the border.
    pub open spec fn body_interior(self) -> bool {
        forall|i: int|
            0 <= i < self.snake.body.len() ==> self.cell_interior(#[trigger] self.snake.body[i])
    }

    /// The invariant every reachable game state satisfies: the snake is
    /// non-empty, connected and fully interior, the board is large enough to
    /// hold the fixed starting snake, and the food, when present, lies on no
    /// snake body cell. (Interiority of food is not invariant: the fixed
    /// starting food cell may fall outside a small board; food spawned
    /// during play is interior, which `food_spawn` states.)
    pub open spec fn wf(self) -> bool {
        &&& self.snake.wf()
        &&& self.snake.connected()
        &&& 6 <= self.width
        &&& 4 <= self.height
        &&& self.body_interior()
        &&& self.food_exists ==> !self.snake.occupies(self.food.x as int, self.food.y as int)
    }

    /// The fixed starting state on a `width` by `height` board: a three-cell
    /// snake with its head at (4, 2) heading right, food at (6, 10), the
    /// game running, no waiting time accumulated.
    pub open spec fn initial(width: i32, height: i32) -> GameV {
        GameV {
            snake: SnakeV {
                direction: Direction::Right,
                body: seq![Block { x: 4, y: 2 }, Block { x: 3, y: 2 }, Block { x: 2, y: 2 }],
                tail: None,
            },
            food_exists: true,
            food: Block { x: 6, y: 10 },
            width,
            height,
            game_over: false,
            waiting_ms: 0,
        }
    }

    /// The same state with the waiting time replaced.
    pub open spec fn with_waiting(self, w: u64) -> GameV {
        GameV { waiting_ms: w, ..self }
    }

    /// The state after one attempted move with intent `dir`: if the move is
    /// valid the snake advances and, when it lands on present food, eats it
    /// (the food disappears and the snake grows back the vacated cell);
    /// otherwise the game ends. Either way the waiting time resets.
    pub open spec fn ticked(self, dir: Option<Direction>) -> GameV {
        if self.snake.alive_after(dir, self.width as int, self.height as int) {
            let moved = self.snake.advanced(dir);
            if self.food_exists && moved.head() == self.food {
                GameV { snake: moved.grown(), food_exists: false, waiting_ms: 0, ..self }
            } else {
                GameV { snake: moved, waiting_ms: 0, ..self }
            }
        } else {
            GameV { game_over: true, waiting_ms: 0, ..self }
        }
    }

    /// Is some interior cell free of the snake body?
    pub open spec fn has_free_interior_cell(self) -> bool {
        exists|x: int, y: int|
            0 < x < self.width - 1 && 0 < y < self.height - 1 && !self.snake.occupies(x, y)
    }

    /// Relates a state to the one after food spawning: with food already
    /// present, or no interior cell free, nothing changes; otherwise some
    /// free interior cell becomes the food and nothing else changes.
    pub open spec fn food_spawn(self, post: GameV) -> bool {
        if self.food_exists || !self.has_free_interior_cell() {
            post == self
        } else {
            &&& post == (GameV { food_exists: true, food: post.food, ..self })
            &&& self.cell_interior(post.food)
            &&& !self.snake.occupies(post.food.x as int, post.food.y as int)
        }
    }

    /// Relates a state to the one after a frame update that adds `delta`
    /// milliseconds: the waiting time accumulates; a finished game restarts
    /// once the delay has passed and otherwise sits still; a running game
    /// first gains food if none is present, then moves if the accumulated
    /// time exceeds the move period.
    pub open spec fn updated(self, delta: u64, post: GameV) -> bool {
        let w = wait_after(self.waiting_ms, delta);
        if self.game_over {
            post == if w > RESTART_TIME_MS {
                GameV::initial(self.width, self.height)
            } else {
                self.with_waiting(w)
            }
        } else {
            exists|mid: GameV|
                #[trigger] self.with_waiting(w).food_spawn(mid) && post == if w > MOVE_PERIOD_MS {
                    mid.ticked(None)
                } else {
                    mid
                }
        }
    }
}

/// A direction request other than the exact reversal, issued to a running
/// game whose move in that direction is valid, leaves the heading equal to
/// the requested direction after the move.
pub proof fn lemma_direction_request_sets_heading(g: GameV, d: Direction)
    requires
        g.wf(),
        !g.game_over,
        d != opposite_of(g.snake.direction),
        g.snake.alive_after(Some(d), g.width as int, g.height as int),
    ensures
        g.ticked(Some(d)).snake.direction == d,
{
}

/// Eating: a valid move onto present food takes the food off the board and
/// grows the snake by one cell.
pub proof fn lemma_eating_clears_food(g: GameV, dir: Option<Direction>)
    requires
        g.wf(),
        g.food_exists,
        g.snake.alive_after(dir, g.width as int, g.height as int),
        g.snake.advanced(dir).head() == g.food,
    ensures
        !g.ticked(dir).food_exists,
        g.ticked(dir).snake.body.len() == g.snake.body.len() + 1,
{
}

/// A move whose next head cell lies on or outside the border — x or y at or
/// below 0, x at or above width - 1, y at or above height - 1 — ends the
/// game and leaves the snake in place.
pub proof fn lemma_border_ends_game(g: GameV, dir: Option<Direction>)
    requires
        g.wf(),
        ({
            let h = g.snake.next_head(dir);
            h.x <= 0 || h.y <= 0 || h.x >= g.width - 1 || h.y >= g.height - 1
        }),
    ensures
        g.ticked(dir).game_over,
        g.ticked(dir).snake == g.snake,
{
}

/// A running snake game: the snake, the food and whether it is on the
/// board, the board size, the game-over flag, and the waiting time (in
/// milliseconds) accumulated since the last move.
pub struct Game {
    snake: Snake,
    food_exists: bool,
    food_x: i32,
    food_y: i32,
    width: i32,
    height: i32,
    game_over: bool,
    waiting_ms: u64,
}

impl View for Game {
    type V = GameV;

    closed spec fn view(&self) -> GameV {
        GameV {
            snake: self.snake@,
            food_exists: self.food_exists,
            food: Block { x: self.food_x, y: self.food_y },
            width: self.width,
            height: self.height,
            game_over: self.game_over,
            waiting_ms: self.waiting_ms,
        }
    }
}

/// Relies on rand::random_range over `low..high`: the draw lies in that
/// range; the empty range, on which it panics, is ruled out by `requires`.
#[verifier::external_body]
fn random_in_range(low: i32, high: i32) -> (r: i32)
    requires
        low < high,
    ensures
        low <= r < high,
{
    rand::random_range(low..high)
}

impl Game {
    /// A fresh game on a `width` by `height` board, in the fixed starting
    /// state. The board must be large enough to hold the starting snake
    /// strictly inside the border.
    pub fn new(width: i32, height: i32) -> (g: Game)
        requires
            6 <= width,
            4 <= height,
        ensures
            g@ == GameV::initial(width, height),
            g@.wf(),
    {
        let g = Game {
            snake: Snake::new(2, 2),
            waiting_ms: 0,
            food_exists: true,
            food_x: 6,
            food_y: 10,
            width,
            height,
            game_over: false,
        };
        proof {
            assert(g@ =~= GameV::initial(width, height));
        }
        g
    }

    /// Is food on the board?
    pub fn food_exists(&self) -> (r: bool)
        ensures
            r == self@.food_exists,
    {
        self.food_exists
    }

    /// The food cell's coordinates.
    pub fn food_pos(&self) -> (r: (i32, i32))
        ensures
            r == (self@.food.x, self@.food.y),
    {
        (self.food_x, self.food_y)
    }

    /// Has the game ended?
    pub fn is_game_over(&self) -> (r: bool)
        ensures
            r == self@.game_over,
    {
        self.game_over
    }

    /// The board size as (width, height).
    pub fn size(&self) -> (r: (i32, i32))
        ensures
            r == (self@.width, self@.height),
    {
        (self.width, self.height)
    }

    /// The snake, for reading.
    pub fn snake(&self) -> (r: &Snake)
        ensures
            r@ == self@.snake,
    {
        &self.snake
    }

    /// After a move: if the head landed on present food, the food is taken
    /// off the board and the snake grows back the cell the move vacated.
    fn check_eating(&mut self)
        requires
            old(self)@.snake.wf(),
            old(self)@.food_exists && old(self)@.snake.head() == old(self)@.food ==> old(
                self,
            )@.snake.tail is Some,
        ensures
            final(self)@ == if old(self)@.food_exists && old(self)@.snake.head() == old(
                self,
            )@.food {
                (GameV { snake: old(self)@.snake.grown(), food_exists: false, ..old(self)@ })
            } else {
                old(self)@
            },
    {
        let (head_x, head_y): (i32, i32) = self.snake.head_pos();
        if self.food_exists && self.food_x == head_x && self.food_y == head_y {
            self.food_exists = false;
            self.snake.tail_restore();
        }
    }

    /// One attempted move with intent `dir`: a valid move advances the
    /// snake and may eat; an invalid one ends the game. The waiting time
    /// resets either way.
    fn update_snake(&mut self, dir: Option<Direction>)
        requires
            old(self)@.wf(),
            !old(self)@.game_over,
        ensures
            final(self)@ == old(self)@.ticked(dir),
            final(self)@.wf(),
    {
        let ghost pre = old(self)@;
        proof {
            assert(pre.cell_interior(pre.snake.body[0]));
        }
        if self.snake.check_if_alive(dir, self.width, self.height) {
            let ghost moved = pre.snake.advanced(dir);
            self.snake.move_forward(dir);
            proof {
                lemma_advance_keeps_connected(pre.snake, dir);
                if pre.snake.body.len() >= 2 {
                    assert(moved.tail_cell() == pre.snake.body[pre.snake.body.len() - 2]);
                    assert(adjacent(
                        pre.snake.body[pre.snake.body.len() - 2],
                        pre.snake.body[pre.snake.body.len() - 1],
                    ));
                } else {
                    assert(moved.tail_cell() == pre.snake.next_head(dir));
                }
                assert(adjacent(moved.tail_cell(), moved.tail->0));
                lemma_grow_keeps_connected(moved);
                assert forall|i: int| 0 <= i < moved.body.len() implies pre.cell_interior(
                    #[trigger] moved.body[i],
                ) by {
                    if i == 0 {
                        assert(moved.body[0] == pre.snake.next_head(dir));
                    } else {
                        assert(moved.body[i] == pre.snake.body.drop_last()[i - 1]);
                        assert(moved.body[i] == pre.snake.body[i - 1]);
                        assert(pre.cell_interior(pre.snake.body[i - 1]));
                    }
                }
            }
            self.check_eating();
            self.waiting_ms = 0;
            proof {
                if pre.food_exists && moved.head() == pre.food {
                    assert(self@ =~= (GameV {
                        snake: moved.grown(),
                        food_exists: false,
                        waiting_ms: 0,
                        ..pre
                    }));
                    assert forall|i: int|
                        0 <= i < moved.grown().body.len() implies pre.cell_interior(
                        #[trigger] moved.grown().body[i],
                    ) by {
                        if i < moved.body.len() {
                            assert(moved.grown().body[i] == moved.body[i]);
                        } else {
                            assert(moved.grown().body[i] == pre.snake.tail_cell());
                            assert(pre.cell_interior(
                                pre.snake.body[pre.snake.body.len() - 1],
                            ));
                        }
                    }
                } else {
                    assert(self@ =~= (GameV { snake: moved, waiting_ms: 0, ..pre }));
                    if pre.food_exists {
                        assert forall|i: int|
                            0 <= i < moved.body.len() implies !(#[trigger] moved.body[i] == pre.food)
                        by {
                            if i == 0 {
                                assert(moved.body[0] == pre.snake.next_head(dir));
                            } else {
                                assert(moved.body[i] == pre.snake.body[i - 1]);
                                assert(!(pre.snake.body[i - 1].x == pre.food.x
                                    && pre.snake.body[i - 1].y == pre.food.y));
                            }
                        }
                        assert(!moved.occupies(pre.food.x as int, pre.food.y as int));
                    }
                }
            }
        } else {
            self.game_over = true;
            self.waiting_ms = 0;
            proof {
                assert(self@ =~= (GameV { game_over: true, waiting_ms: 0, ..pre }));
            }
        }
    }

    /// Back to the fixed starting state on the same board.
    fn restart(&mut self)
        requires
            6 <= old(self)@.width,
            4 <= old(self)@.height,
        ensures
            final(self)@ == GameV::initial(old(self)@.width, old(self)@.height),
            final(self)@.wf(),
    {
        self.snake = Snake::new(2, 2);
        self.waiting_ms = 0;
        self.food_exists = true;
        self.food_x = 6;
        self.food_y = 10;
        self.game_over = false;
        proof {
            assert(self@ =~= GameV::initial(old(self)@.width, old(self)@.height));
        }
    }

    /// The first interior cell, scanning row by row, that no snake body
    /// cell occupies; `None` when the body covers the whole interior.
    fn first_free_cell(&self) -> (r: Option<(i32, i32)>)
        requires
            self@.wf(),
        ensures
            match r {
                Some(c) => self@.cell_interior(Block { x: c.0, y: c.1 })
                    && !self@.snake.occupies(c.0 as int, c.1 as int),
                None => !self@.has_free_interior_cell(),
            },
    {
        let mut y: i32 = 1;
        while y < self.height - 1
            invariant
                self@.wf(),
                1 <= y <= self@.height - 1,
                forall|xx: int, yy: int|
                    0 < xx < self@.width - 1 && 0 < yy < y ==> #[trigger] self@.snake.occupies(
                        xx,
                        yy,
                    ),
            decreases self@.height - 1 - y,
        {
            let mut x: i32 = 1;
            while x < self.width - 1
                invariant
                    self@.wf(),
                    1 <= y < self@.height - 1,
                    1 <= x <= self@.width - 1,
                    forall|xx: int, yy: int|
                        0 < xx < self@.width - 1 && 0 < yy < y ==> #[trigger] self@.snake.occupies(
                            xx,
                            yy,
                        ),
                    forall|xx: int|
                        0 < xx < x ==> #[trigger] self@.snake.occupies(xx, y as int),
                decreases self@.width - 1 - x,
            {
                if !self.snake.body_contains(x, y) {
                    return Some((x, y));
                }
                x = x + 1;
            }
            y = y + 1;
        }
        None
    }

    /// Put new food on the board: a handful of uniform draws over the
    /// interior, falling back to a row-by-row scan, so that the food lands
    /// on an interior cell free of the whole snake body. With no free
    /// interior cell left, nothing changes.
    fn add_food(&mut self)
        requires
            old(self)@.wf(),
            !old(self)@.food_exists,
        ensures
            final(self)@.wf(),
            old(self)@.food_spawn(final(self)@),
    {
        let mut found: bool = false;
        let mut new_x: i32 = 1;
        let mut new_y: i32 = 1;
        let mut tries: u32 = 0;
        while tries < 64 && !found
            invariant
                self@ == old(self)@,
                self@.wf(),
                tries <= 64,
                found ==> self@.cell_interior(Block { x: new_x, y: new_y })
                    && !self@.snake.occupies(new_x as int, new_y as int),
            decreases 64 - tries,
        {
            let x: i32 = random_in_range(1, self.width - 1);
            let y: i32 = random_in_range(1, self.height - 1);
            if !self.snake.body_contains(x, y) {
                new_x = x;
                new_y = y;
                found = true;
            }
            tries = tries + 1;
        }
        if !found {
            match self.first_free_cell() {
                Some((fx, fy)) => {
                    self.food_x = fx;
                    self.food_y = fy;
                    self.food_exists = true;
                    proof {
                        assert(self@ =~= (GameV {
                            food_exists: true,
                            food: self@.food,
                            ..old(self)@
                        }));
                    }
                },
                None => {
                },
            }
        } else {
            self.food_x = new_x;
            self.food_y = new_y;
            self.food_exists = true;
            proof {
                assert(self@ =~= (GameV { food_exists: true, food: self@.food, ..old(self)@ }));
            }
        }
    }

    /// One frame: add `delta_ms` milliseconds to the waiting time. A
    /// finished game restarts once the delay has passed. A running game
    /// first gains food if none is on the board, then makes a timer-forced
    /// move in the current heading once the move period has passed.
    pub fn update(&mut self, delta_ms: u64)
        requires
            old(self)@.wf(),
        ensures
            final(self)@.wf(),
            old(self)@.updated(delta_ms, final(self)@),
    {
        let w: u64 = if self.waiting_ms <= u64::MAX - delta_ms {
            self.waiting_ms + delta_ms
        } else {
            u64::MAX
        };
        self.waiting_ms = w;
        proof {
            assert(self@ =~= old(self)@.with_waiting(w));
        }
        if self.game_over {
            if w > RESTART_TIME_MS {
                self.restart();
            }
            return;
        }
        if !self.food_exists {
            self.add_food();
        }
        let ghost mid = self@;
        proof {
            assert(old(self)@.with_waiting(w).food_spawn(mid));
        }
        if w > MOVE_PERIOD_MS {
            self.update_snake(None);
        }
    }

    /// A direction request from input: ignored when the game is over, and
    /// ignored when it is the exact reversal of the current heading;
    /// otherwise it triggers an immediate move in that direction.
    pub fn key_pressed(&mut self, dir: Direction)
        requires
            old(self)@.wf(),
        ensures
            final(self)@.wf(),
            old(self)@.game_over ==> final(self)@ == old(self)@,
            !old(self)@.game_over && dir == opposite_of(old(self)@.snake.direction)
                ==> final(self)@ == old(self)@,
            !old(self)@.game_over && dir != opposite_of(old(self)@.snake.direction)
                ==> final(self)@ == old(self)@.ticked(Some(dir)),
    {
        if self.game_over {
            return;
        }
        if dir == self.snake.head_dir().opposite() {
            return;
        }
        self.update_snake(Some(dir));
    }
}

} // verus!
