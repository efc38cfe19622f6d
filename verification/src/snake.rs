use vstd::prelude::*;

verus! {

/// One of the four cardinal headings a snake can travel in.
#[derive(Copy, Clone, PartialEq, Eq, Structural, Debug)]
pub enum Direction {
    Up,
    Down,
    Left,
    Right,
}

/// The heading that points exactly the other way.
pub open spec fn opposite_of(d: Direction) -> Direction {
    match d {
        Direction::Up => Direction::Down,
        Direction::Down => Direction::Up,
        Direction::Left => Direction::Right,
        Direction::Right => Direction::Left,
    }
}

impl Direction {
    /// Returns the heading that points exactly the other way.
    pub fn opposite(&self) -> (r: Direction)
        ensures
            r == opposite_of(*self),
    {
        match *self {
            Direction::Up => Direction::Down,
            Direction::Down => Direction::Up,
            Direction::Left => Direction::Right,
            Direction::Right => Direction::Left,
        }
    }
}

/// One grid cell, identified by its coordinates alone.
#[derive(Copy, Clone, PartialEq, Eq, Structural, Debug)]
pub struct Block {
    pub x: i32,
    pub y: i32,
}

/// The cell one step from `b` in direction `d` (coordinates taken modulo
/// `i32`; callers rule the wrap-around out with `step_fits`).
pub open spec fn stepped(b: Block, d: Direction) -> Block {
    match d {
        Direction::Up => Block { x: b.x, y: (b.y - 1) as i32 },
        Direction::Down => Block { x: b.x, y: (b.y + 1) as i32 },
        Direction::Left => Block { x: (b.x - 1) as i32, y: b.y },
        Direction::Right => Block { x: (b.x + 1) as i32, y: b.y },
    }
}

/// Stepping from `b` in direction `d` stays within `i32`.
pub open spec fn step_fits(b: Block, d: Direction) -> bool {
    match d {
        Direction::Up => b.y > i32::MIN,
        Direction::Down => b.y < i32::MAX,
        Direction::Left => b.x > i32::MIN,
        Direction::Right => b.x < i32::MAX,
    }
}

/// Are `a` and `b` edge-adjacent: exactly one cell apart along one axis?
pub open spec fn adjacent(a: Block, b: Block) -> bool {
    ||| a.x == b.x && (a.y - b.y == 1 || b.y - a.y == 1)
    ||| a.y == b.y && (a.x - b.x == 1 || b.x - a.x == 1)
}

/// The mathematical state of a snake: its heading, its body from head to
/// tail, and the cell most recently vacated by the tail (kept so that eating
/// can restore it).
#[verifier::ext_equal]
pub ghost struct SnakeV {
    pub direction: Direction,
    pub body: Seq<Block>,
    pub tail: Option<Block>,
}

impl SnakeV {
    /// A snake body is never empty.
    pub open spec fn wf(self) -> bool {
        self.body.len() >= 1
    }

    /// The head cell.
    pub open spec fn head(self) -> Block {
        self.body[0]
    }

    /// The tail cell: the one a move vacates.
    pub open spec fn tail_cell(self) -> Block {
        self.body.last()
    }

    /// The heading a move with intent `dir` travels in: the requested
    /// direction if one is given, the current heading otherwise.
    pub open spec fn move_direction(self, dir: Option<Direction>) -> Direction {
        match dir {
            Some(d) => d,
            None => self.direction,
        }
    }

    /// The cell the head would occupy after a move with intent `dir`.
    pub open spec fn next_head(self, dir: Option<Direction>) -> Block {
        stepped(self.head(), self.move_direction(dir))
    }

    /// The state after one move with intent `dir`: the heading is updated,
    /// the tail cell is removed and remembered, and the new head cell is
    /// prepended. Length is unchanged.
    pub open spec fn advanced(self, dir: Option<Direction>) -> SnakeV {
        SnakeV {
            direction: self.move_direction(dir),
            body: seq![self.next_head(dir)] + self.body.drop_last(),
            tail: Some(self.tail_cell()),
        }
    }

    /// The state after growth: the remembered vacated cell is re-appended.
    pub open spec fn grown(self) -> SnakeV {
        SnakeV { body: self.body.push(self.tail->0), ..self }
    }

    /// Consecutive body cells are adjacent: the body never teleports.
    pub open spec fn connected(self) -> bool {
        forall|i: int|
            0 <= i < self.body.len() - 1 ==> adjacent(
                #[trigger] self.body[i],
                self.body[i + 1],
            )
    }

    /// Does some body cell other than the tail sit at `(x, y)`? The tail is
    /// excluded on purpose: a move may enter the cell the tail vacates.
    pub open spec fn hits_except_tail(self, x: int, y: int) -> bool {
        exists|i: int| 0 <= i < self.body.len() - 1 && self.body[i].x == x && self.body[i].y == y
    }

    /// Does any body cell, tail included, sit at `(x, y)`?
    pub open spec fn occupies(self, x: int, y: int) -> bool {
        exists|i: int| 0 <= i < self.body.len() && self.body[i].x == x && self.body[i].y == y
    }

    /// Would a move with intent `dir` keep the snake alive on a board of the
    /// given size: the next head cell lies strictly inside the one-cell
    /// border and meets no body cell but the vacated tail.
    pub open spec fn alive_after(self, dir: Option<Direction>, width: int, height: int) -> bool {
        let h = self.next_head(dir);
        &&& !self.hits_except_tail(h.x as int, h.y as int)
        &&& 0 < h.x < width - 1
        &&& 0 < h.y < height - 1
    }
}

/// A move keeps the body length; a move followed by growth leaves the body
/// exactly one cell longer than before the move.
pub proof fn lemma_advance_grow_length(s: SnakeV, dir: Option<Direction>)
    requires
        s.wf(),
    ensures
        s.advanced(dir).body.len() == s.body.len(),
        s.advanced(dir).grown().body.len() == s.body.len() + 1,
{
}

/// The overlap check never reports the tail cell itself: when the cell the
/// tail is about to vacate appears nowhere else in the body, no overlap is
/// found at it, so a snake may follow its own tail.
pub proof fn lemma_tail_cell_not_hit(s: SnakeV)
    requires
        s.wf(),
        forall|i: int| 0 <= i < s.body.len() - 1 ==> s.body[i] != s.tail_cell(),
    ensures
        !s.hits_except_tail(s.tail_cell().x as int, s.tail_cell().y as int),
{
    if s.hits_except_tail(s.tail_cell().x as int, s.tail_cell().y as int) {
        let i = choose|i: int|
            0 <= i < s.body.len() - 1 && s.body[i].x == s.tail_cell().x && s.body[i].y
                == s.tail_cell().y;
        assert(s.body[i] == s.tail_cell());
    }
}

/// A move keeps the body connected: the new head cell is adjacent to the
/// old head, and every other neighbouring pair was one already.
pub proof fn lemma_advance_keeps_connected(s: SnakeV, dir: Option<Direction>)
    requires
        s.wf(),
        s.connected(),
        step_fits(s.head(), s.move_direction(dir)),
    ensures
        s.advanced(dir).connected(),
{
    let a = s.advanced(dir);
    assert forall|i: int| 0 <= i < a.body.len() - 1 implies adjacent(
        #[trigger] a.body[i],
        a.body[i + 1],
    ) by {
        if i == 0 {
            assert(a.body[0] == stepped(s.head(), s.move_direction(dir)));
            assert(a.body[1] == s.body[0]);
        } else {
            assert(a.body[i] == s.body[i - 1]);
            assert(a.body[i + 1] == s.body[i]);
            assert(adjacent(s.body[i - 1], s.body[i]));
        }
    }
}

/// Growth keeps the body connected, provided the remembered cell is
/// adjacent to the present tail cell — as it is when growth follows the
/// move that removed it.
pub proof fn lemma_grow_keeps_connected(s: SnakeV)
    requires
        s.wf(),
        s.connected(),
        s.tail matches Some(t) && adjacent(s.tail_cell(), t),
    ensures
        s.grown().connected(),
{
    let g = s.grown();
    assert forall|i: int| 0 <= i < g.body.len() - 1 implies adjacent(
        #[trigger] g.body[i],
        g.body[i + 1],
    ) by {
        if i < s.body.len() - 1 {
            assert(g.body[i] == s.body[i]);
            assert(g.body[i + 1] == s.body[i + 1]);
            assert(adjacent(s.body[i], s.body[i + 1]));
        } else {
            assert(g.body[i] == s.tail_cell());
            assert(g.body[i + 1] == s.tail->0);
        }
    }
}

/// A snake on the grid: an ordered body of cells, head first, a current
/// heading, and the cell the last move removed from the tail.
pub struct Snake {
    direction: Direction,
    body: Vec<Block>,
    tail: Option<Block>,
}

impl View for Snake {
    type V = SnakeV;

    closed spec fn view(&self) -> SnakeV {
        SnakeV { direction: self.direction, body: self.body@, tail: self.tail }
    }
}

impl Snake {
    /// A fresh three-cell snake laid out horizontally with its head at
    /// `(x + 2, y)` and its tail at `(x, y)`, heading right.
    pub fn new(x: i32, y: i32) -> (s: Snake)
        requires
            x + 2 <= i32::MAX,
        ensures
            s@.direction == Direction::Right,
            s@.body =~= seq![
                Block { x: (x + 2) as i32, y },
                Block { x: (x + 1) as i32, y },
                Block { x, y },
            ],
            s@.tail is None,
            s@.wf(),
            s@.connected(),
    {
        let mut body: Vec<Block> = Vec::new();
        body.push(Block { x: x + 2, y });
        body.push(Block { x: x + 1, y });
        body.push(Block { x, y });

        Snake { direction: Direction::Right, body, tail: None }
    }

    /// The head cell's coordinates.
    pub fn head_pos(&self) -> (r: (i32, i32))
        requires
            self@.wf(),
        ensures
            r == (self@.head().x, self@.head().y),
    {
        let head_block = &self.body[0];
        (head_block.x, head_block.y)
    }

    /// The current heading.
    pub fn head_dir(&self) -> (r: Direction)
        ensures
            r == self@.direction,
    {
        self.direction
    }

    /// The cell the head would occupy after a move with intent `dir`.
    /// Pure: nothing is mutated.
    pub fn head_next(&self, dir: Option<Direction>) -> (r: (i32, i32))
        requires
            self@.wf(),
            step_fits(self@.head(), self@.move_direction(dir)),
        ensures
            r == (self@.next_head(dir).x, self@.next_head(dir).y),
    {
        let (head_x, head_y): (i32, i32) = self.head_pos();
        let move_dir = match dir {
            Some(d) => d,
            None => self.direction,
        };

        match move_dir {
            Direction::Up => (head_x, head_y - 1),
            Direction::Down => (head_x, head_y + 1),
            Direction::Left => (head_x - 1, head_y),
            Direction::Right => (head_x + 1, head_y),
        }
    }

    /// One move: adopt the requested heading if any, remove and remember the
    /// tail cell, and prepend the new head cell. Length is unchanged.
    pub fn move_forward(&mut self, dir: Option<Direction>)
        requires
            old(self)@.wf(),
            step_fits(old(self)@.head(), old(self)@.move_direction(dir)),
        ensures
            final(self)@ == old(self)@.advanced(dir),
            final(self)@.wf(),
            final(self)@.body.len() == old(self)@.body.len(),
    {
        match dir {
            None => (),
            Some(d) => self.direction = d,
        }

        let (last_x, last_y): (i32, i32) = self.head_pos();
        let removed_block = self.body.pop().unwrap();
        let new_block = match self.direction {
            Direction::Up => Block { x: last_x, y: last_y - 1 },
            Direction::Down => Block { x: last_x, y: last_y + 1 },
            Direction::Left => Block { x: last_x - 1, y: last_y },
            Direction::Right => Block { x: last_x + 1, y: last_y },
        };
        self.body.insert(0, new_block);
        self.tail = Some(removed_block);

        proof {
            assert(final(self)@.body =~= old(self)@.advanced(dir).body);
            assert(final(self)@ =~= old(self)@.advanced(dir));
        }
    }

    /// Growth after eating: re-append the cell the last move removed.
    pub fn tail_restore(&mut self)
        requires
            old(self)@.tail is Some,
        ensures
            final(self)@ == old(self)@.grown(),
            final(self)@.body.len() == old(self)@.body.len() + 1,
    {
        let tail_block = self.tail.clone().unwrap();
        self.body.push(tail_block);
    }

    /// Does some body cell other than the tail sit at `(x, y)`? The tail is
    /// excluded on purpose: the snake may follow its own tail into the cell
    /// it is vacating this move.
    pub fn tail_overlaps(&self, x: i32, y: i32) -> (r: bool)
        requires
            self@.wf(),
        ensures
            r == self@.hits_except_tail(x as int, y as int),
    {
        let n: usize = self.body.len();
        let mut i: usize = 0;
        while i < n - 1
            invariant
                n == self@.body.len(),
                n >= 1,
                i <= n - 1,
                forall|j: int| 0 <= j < i ==> !(self@.body[j].x == x && self@.body[j].y == y),
            decreases n - i,
        {
            if self.body[i].x == x && self.body[i].y == y {
                return true;
            }
            i = i + 1;
        }
        false
    }

    /// Would a move with intent `dir` keep the snake alive on a
    /// `game_width` by `game_height` board: the next head cell must lie
    /// strictly inside the one-cell border and must not meet the body,
    /// the vacated tail cell excepted.
    pub fn check_if_alive(&self, dir: Option<Direction>, game_width: i32, game_height: i32) -> (r:
        bool)
        requires
            self@.wf(),
            step_fits(self@.head(), self@.move_direction(dir)),
            game_width > i32::MIN,
            game_height > i32::MIN,
        ensures
            r == self@.alive_after(dir, game_width as int, game_height as int),
    {
        let (next_x, next_y) = self.head_next(dir);

        if self.tail_overlaps(next_x, next_y) {
            return false;
        }

        next_x > 0 && next_y > 0 && next_x < game_width - 1 && next_y < game_height - 1
    }

    /// Does any body cell, the tail included, sit at `(x, y)`?
    pub fn body_contains(&self, x: i32, y: i32) -> (r: bool)
        ensures
            r == self@.occupies(x as int, y as int),
    {
        let n: usize = self.body.len();
        let mut i: usize = 0;
        while i < n
            invariant
                n == self@.body.len(),
                i <= n,
                forall|j: int| 0 <= j < i ==> !(self@.body[j].x == x && self@.body[j].y == y),
            decreases n - i,
        {
            if self.body[i].x == x && self.body[i].y == y {
                return true;
            }
            i = i + 1;
        }
        false
    }

    /// How many cells the body holds.
    pub fn len(&self) -> (r: usize)
        ensures
            r == self@.body.len(),
    {
        self.body.len()
    }

    /// The body cell at index `i`, the head being index 0.
    pub fn cell_at(&self, i: usize) -> (r: (i32, i32))
        requires
            i < self@.body.len(),
        ensures
            r == (self@.body[i as int].x, self@.body[i as int].y),
    {
        let b = &self.body[i];
        (b.x, b.y)
    }
}

} // verus!
