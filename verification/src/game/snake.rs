use std::collections::VecDeque;
use rand::Rng;
use vstd::prelude::*;
use vstd::arithmetic::div_mod::lemma_fundamental_div_mod_converse;

verus! {

/// A direction the snake can travel in.
#[derive(Clone, Copy, Debug, PartialEq, Eq, Structural)]
pub enum Direction {
    Up,
    Down,
    Left,
    Right,
}

/// The direction that points the other way.
pub open spec fn opposite_of(d: Direction) -> Direction {
    match d {
        Direction::Up => Direction::Down,
        Direction::Down => Direction::Up,
        Direction::Left => Direction::Right,
        Direction::Right => Direction::Left,
    }
}

impl Direction {
    pub fn opposite(&self) -> (r: Self)
        ensures
            r == opposite_of(*self),
            *self == Direction::Up ==> r == Direction::Down,
            *self == Direction::Down ==> r == Direction::Up,
            *self == Direction::Left ==> r == Direction::Right,
            *self == Direction::Right ==> r == Direction::Left,
    {
        match self {
            Direction::Up => Direction::Down,
            Direction::Down => Direction::Up,
            Direction::Left => Direction::Right,
            Direction::Right => Direction::Left,
        }
    }
}

/// A cell of the grid, by column and row.
#[derive(Clone, Copy, Debug, PartialEq, Eq, Structural)]
pub struct Position {
    pub x: i32,
    pub y: i32,
}

impl Position {
    pub fn new(x: i32, y: i32) -> (p: Self)
        ensures
            p.x == x,
            p.y == y,
    {
        Self { x, y }
    }
}

/// What a cell of the grid shows.
#[derive(Clone, Copy, Debug, PartialEq, Eq, Structural)]
pub enum CellType {
    Empty,
    Head,
    Body,
    Tail,
    Food,
}

/// The cell at column `x` and row `y`, for coordinates that fit in `i32`.
pub open spec fn cell(x: int, y: int) -> Position {
    Position { x: x as i32, y: y as i32 }
}

/// The cells of row `y` among the columns `0..n` that `occupied` does not
/// hold, from left to right.
pub open spec fn free_in_row(occupied: Seq<Position>, y: int, n: int) -> Seq<Position>
    decreases n,
{
    if n <= 0 {
        Seq::empty()
    } else {
        let before = free_in_row(occupied, y, n - 1);
        if occupied.contains(cell(n - 1, y)) {
            before
        } else {
            before.push(cell(n - 1, y))
        }
    }
}

/// The cells of the rows `0..m` of a grid `w` columns wide that `occupied`
/// does not hold, row by row from the top.
pub open spec fn free_in_rows(occupied: Seq<Position>, w: int, m: int) -> Seq<Position>
    decreases m,
{
    if m <= 0 {
        Seq::empty()
    } else {
        free_in_rows(occupied, w, m - 1) + free_in_row(occupied, m - 1, w)
    }
}

/// The cells of a `w` by `h` grid that `occupied` does not hold, in
/// row-major order: the places where food may appear.
pub open spec fn free_cells(w: int, h: int, occupied: Seq<Position>) -> Seq<Position> {
    free_in_rows(occupied, w, h)
}

/// A cell lies inside a `w` by `h` grid.
pub open spec fn in_grid(w: int, h: int, p: Position) -> bool {
    0 <= p.x < w && 0 <= p.y < h
}

/// The three cells of a fresh snake: the head in the middle of the grid and
/// the body trailing to its left.
pub open spec fn initial_snake(w: i32, h: i32) -> Seq<Position> {
    let cx = w / 2;
    let cy = h / 2;
    seq![cell(cx as int, cy as int), cell(cx - 1, cy as int), cell(cx - 2, cy as int)]
}

/// The cell one step from `p` in direction `d`.
pub open spec fn step_from(p: Position, d: Direction) -> Position {
    match d {
        Direction::Up => cell(p.x as int, p.y - 1),
        Direction::Down => cell(p.x as int, p.y + 1),
        Direction::Left => cell(p.x - 1, p.y as int),
        Direction::Right => cell(p.x + 1, p.y as int),
    }
}

/// No cell occurs twice.
pub open spec fn distinct_cells(s: Seq<Position>) -> bool {
    forall|i: int, j: int| 0 <= i < s.len() && 0 <= j < s.len() && i != j ==> s[i] != s[j]
}

/// A cell is among the free cells of a row exactly when it lies in the
/// row's first `n` columns and is not taken; there are at most `n` of them.
pub proof fn lemma_free_in_row_contains(occupied: Seq<Position>, y: int, n: int, p: Position)
    requires
        0 <= y <= i32::MAX,
        n <= i32::MAX + 1,
    ensures
        free_in_row(occupied, y, n).contains(p) <==> (p.y == y && 0 <= p.x < n
            && !occupied.contains(p)),
        free_in_row(occupied, y, n).len() <= if n < 0 { 0 } else { n },
    decreases n,
{
    if n > 0 {
        lemma_free_in_row_contains(occupied, y, n - 1, p);
        let before = free_in_row(occupied, y, n - 1);
        let c = cell(n - 1, y);
        if !occupied.contains(c) {
            assert(before.push(c).contains(p) <==> before.contains(p) || p == c) by {
                if p == c {
                    assert(before.push(c)[before.len() as int] == c);
                }
                if before.push(c).contains(p) && p != c {
                    let i = choose|i: int| 0 <= i < before.push(c).len() && before.push(c)[i] == p;
                    assert(before[i] == p);
                }
                if before.contains(p) {
                    let i = choose|i: int| 0 <= i < before.len() && before[i] == p;
                    assert(before.push(c)[i] == p);
                }
            }
        }
    }
}

/// A cell is among the free cells of the first `m` rows exactly when it
/// lies in them and is not taken; there are at most `m * w` of them.
pub proof fn lemma_free_in_rows_contains(occupied: Seq<Position>, w: int, m: int, p: Position)
    requires
        0 <= w <= i32::MAX,
        m <= i32::MAX + 1,
    ensures
        free_in_rows(occupied, w, m).contains(p) <==> (0 <= p.y < m && 0 <= p.x < w
            && !occupied.contains(p)),
        free_in_rows(occupied, w, m).len() <= if m < 0 { 0 } else { m * w },
    decreases m,
{
    if m > 0 {
        lemma_free_in_rows_contains(occupied, w, m - 1, p);
        lemma_free_in_row_contains(occupied, m - 1, w, p);
        let a = free_in_rows(occupied, w, m - 1);
        let b = free_in_row(occupied, m - 1, w);
        assert((a + b).contains(p) <==> a.contains(p) || b.contains(p)) by {
            if (a + b).contains(p) {
                let i = choose|i: int| 0 <= i < (a + b).len() && (a + b)[i] == p;
                if i < a.len() {
                    assert(a[i] == p);
                } else {
                    assert(b[i - a.len()] == p);
                }
            }
            if a.contains(p) {
                let i = choose|i: int| 0 <= i < a.len() && a[i] == p;
                assert((a + b)[i] == p);
            }
            if b.contains(p) {
                let i = choose|i: int| 0 <= i < b.len() && b[i] == p;
                assert((a + b)[i + a.len()] == p);
            }
        }
        assert((m - 1) * w + w == m * w) by (nonlinear_arith);
    }
}

/// A cell is free exactly when it lies in the grid and `occupied` does not
/// hold it.
pub proof fn lemma_free_cells_contains(w: int, h: int, occupied: Seq<Position>, p: Position)
    requires
        0 <= w <= i32::MAX,
        0 <= h <= i32::MAX,
    ensures
        free_cells(w, h, occupied).contains(p) <==> (in_grid(w, h, p) && !occupied.contains(p)),
        free_cells(w, h, occupied).len() <= w * h,
{
    lemma_free_in_rows_contains(occupied, w, h, p);
    assert(h * w == w * h) by (nonlinear_arith);
}

/// `p` comes before `q` in row-major order.
pub open spec fn row_major_before(p: Position, q: Position) -> bool {
    p.y < q.y || (p.y == q.y && p.x < q.x)
}

proof fn lemma_free_in_row_sorted(occupied: Seq<Position>, y: int, n: int)
    requires
        0 <= y <= i32::MAX,
        n <= i32::MAX + 1,
    ensures
        forall|j: int|
            0 <= j < free_in_row(occupied, y, n).len() ==> #[trigger] free_in_row(
                occupied,
                y,
                n,
            )[j].y == y && 0 <= free_in_row(occupied, y, n)[j].x < n,
        forall|j: int, k: int|
            0 <= j < k < free_in_row(occupied, y, n).len() ==> #[trigger] free_in_row(
                occupied,
                y,
                n,
            )[j].x < #[trigger] free_in_row(occupied, y, n)[k].x,
    decreases n,
{
    if n > 0 {
        lemma_free_in_row_sorted(occupied, y, n - 1);
        let before = free_in_row(occupied, y, n - 1);
        let c = cell(n - 1, y);
        assert(c.x == n - 1 && c.y == y);
        if !occupied.contains(c) {
            let r = before.push(c);
            assert forall|j: int| 0 <= j < r.len() implies #[trigger] r[j].y == y && 0 <= r[j].x
                < n by {
                if j < before.len() {
                    assert(r[j] == before[j]);
                }
            }
            assert forall|j: int, k: int| 0 <= j < k < r.len() implies #[trigger] r[j].x
                < #[trigger] r[k].x by {
                assert(r[j] == before[j]);
                if k < before.len() {
                    assert(r[k] == before[k]);
                } else {
                    assert(r[k] == c);
                    assert(0 <= j < before.len());
                    assert(free_in_row(occupied, y, n - 1)[j].y == y);
                    assert(before[j].x < n - 1);
                }
            }
        }
    }
}

proof fn lemma_free_in_rows_sorted(occupied: Seq<Position>, w: int, m: int)
    requires
        0 <= w <= i32::MAX,
        m <= i32::MAX + 1,
    ensures
        forall|j: int|
            0 <= j < free_in_rows(occupied, w, m).len() ==> 0 <= #[trigger] free_in_rows(
                occupied,
                w,
                m,
            )[j].y < m,
        forall|j: int, k: int|
            0 <= j < k < free_in_rows(occupied, w, m).len() ==> row_major_before(
                #[trigger] free_in_rows(occupied, w, m)[j],
                #[trigger] free_in_rows(occupied, w, m)[k],
            ),
    decreases m,
{
    if m > 0 {
        lemma_free_in_rows_sorted(occupied, w, m - 1);
        lemma_free_in_row_sorted(occupied, m - 1, w);
        let a = free_in_rows(occupied, w, m - 1);
        let b = free_in_row(occupied, m - 1, w);
        let f = a + b;
        assert forall|j: int| 0 <= j < f.len() implies 0 <= #[trigger] f[j].y < m by {
            if j >= a.len() {
                assert(f[j] == b[j - a.len()]);
            }
        }
        assert forall|j: int, k: int| 0 <= j < k < f.len() implies row_major_before(
            #[trigger] f[j],
            #[trigger] f[k],
        ) by {
            if k < a.len() {
                assert(f[j] == a[j] && f[k] == a[k]);
            } else if j < a.len() {
                assert(f[j] == a[j] && f[k] == b[k - a.len()]);
            } else {
                assert(f[j] == b[j - a.len()] && f[k] == b[k - a.len()]);
            }
        }
    }
}

/// The free cells come in row-major order: rows from the top, and within a
/// row columns from the left; so the `k`-th free cell is well defined.
pub proof fn lemma_free_cells_row_major(w: int, h: int, occupied: Seq<Position>)
    requires
        0 <= w <= i32::MAX,
        0 <= h <= i32::MAX,
    ensures
        forall|j: int, k: int|
            0 <= j < k < free_cells(w, h, occupied).len() ==> (#[trigger] free_cells(
                w,
                h,
                occupied,
            )[j]).y < (#[trigger] free_cells(w, h, occupied)[k]).y || (free_cells(w, h, occupied)[j].y
                == free_cells(w, h, occupied)[k].y && free_cells(w, h, occupied)[j].x < free_cells(
                w,
                h,
                occupied,
            )[k].x),
{
    lemma_free_in_rows_sorted(occupied, w, h);
}

/// Draws a number below `bound` with `rand::thread_rng().gen_range(0..bound)`
/// (crate `rand`, `Rng::gen_range` on the thread-local generator). The crate
/// documents that the value lies in the half-open range and that an empty
/// range panics; which value is drawn rests on chance and is not stated.
#[verifier::external_body]
fn random_below(bound: u64) -> (r: u64)
    requires
        bound > 0,
    ensures
        r < bound,
{
    rand::thread_rng().gen_range(0..bound)
}


/// The keys the snake screen reacts to; every other key is `Other`.
#[derive(Clone, Copy, Debug, PartialEq, Eq, Structural)]
pub enum SnakeKey {
    Up,
    Down,
    Left,
    Right,
    Space,
    Escape,
    Other,
}

/// The state of a game of snake on a `grid_width` by `grid_height` grid.
pub struct SnakeGame {
    pub grid_width: i32,
    pub grid_height: i32,
    snake: VecDeque<Position>,
    direction: Direction,
    next_direction: Direction,
    food: Position,
    pub score: u32,
    pub game_over: bool,
}

impl SnakeGame {
    /// The width of the grid.
    pub closed spec fn width(&self) -> i32 {
        self.grid_width
    }

    /// The height of the grid.
    pub closed spec fn height(&self) -> i32 {
        self.grid_height
    }

    /// The score so far.
    pub closed spec fn points(&self) -> u32 {
        self.score
    }

    /// Whether the game has ended.
    pub closed spec fn over(&self) -> bool {
        self.game_over
    }

    /// The cells of the snake, head first.
    pub closed spec fn cells(&self) -> Seq<Position> {
        self.snake@
    }

    /// The direction the snake moved in on its last step.
    pub closed spec fn heading(&self) -> Direction {
        self.direction
    }

    /// The direction the snake will move in on its next step.
    pub closed spec fn queued(&self) -> Direction {
        self.next_direction
    }

    /// The cell that holds the food.
    pub closed spec fn food_cell(&self) -> Position {
        self.food
    }

    /// The cells of the grid that the snake does not hold, in row-major
    /// order.
    pub open spec fn free(&self) -> Seq<Position> {
        free_cells(self.width() as int, self.height() as int, self.cells())
    }

    /// The grid leaves room for food beside a fresh snake.
    pub open spec fn roomy(w: i32, h: i32) -> bool {
        w > 0 && h > 0 && !(h == 1 && w <= 2)
    }

    /// The invariant every game keeps.
    pub open spec fn wf(&self) -> bool {
        &&& Self::roomy(self.width(), self.height())
        &&& self.cells().len() >= 1
        &&& in_grid(self.width() as int, self.height() as int, self.cells()[0])
        &&& distinct_cells(self.cells())
        &&& in_grid(self.width() as int, self.height() as int, self.food_cell())
        &&& !self.cells().contains(self.food_cell())
        &&& self.queued() != opposite_of(self.heading())
        &&& (!self.over() && self.cells().len() >= 2 ==> self.cells()[1] == step_from(
            self.cells()[0],
            opposite_of(self.heading()),
        ))
    }

    /// A game as `new` makes it on a `w` by `h` grid.
    pub open spec fn fresh(&self, w: i32, h: i32) -> bool {
        &&& self.width() == w
        &&& self.height() == h
        &&& self.cells() == initial_snake(w, h)
        &&& self.heading() == Direction::Right
        &&& self.queued() == Direction::Right
        &&& self.points() == 0
        &&& !self.over()
        &&& self.free().contains(self.food_cell())
    }

    /// The cell the head moves to on the next step.
    pub open spec fn next_head(&self) -> Position {
        step_from(self.cells()[0], self.queued())
    }

    /// The next step leaves the grid or runs into the snake.
    pub open spec fn collides(&self) -> bool {
        !in_grid(self.width() as int, self.height() as int, self.next_head())
            || self.cells().contains(self.next_head())
    }

    /// The next step eats the food.
    pub open spec fn eats(&self) -> bool {
        !self.collides() && self.next_head() == self.food_cell()
    }

    /// The next step can be taken: where it eats, the score has room for the
    /// reward and the grown snake leaves a cell for new food (on a full grid
    /// the search for a place to put food would never end).
    pub open spec fn tick_allowed(&self) -> bool {
        self.eats() ==> {
            &&& self.points() + 10 <= u32::MAX
            &&& free_cells(
                self.width() as int,
                self.height() as int,
                seq![self.next_head()] + self.cells(),
            ).len() > 0
        }
    }

    /// What one step of the game does, from `pre` to `post`; where food is
    /// eaten the new food lies on some free cell of the grown snake.
    pub open spec fn tick_outcome(pre: SnakeGame, post: SnakeGame) -> bool {
        let nh = pre.next_head();
        &&& post.width() == pre.width()
        &&& post.height() == pre.height()
        &&& post.heading() == pre.queued()
        &&& post.queued() == pre.queued()
        &&& if pre.collides() {
            &&& post.over()
            &&& post.cells() == pre.cells()
            &&& post.food_cell() == pre.food_cell()
            &&& post.points() == pre.points()
        } else if pre.eats() {
            &&& post.over() == pre.over()
            &&& post.cells() == seq![nh] + pre.cells()
            &&& post.points() == pre.points() + 10
            &&& post.free().contains(post.food_cell())
        } else {
            &&& post.over() == pre.over()
            &&& post.cells() == (seq![nh] + pre.cells()).drop_last()
            &&& post.food_cell() == pre.food_cell()
            &&& post.points() == pre.points()
        }
    }

    /// The cells taken: the snake's, and `extra` too where one is given.
    pub open spec fn occupied_with(&self, extra: Option<Position>) -> Seq<Position> {
        match extra {
            Some(e) => seq![e] + self.cells(),
            None => self.cells(),
        }
    }

    fn snake_contains(&self, p: Position) -> (b: bool)
        ensures
            b == self.cells().contains(p),
    {
        let n = self.snake.len();
        let mut i: usize = 0;
        while i < n
            invariant
                n == self.snake@.len(),
                i <= n,
                forall|j: int| 0 <= j < i ==> self.snake@[j] != p,
            decreases n - i,
        {
            let s = self.snake[i];
            if s.x == p.x && s.y == p.y {
                assert(self.snake@[i as int] == p);
                return true;
            }
            i = i + 1;
        }
        false
    }

    fn occupied(&self, p: Position, extra: Option<Position>) -> (b: bool)
        ensures
            b == self.occupied_with(extra).contains(p),
    {
        let in_snake = self.snake_contains(p);
        proof {
            if let Some(e) = extra {
                let occ = seq![e] + self.cells();
                if occ.contains(p) && p != e {
                    let i = choose|i: int| 0 <= i < occ.len() && occ[i] == p;
                    assert(self.cells()[i - 1] == p);
                }
                if self.cells().contains(p) {
                    let i = choose|i: int| 0 <= i < self.cells().len() && self.cells()[i] == p;
                    assert(occ[i + 1] == p);
                }
                if p == e {
                    assert(occ[0] == p);
                }
            }
        }
        match extra {
            Some(e) => in_snake || (e.x == p.x && e.y == p.y),
            None => in_snake,
        }
    }

    /// Counts the free cells of the grid around `extra` and the snake, and
    /// finds the `k`-th of them in row-major order.
    fn scan_free(&self, extra: Option<Position>, k: u64) -> (res: (u64, Position))
        requires
            self.grid_width > 0,
            self.grid_height > 0,
        ensures
            res.0 == free_cells(
                self.grid_width as int,
                self.grid_height as int,
                self.occupied_with(extra),
            ).len(),
            k < res.0 ==> res.1 == free_cells(
                self.grid_width as int,
                self.grid_height as int,
                self.occupied_with(extra),
            )[k as int],
    {
        let ghost occ = self.occupied_with(extra);
        let ghost w = self.grid_width as int;
        let ghost h = self.grid_height as int;
        let mut count: u64 = 0;
        let mut found = Position::new(0, 0);
        let mut y: i32 = 0;
        while y < self.grid_height
            invariant
                w == self.grid_width,
                h == self.grid_height,
                occ == self.occupied_with(extra),
                0 < w,
                0 <= y <= h,
                count == free_in_rows(occ, w, y as int).len(),
                k < count ==> found == free_in_rows(occ, w, y as int)[k as int],
            decreases h - y,
        {
            proof {
                lemma_free_in_rows_contains(occ, w, y as int, found);
            }
            let mut x: i32 = 0;
            while x < self.grid_width
                invariant
                    w == self.grid_width,
                    h == self.grid_height,
                    occ == self.occupied_with(extra),
                    0 < w,
                    0 <= y < h,
                    0 <= x <= w,
                    count == (free_in_rows(occ, w, y as int) + free_in_row(occ, y as int, x as int)).len(),
                    count <= y * w + x,
                    k < count ==> found == (free_in_rows(occ, w, y as int) + free_in_row(
                        occ,
                        y as int,
                        x as int,
                    ))[k as int],
                decreases w - x,
            {
                let ghost a = free_in_rows(occ, w, y as int);
                let ghost r = free_in_row(occ, y as int, x as int);
                let p = Position::new(x, y);
                assert(p == cell(x as int, y as int));
                if !self.occupied(p, extra) {
                    assert(y * w + x < 0x4000_0000_0000_0000) by (nonlinear_arith)
                        requires
                            0 <= y < h,
                            0 <= x < w,
                            w <= 0x7fff_ffff,
                            h <= 0x7fff_ffff,
                    ;
                    assert(a + r.push(p) =~= (a + r).push(p));
                    if count == k {
                        found = p;
                    }
                    count = count + 1;
                }
                x = x + 1;
            }
            assert(y * w + w == (y + 1) * w) by (nonlinear_arith);
            y = y + 1;
        }
        (count, found)
    }

    /// The number of cells where food may appear.
    pub fn free_cell_count(&self) -> (n: u64)
        requires
            self.width() > 0,
            self.height() > 0,
        ensures
            n == self.free().len(),
    {
        self.scan_free(None, 0).0
    }

    /// The `k`-th free cell of the grid in row-major order.
    pub fn nth_free_cell(&self, k: u64) -> (p: Position)
        requires
            self.width() > 0,
            self.height() > 0,
            k < self.free().len(),
        ensures
            p == self.free()[k as int],
    {
        self.scan_free(None, k).1
    }

    /// Starts a game: a snake of three cells heading right from the middle
    /// of the grid, and food on a free cell drawn at random.
    pub fn new(grid_width: i32, grid_height: i32) -> (game: Self)
        requires
            Self::roomy(grid_width, grid_height),
        ensures
            game.wf(),
            game.fresh(grid_width, grid_height),
    {
        let start = Position::new(grid_width / 2, grid_height / 2);
        let mut snake = VecDeque::new();
        snake.push_back(start);
        snake.push_back(Position::new(start.x - 1, start.y));
        snake.push_back(Position::new(start.x - 2, start.y));
        let mut game = Self {
            grid_width,
            grid_height,
            snake,
            direction: Direction::Right,
            next_direction: Direction::Right,
            food: Position::new(0, 0),
            score: 0,
            game_over: false,
        };
        assert(game.cells() == initial_snake(grid_width, grid_height));
        proof {
            let w = grid_width as int;
            let h = grid_height as int;
            let cells = game.cells();
            let spare = if h >= 2 {
                cell(0, if start.y == 0 { 1 } else { 0 })
            } else {
                cell(w - 1, 0)
            };
            assert(!cells.contains(spare)) by {
                if cells.contains(spare) {
                    let i = choose|i: int| 0 <= i < cells.len() && cells[i] == spare;
                    assert(cells[i] == cells[0] || cells[i] == cells[1] || cells[i] == cells[2]);
                }
            }
            lemma_free_cells_contains(w, h, cells, spare);
        }
        game.spawn_food();
        proof {
            lemma_free_cells_contains(
                grid_width as int,
                grid_height as int,
                game.cells(),
                game.food_cell(),
            );
        }
        game
    }

    /// Queues a turn for the next step, unless it would reverse the snake.
    pub fn set_direction(&mut self, dir: Direction)
        ensures
            final(self).queued() == (if dir != opposite_of(old(self).heading()) {
                dir
            } else {
                old(self).queued()
            }),
            final(self).heading() == old(self).heading(),
            final(self).cells() == old(self).cells(),
            final(self).food_cell() == old(self).food_cell(),
            final(self).width() == old(self).width(),
            final(self).height() == old(self).height(),
            final(self).points() == old(self).points(),
            final(self).over() == old(self).over(),
            old(self).wf() ==> final(self).wf(),
    {
        if dir != self.direction.opposite() {
            self.next_direction = dir;
        }
    }

    fn next_head_exec(&self) -> (p: Position)
        requires
            self.wf(),
        ensures
            p == self.next_head(),
    {
        let head = self.snake[0];
        match self.next_direction {
            Direction::Up => Position::new(head.x, head.y - 1),
            Direction::Down => Position::new(head.x, head.y + 1),
            Direction::Left => Position::new(head.x - 1, head.y),
            Direction::Right => Position::new(head.x + 1, head.y),
        }
    }

    /// Whether `step` may be called: the game is over, or the next step is
    /// allowed.
    pub fn can_step(&self) -> (b: bool)
        requires
            self.wf(),
        ensures
            b == (self.over() || self.tick_allowed()),
    {
        if self.game_over {
            return true;
        }
        let nh = self.next_head_exec();
        if nh.x < 0 || nh.x >= self.grid_width || nh.y < 0 || nh.y >= self.grid_height {
            return true;
        }
        if self.snake_contains(nh) {
            return true;
        }
        if nh.x == self.food.x && nh.y == self.food.y {
            self.score <= u32::MAX - 10 && self.scan_free(Some(nh), 0).0 > 0
        } else {
            true
        }
    }

    fn tick(&mut self)
        requires
            old(self).wf(),
            old(self).tick_allowed(),
        ensures
            final(self).wf(),
            Self::tick_outcome(*old(self), *final(self)),
    {
        let new_head = self.next_head_exec();
        self.direction = self.next_direction;
        if new_head.x < 0 || new_head.x >= self.grid_width || new_head.y < 0 || new_head.y
            >= self.grid_height {
            self.game_over = true;
            return;
        }
        if self.snake_contains(new_head) {
            self.game_over = true;
            return;
        }
        let ghost old_cells = self.cells();
        self.snake.push_front(new_head);
        let ghost grown = self.cells();
        assert(grown == seq![new_head] + old_cells);
        assert(distinct_cells(grown)) by {
            assert forall|i: int, j: int|
                0 <= i < grown.len() && 0 <= j < grown.len() && i != j implies grown[i]
                != grown[j] by {
                if i > 0 && j > 0 {
                    assert(grown[i] == old_cells[i - 1] && grown[j] == old_cells[j - 1]);
                } else if i == 0 {
                    assert(grown[j] == old_cells[j - 1]);
                } else {
                    assert(grown[i] == old_cells[i - 1]);
                }
            }
        }
        if new_head.x == self.food.x && new_head.y == self.food.y {
            self.score = self.score + 10;
            self.spawn_food();
            proof {
                lemma_free_cells_contains(
                    self.grid_width as int,
                    self.grid_height as int,
                    self.cells(),
                    self.food_cell(),
                );
            }
        } else {
            self.snake.pop_back();
            let ghost kept = self.cells();
            assert(kept == grown.drop_last());
            assert(!kept.contains(self.food)) by {
                if kept.contains(self.food) {
                    let i = choose|i: int| 0 <= i < kept.len() && kept[i] == self.food;
                    if i > 0 {
                        assert(old_cells[i - 1] == self.food);
                    }
                }
            }
            assert(distinct_cells(kept)) by {
                assert forall|i: int, j: int|
                    0 <= i < kept.len() && 0 <= j < kept.len() && i != j implies kept[i]
                    != kept[j] by {
                    assert(kept[i] == grown[i] && kept[j] == grown[j]);
                }
            }
        }
    }

    /// One due step of the game: nothing once the game is over, else the
    /// snake moves one cell in the queued direction, eating food in its way
    /// and ending the game where it leaves the grid or runs into itself.
    pub fn step(&mut self)
        requires
            old(self).wf(),
            old(self).over() || old(self).tick_allowed(),
        ensures
            final(self).wf(),
            old(self).over() ==> *final(self) == *old(self),
            !old(self).over() ==> Self::tick_outcome(*old(self), *final(self)),
    {
        if self.game_over {
            return;
        }
        self.tick();
    }

    /// Starts the game over on the same grid.
    pub fn reset(&mut self)
        requires
            old(self).wf(),
        ensures
            final(self).wf(),
            final(self).fresh(old(self).width(), old(self).height()),
    {
        *self = Self::new(self.grid_width, self.grid_height);
    }

    /// What the cell at column `x` and row `y` shows: food before the head,
    /// the head before the tail, the tail before the rest of the body.
    pub open spec fn cell_kind(&self, x: i32, y: i32) -> CellType {
        let s = self.cells();
        let p = Position { x, y };
        if s.len() == 0 {
            CellType::Empty
        } else if p == self.food_cell() {
            CellType::Food
        } else if p == s[0] {
            CellType::Head
        } else if p == s.last() {
            CellType::Tail
        } else if s.contains(p) {
            CellType::Body
        } else {
            CellType::Empty
        }
    }

    pub fn get_cell(&self, x: i32, y: i32) -> (c: CellType)
        ensures
            c == self.cell_kind(x, y),
    {
        let n = self.snake.len();
        if n == 0 {
            return CellType::Empty;
        }
        let head = self.snake[0];
        let tail = self.snake[n - 1];
        if x == self.food.x && y == self.food.y {
            return CellType::Food;
        }
        if x == head.x && y == head.y {
            return CellType::Head;
        }
        if x == tail.x && y == tail.y {
            return CellType::Tail;
        }
        if self.snake_contains(Position::new(x, y)) {
            return CellType::Body;
        }
        CellType::Empty
    }

    /// The number the renderer draws for the cell at column `x` and row `y`:
    /// 1 head, 2 body, 3 tail, 4 food, and for an empty cell 5 on the border
    /// of the grid and 0 inside it.
    pub open spec fn cell_code(&self, x: i32, y: i32) -> u32 {
        match self.cell_kind(x, y) {
            CellType::Empty => if x == 0 || y == 0 || x == self.width() - 1 || y == self.height()
                - 1 {
                5
            } else {
                0
            },
            CellType::Head => 1,
            CellType::Body => 2,
            CellType::Tail => 3,
            CellType::Food => 4,
        }
    }

    /// The codes of all cells, row by row from the top: the cell at column
    /// `x` and row `y` stands at index `y * width + x`.
    pub open spec fn rendered_codes(&self) -> Seq<u32> {
        let w = self.width() as int;
        Seq::new(
            (w * self.height()) as nat,
            |i: int| self.cell_code((i % w) as i32, (i / w) as i32),
        )
    }

    /// The codes of all cells as the renderer uploads them.
    pub fn cell_codes(&self) -> (codes: Vec<u32>)
        requires
            self.wf(),
        ensures
            codes@ == self.rendered_codes(),
            codes@.len() == self.width() * self.height(),
            forall|x: i32, y: i32|
                0 <= x < self.width() && 0 <= y < self.height() ==> codes@[y * self.width() + x]
                    == match #[trigger] self.cell_kind(x, y) {
                    CellType::Empty => if x == 0 || y == 0 || x == self.width() - 1 || y
                        == self.height() - 1 {
                        5u32
                    } else {
                        0u32
                    },
                    CellType::Head => 1u32,
                    CellType::Body => 2u32,
                    CellType::Tail => 3u32,
                    CellType::Food => 4u32,
                },
    {
        let ghost w = self.grid_width as int;
        let ghost h = self.grid_height as int;
        let ghost f = |i: int| self.cell_code((i % w) as i32, (i / w) as i32);
        let mut codes: Vec<u32> = Vec::new();
        let mut y: i32 = 0;
        while y < self.grid_height
            invariant
                self.wf(),
                w == self.width(),
                h == self.height(),
                f == (|i: int| self.cell_code((i % w) as i32, (i / w) as i32)),
                0 <= y <= h,
                codes@.len() == y * w,
                codes@ == Seq::new(codes@.len(), f),
            decreases h - y,
        {
            let mut x: i32 = 0;
            while x < self.grid_width
                invariant
                    self.wf(),
                    w == self.width(),
                    h == self.height(),
                    f == (|i: int| self.cell_code((i % w) as i32, (i / w) as i32)),
                    0 <= y < h,
                    0 <= x <= w,
                    codes@.len() == y * w + x,
                    codes@ == Seq::new(codes@.len(), f),
                decreases w - x,
            {
                let code = match self.get_cell(x, y) {
                    CellType::Empty => {
                        if x == 0 || y == 0 || x == self.grid_width - 1 || y == self.grid_height
                            - 1 {
                            5
                        } else {
                            0
                        }
                    },
                    CellType::Head => 1,
                    CellType::Body => 2,
                    CellType::Tail => 3,
                    CellType::Food => 4,
                };
                proof {
                    lemma_fundamental_div_mod_converse(y * w + x, w, y as int, x as int);
                }
                let ghost before = codes@;
                codes.push(code);
                assert(codes@ =~= Seq::new(codes@.len(), f)) by {
                    assert forall|i: int| 0 <= i < codes@.len() implies codes@[i] == f(i) by {
                        if i < before.len() {
                            assert(codes@[i] == before[i]);
                        }
                    }
                }
                x = x + 1;
            }
            assert(y * w + w == (y + 1) * w) by (nonlinear_arith);
            y = y + 1;
        }
        assert(h * w == w * h) by (nonlinear_arith);
        assert forall|x: i32, y: i32|
            0 <= x < self.width() && 0 <= y < self.height() implies codes@[y * self.width() + x]
                == match #[trigger] self.cell_kind(x, y) {
                CellType::Empty => if x == 0 || y == 0 || x == self.width() - 1 || y == self.height()
                    - 1 {
                    5u32
                } else {
                    0u32
                },
                CellType::Head => 1u32,
                CellType::Body => 2u32,
                CellType::Tail => 3u32,
                CellType::Food => 4u32,
            } by {
            lemma_code_at_cell(*self, x, y);
        }
        codes
    }

    /// Reacts to a key on the snake screen. Only presses count: the four
    /// directions queue a turn, Space starts over once the game is over, and
    /// Escape asks to leave the screen, which the result tells.
    pub fn handle_key(&mut self, key: SnakeKey, pressed: bool) -> (leave: bool)
        requires
            old(self).wf(),
        ensures
            final(self).wf(),
            leave == (pressed && key == SnakeKey::Escape),
            !pressed || key == SnakeKey::Escape || key == SnakeKey::Other || (key == SnakeKey::Space
                && !old(self).over()) ==> *final(self) == *old(self),
            pressed && key == SnakeKey::Space && old(self).over() ==> final(self).fresh(
                old(self).width(),
                old(self).height(),
            ),
            pressed && (key == SnakeKey::Up || key == SnakeKey::Down || key == SnakeKey::Left
                || key == SnakeKey::Right) ==> {
                let dir = match key {
                    SnakeKey::Up => Direction::Up,
                    SnakeKey::Down => Direction::Down,
                    SnakeKey::Left => Direction::Left,
                    _ => Direction::Right,
                };
                &&& final(self).queued() == (if dir != opposite_of(old(self).heading()) {
                    dir
                } else {
                    old(self).queued()
                })
                &&& final(self).heading() == old(self).heading()
                &&& final(self).cells() == old(self).cells()
                &&& final(self).food_cell() == old(self).food_cell()
                &&& final(self).points() == old(self).points()
                &&& final(self).over() == old(self).over()
            },
    {
        if !pressed {
            return false;
        }
        match key {
            SnakeKey::Up => self.set_direction(Direction::Up),
            SnakeKey::Down => self.set_direction(Direction::Down),
            SnakeKey::Left => self.set_direction(Direction::Left),
            SnakeKey::Right => self.set_direction(Direction::Right),
            SnakeKey::Space => {
                if self.game_over {
                    self.reset();
                }
            },
            SnakeKey::Escape => {
                return true;
            },
            SnakeKey::Other => {},
        }
        false
    }

    /// Puts the food on a free cell drawn at random. Every free cell is
    /// equally likely, as when cells are drawn over the whole grid until one
    /// is free.
    fn spawn_food(&mut self)
        requires
            old(self).grid_width > 0,
            old(self).grid_height > 0,
            old(self).free().len() > 0,
        ensures
            final(self).free().contains(final(self).food_cell()),
            final(self).grid_width == old(self).grid_width,
            final(self).grid_height == old(self).grid_height,
            final(self).snake == old(self).snake,
            final(self).direction == old(self).direction,
            final(self).next_direction == old(self).next_direction,
            final(self).score == old(self).score,
            final(self).game_over == old(self).game_over,
    {
        let n = self.free_cell_count();
        let k = random_below(n);
        self.food = self.nth_free_cell(k);
        assert(self.free()[k as int] == self.food);
    }
}


/// Turning around twice faces the first way again, and no direction is its
/// own opposite.
pub proof fn lemma_opposite_involution(d: Direction)
    ensures
        opposite_of(opposite_of(d)) == d,
        opposite_of(d) != d,
{
}

/// While the game runs, the next step never leads back onto the cell behind
/// the head: turning around is refused when queued and the body trails
/// straight behind the head.
pub proof fn lemma_no_reversal(g: SnakeGame)
    requires
        g.wf(),
        !g.over(),
        g.cells().len() >= 2,
    ensures
        g.next_head() != g.cells()[1],
{
    let h = g.cells()[0];
    let q = g.queued();
    let b = opposite_of(g.heading());
    assert(q != b);
    assert(step_from(h, q) != step_from(h, b));
}

/// A step grows the snake by one cell exactly when it eats, and each meal is
/// worth ten points; a collision changes neither.
pub proof fn lemma_growth_matches_score(pre: SnakeGame, post: SnakeGame)
    requires
        pre.wf(),
        SnakeGame::tick_outcome(pre, post),
    ensures
        post.cells().len() == pre.cells().len() + (if pre.eats() { 1int } else { 0 }),
        post.points() == pre.points() + (if pre.eats() { 10int } else { 0 }),
        post.over() == (pre.over() || pre.collides()),
{
}

/// The code of the cell at column `x` and row `y` stands at index
/// `y * width + x` of the codes the renderer uploads.
pub proof fn lemma_code_at_cell(g: SnakeGame, x: i32, y: i32)
    requires
        g.wf(),
        0 <= x < g.width(),
        0 <= y < g.height(),
    ensures
        0 <= y * g.width() + x < g.rendered_codes().len(),
        g.rendered_codes()[y * g.width() + x] == g.cell_code(x, y),
{
    let w = g.width() as int;
    let h = g.height() as int;
    lemma_fundamental_div_mod_converse(y * w + x, w, y as int, x as int);
    assert(y * w + x < w * h) by (nonlinear_arith)
        requires
            0 <= x < w,
            0 <= y < h,
    ;
    assert(0 <= y * w) by (nonlinear_arith)
        requires
            0 <= y,
            0 <= w,
    ;
}

/// An empty cell is drawn with the border code 5 exactly when it lies in the
/// first or last column or the first or last row, and with 0 inside.
pub proof fn lemma_empty_cells_mark_the_border(g: SnakeGame, x: i32, y: i32)
    requires
        g.wf(),
        0 <= x < g.width(),
        0 <= y < g.height(),
        g.cell_kind(x, y) == CellType::Empty,
    ensures
        (x == g.width() - 1 || y == g.height() - 1 || x == 0 || y == 0) ==> g.rendered_codes()[y
            * g.width() + x] == 5,
        (0 < x < g.width() - 1 && 0 < y < g.height() - 1) ==> g.rendered_codes()[y * g.width()
            + x] == 0,
{
    lemma_code_at_cell(g, x, y);
}

/// On a well-formed grid the food cell shows food and the head shows the
/// head.
pub proof fn lemma_food_and_head_shown(g: SnakeGame)
    requires
        g.wf(),
    ensures
        g.cell_kind(g.food_cell().x, g.food_cell().y) == CellType::Food,
        g.cell_kind(g.cells()[0].x, g.cells()[0].y) == CellType::Head,
{
    assert(g.cells().contains(g.cells()[0]));
}

/// One step in plain coordinates: Up takes the head one row up (row less
/// one), Down one row down, Left one column left (column less one), Right
/// one column right. A head that would leave the columns `0..width` or the
/// rows `0..height`, or land on the snake, ends the game and nothing moves.
/// Otherwise the head takes the new cell and the rest of the snake follows
/// it; the snake grows by one cell, and the score by ten, exactly when the
/// new cell holds the food.
pub proof fn lemma_step_in_coordinates(pre: SnakeGame, post: SnakeGame)
    requires
        pre.wf(),
        SnakeGame::tick_outcome(pre, post),
    ensures
        ({
            let head = pre.cells()[0];
            let nx: int = match pre.queued() {
                Direction::Left => head.x - 1,
                Direction::Right => head.x + 1,
                _ => head.x as int,
            };
            let ny: int = match pre.queued() {
                Direction::Up => head.y - 1,
                Direction::Down => head.y + 1,
                _ => head.y as int,
            };
            let target = Position { x: nx as i32, y: ny as i32 };
            let blocked = nx < 0 || nx >= pre.width() || ny < 0 || ny >= pre.height()
                || pre.cells().contains(target);
            &&& blocked ==> {
                &&& post.over()
                &&& post.cells() == pre.cells()
                &&& post.points() == pre.points()
                &&& post.food_cell() == pre.food_cell()
            }
            &&& !blocked ==> {
                &&& post.over() == pre.over()
                &&& post.cells()[0] == target
                &&& post.cells().len() == pre.cells().len() + (if target == pre.food_cell() {
                    1int
                } else {
                    0
                })
                &&& post.points() == pre.points() + (if target == pre.food_cell() {
                    10int
                } else {
                    0
                })
                &&& forall|i: int|
                    1 <= i < post.cells().len() ==> #[trigger] post.cells()[i] == pre.cells()[i
                        - 1]
                &&& target != pre.food_cell() ==> post.food_cell() == pre.food_cell()
            }
        }),
{
    let head = pre.cells()[0];
    assert(pre.next_head() == step_from(head, pre.queued()));
    let nh = pre.next_head();
    if !pre.collides() {
        let grown = seq![nh] + pre.cells();
        assert forall|i: int| 1 <= i < grown.len() implies grown[i] == pre.cells()[i - 1] by {}
    }
}

/// A new game on a `w` by `h` grid: three cells in the middle row, the head
/// at column `w / 2` and row `h / 2` and the body on the two columns to its
/// left, heading right, no points, and the food on a grid cell apart from
/// the snake.
pub proof fn lemma_fresh_layout(g: SnakeGame, w: i32, h: i32)
    requires
        g.wf(),
        g.fresh(w, h),
    ensures
        g.cells().len() == 3,
        g.cells()[0].x == w / 2 && g.cells()[0].y == h / 2,
        g.cells()[1].x == w / 2 - 1 && g.cells()[1].y == h / 2,
        g.cells()[2].x == w / 2 - 2 && g.cells()[2].y == h / 2,
        g.heading() == Direction::Right,
        g.queued() == Direction::Right,
        g.points() == 0,
        !g.over(),
        0 <= g.food_cell().x < w,
        0 <= g.food_cell().y < h,
        !g.cells().contains(g.food_cell()),
{
}

/// What each cell shows on a well-formed grid: the food cell the food, the
/// head cell the head, the last cell of a longer snake the tail, every cell
/// strictly between head and tail the body, and every other cell nothing.
pub proof fn lemma_cell_kinds(g: SnakeGame, x: i32, y: i32)
    requires
        g.wf(),
    ensures
        ({
            let p = Position { x, y };
            let s = g.cells();
            &&& p == g.food_cell() ==> g.cell_kind(x, y) == CellType::Food
            &&& p == s[0] ==> g.cell_kind(x, y) == CellType::Head
            &&& s.len() >= 2 && p == s[s.len() - 1] ==> g.cell_kind(x, y) == CellType::Tail
            &&& (exists|i: int| 0 < i < s.len() - 1 && #[trigger] s[i] == p) ==> g.cell_kind(x, y)
                == CellType::Body
            &&& !s.contains(p) && p != g.food_cell() ==> g.cell_kind(x, y) == CellType::Empty
        }),
{
    let p = Position { x, y };
    let s = g.cells();
    assert(s.contains(s[0]));
    if s.len() >= 2 {
        assert(s.contains(s[s.len() - 1]));
        assert(s[0] != s[s.len() - 1]);
    }
    if exists|i: int| 0 < i < s.len() - 1 && #[trigger] s[i] == p {
        let i = choose|i: int| 0 < i < s.len() - 1 && #[trigger] s[i] == p;
        assert(s.contains(p));
        assert(s[i] != s[0]);
        assert(s[i] != s[s.len() - 1]);
    }
}

} // verus!
