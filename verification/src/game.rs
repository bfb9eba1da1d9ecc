//! The game state machine: the snake, the session, the tick update, and the
//! laws that govern them.

use vstd::prelude::*;
use vstd::set_lib::lemma_len_subset;
use crate::geometry::Directions;
use crate::geometry::Vector2D;
use crate::geometry::in_bounds;
use crate::geometry::neighbor_spec;

verus! {

/// The snake: its body cells, head first, and its committed travel direction.
pub struct Snake {
    pub body: Vec<Vector2D>,
    pub direction: Directions,
}

/// One game session: the snake, the single-slot pending input, the fruit,
/// the grace flag (`last_call`), the two lifecycle flags, and the board side
/// length.
pub struct App {
    pub snake: Snake,
    pub next_direction: Option<Directions>,
    pub fruit_position: Vector2D,
    pub last_call: bool,
    pub started: bool,
    pub lost: bool,
    pub size: usize,
}

/// A well-formed snake body on a board of side length `size`: at least the
/// head, every cell on the board, no cell twice.
pub open spec fn body_wf(body: Seq<Vector2D>, size: usize) -> bool {
    &&& 1 <= body.len()
    &&& body.no_duplicates()
    &&& forall|i: int| 0 <= i < body.len() ==> in_bounds(#[trigger] body[i], size)
}

/// The session invariant: a well-formed body, a board of side length at least
/// two whose cell count fits the machine, and a fruit on the board but never
/// inside the body.
pub open spec fn app_wf(a: App) -> bool {
    &&& 2 <= a.size
    &&& a.size * a.size <= usize::MAX
    &&& body_wf(a.snake.body@, a.size)
    &&& in_bounds(a.fruit_position, a.size)
    &&& !a.snake.body@.contains(a.fruit_position)
}

/// The direction the next tick will travel: the pending one if any input is
/// buffered, otherwise the committed one.
pub open spec fn effective_dir(a: App) -> Directions {
    match a.next_direction {
        Some(d) => d,
        None => a.snake.direction,
    }
}

/// The cell the snake's head would move to on the next tick.
pub open spec fn tick_target(a: App) -> Vector2D {
    neighbor_spec(a.snake.body@[0], effective_dir(a), a.size)
}

/// How one tick relates the session before (`o`) to the session after (`s`)
/// and to the returned termination request.  The fruit drawn after eating is
/// random, so of it only its bounds and its freshness are related.
pub open spec fn step_rel(o: App, s: App, terminate: bool) -> bool {
    if !o.started && o.next_direction is None {
        // no input ever arrived: the tick is a no-op
        &&& s == o
        &&& !terminate
    } else if o.lost {
        // terminal: nothing moves; any buffered input asks the host to quit
        &&& s == App { started: true, ..o }
        &&& terminate == (o.next_direction is Some)
    } else {
        let d = effective_dir(o);
        let target = tick_target(o);
        &&& !terminate
        &&& s.size == o.size
        &&& s.started
        &&& s.next_direction is None
        &&& s.snake.direction == d
        &&& if o.snake.body@.contains(target) {
            // self-collision: spared once, lost on the consumed grace
            &&& s.snake.body@ == o.snake.body@
            &&& s.fruit_position == o.fruit_position
            &&& s.lost == o.last_call
            &&& s.last_call
        } else if target == o.fruit_position {
            // the fruit is eaten: grow by one, fresh fruit outside the body
            &&& !s.lost
            &&& !s.last_call
            &&& s.snake.body@ == seq![target] + o.snake.body@
            &&& in_bounds(s.fruit_position, o.size)
            &&& !s.snake.body@.contains(s.fruit_position)
        } else {
            // plain move: the head advances, the tail retreats
            &&& !s.lost
            &&& !s.last_call
            &&& s.snake.body@ == seq![target] + o.snake.body@.drop_last()
            &&& s.fruit_position == o.fruit_position
        }
    }
}

/// The move the next tick would make leaves room for fresh fruit: whenever it
/// would eat the fruit, the grown body must still leave a board cell free.
pub open spec fn room_to_grow(a: App) -> bool {
    ((a.started || a.next_direction is Some) && !a.lost
        && !a.snake.body@.contains(tick_target(a)) && tick_target(a) == a.fruit_position)
        ==> a.snake.body@.len() + 1 < a.size * a.size
}

/// Relies on rand::random_range: a value drawn uniformly from the range,
/// which panics only when the range is empty.
#[verifier::external_body]
fn random_below(n: usize) -> (r: usize)
    requires
        1 <= n,
    ensures
        r < n,
{
    rand::random_range(0..n)
}

/// Whether `cell` occurs in `body`.
fn contains_cell(body: &Vec<Vector2D>, cell: &Vector2D) -> (b: bool)
    ensures
        b == body@.contains(*cell),
{
    let mut i: usize = 0;
    while i < body.len()
        invariant
            i <= body@.len(),
            forall|k: int| 0 <= k < i ==> body@[k] != *cell,
        decreases body@.len() - i,
    {
        if body[i] == *cell {
            proof {
                assert(body@[i as int] == *cell);
            }
            return true;
        }
        i += 1;
    }
    false
}

impl Snake {
    /// A cell drawn at random from the board cells that the body does not
    /// occupy.  The body must leave at least one of the `size * size` cells
    /// free.
    pub fn random_outside_position(&self, size: usize) -> (r: Vector2D)
        requires
            self.body@.len() < size * size,
            size * size <= usize::MAX,
        ensures
            in_bounds(r, size),
            !self.body@.contains(r),
    {
        let mut outside: Vec<Vector2D> = Vec::new();
        let ghost mut seen: Set<Vector2D> = Set::empty();
        let mut i: usize = 0;
        while i < size
            invariant
                i <= size,
                size * size <= usize::MAX,
                outside@.len() + seen.len() == i * size,
                seen.finite(),
                forall|c: Vector2D| seen.contains(c) ==> self.body@.contains(c),
                forall|c: Vector2D| #[trigger] seen.contains(c) ==> c.x < i,
                forall|k: int| 0 <= k < outside@.len() ==> in_bounds(
                    #[trigger] outside@[k],
                    size,
                ) && !self.body@.contains(outside@[k]),
            decreases size - i,
        {
            let mut j: usize = 0;
            while j < size
                invariant
                    i < size,
                    j <= size,
                    size * size <= usize::MAX,
                    outside@.len() + seen.len() == i * size + j,
                    seen.finite(),
                    forall|c: Vector2D| seen.contains(c) ==> self.body@.contains(c),
                    forall|c: Vector2D| #[trigger] seen.contains(c) ==> c.x < i || (c.x == i
                        && c.y < j),
                    forall|k: int| 0 <= k < outside@.len() ==> in_bounds(
                        #[trigger] outside@[k],
                        size,
                    ) && !self.body@.contains(outside@[k]),
                decreases size - j,
            {
                let position = Vector2D { x: i, y: j };
                if !contains_cell(&self.body, &position) {
                    outside.push(position);
                } else {
                    proof {
                        assert(!seen.contains(position));
                        seen = seen.insert(position);
                    }
                }
                j += 1;
            }
            proof {
                assert((i + 1) * size == i * size + size) by (nonlinear_arith);
            }
            i += 1;
        }
        proof {
            // every skipped cell is a distinct body cell, so at most
            // `body.len()` cells were skipped and at least one cell remains
            vstd::seq_lib::seq_to_set_is_finite(self.body@);
            assert(seen.subset_of(self.body@.to_set()));
            lemma_len_subset(seen, self.body@.to_set());
            self.body@.lemma_cardinality_of_set();
        }
        let idx = random_below(outside.len());
        outside[idx]
    }
}

impl App {
    /// A fresh session on a `size`-by-`size` board: a one-cell snake at the
    /// board's center, direction UP, no input buffered, the grace already
    /// spent, and the fruit placed at random outside the snake.
    pub fn new(size: usize) -> (app: App)
        requires
            2 <= size,
            size * size <= usize::MAX,
        ensures
            app_wf(app),
            app.size == size,
            app.snake.body@ == seq![
                Vector2D { x: ((size - 1) / 2) as usize, y: ((size - 1) / 2) as usize },
            ],
            app.snake.direction == Directions::UP,
            app.next_direction is None,
            !app.started,
            !app.lost,
            app.last_call,
    {
        let center = Vector2D { x: (size - 1) / 2, y: (size - 1) / 2 };
        let mut body: Vec<Vector2D> = Vec::new();
        body.push(center);
        let snake = Snake { body, direction: Directions::UP };
        proof {
            assert(snake.body@ =~= seq![center]);
            assert(2 * 2 <= size * size) by (nonlinear_arith)
                requires
                    2 <= size,
            ;
        }
        let fruit_position = snake.random_outside_position(size);
        App {
            snake,
            next_direction: None,
            fruit_position,
            last_call: true,
            started: false,
            lost: false,
            size,
        }
    }

    /// Record `direction` as the pending input; only the most recent call
    /// before the next tick matters (last write wins).
    pub fn set_pending_direction(&mut self, direction: Directions)
        ensures
            *final(self) == (App { next_direction: Some(direction), ..*old(self) }),
    {
        self.next_direction = Some(direction);
    }

    /// Advance the session by one tick.  Returns true exactly when the host
    /// should shut down: the game was already over and further input arrived.
    ///
    /// Sequencing: the tick that receives the first input both starts the
    /// game and moves the snake in the same call; movement is never deferred
    /// to the following tick.
    pub fn update(&mut self) -> (terminate: bool)
        requires
            app_wf(*old(self)),
            room_to_grow(*old(self)),
        ensures
            app_wf(*final(self)),
            step_rel(*old(self), *final(self), terminate),
    {
        if !self.started {
            if self.next_direction.is_none() {
                return false;
            }
            self.started = true;
        }

        if self.lost {
            return self.next_direction.is_some();
        }

        match self.next_direction {
            Some(direction) => {
                self.snake.direction = direction;
                self.next_direction = None;
            },
            None => {},
        }

        let head = self.snake.body[0];
        let eating = head.get_neighbor(&self.snake.direction, self.size);
        proof {
            assert(eating == tick_target(*old(self)));
        }
        if contains_cell(&self.snake.body, &eating) {
            if self.last_call {
                self.lost = true;
            } else {
                self.last_call = true;
            }
        } else {
            self.last_call = false;
            self.snake.body.insert(0, eating);
            proof {
                assert(self.snake.body@ =~= seq![eating] + old(self).snake.body@);
            }
            if eating == self.fruit_position {
                self.fruit_position = self.snake.random_outside_position(self.size);
            } else {
                self.snake.body.pop();
                proof {
                    assert(self.snake.body@ =~= seq![eating]
                        + old(self).snake.body@.drop_last());
                }
            }
        }
        false
    }

    /// The read-only snapshot a frame needs: the body cells head first, the
    /// fruit cell, and whether the game is over.
    pub fn render(&self) -> (m: RenderModel)
        ensures
            m.snake_cells@ == self.snake.body@,
            m.fruit == self.fruit_position,
            m.lost == self.lost,
    {
        let mut cells: Vec<Vector2D> = Vec::new();
        let mut i: usize = 0;
        while i < self.snake.body.len()
            invariant
                i <= self.snake.body@.len(),
                cells@ == self.snake.body@.subrange(0, i as int),
            decreases self.snake.body@.len() - i,
        {
            cells.push(self.snake.body[i]);
            proof {
                assert(cells@ =~= self.snake.body@.subrange(0, i + 1));
            }
            i += 1;
        }
        proof {
            assert(cells@ =~= self.snake.body@);
        }
        RenderModel { snake_cells: cells, fruit: self.fruit_position, lost: self.lost }
    }
}

/// What the presentation layer consumes to draw one frame.
pub struct RenderModel {
    pub snake_cells: Vec<Vector2D>,
    pub fruit: Vector2D,
    pub lost: bool,
}

/// Law: a tick on a session that never received any input changes nothing,
/// so any number of such ticks leaves the session exactly as created.
pub proof fn lemma_untouched_session_is_fixed(o: App, s: App, terminate: bool)
    requires
        !o.started,
        o.next_direction is None,
        step_rel(o, s, terminate),
    ensures
        s == o,
        !terminate,
{
}

/// Law: from a running state whose buffered direction drives the head
/// straight into the snake's second cell, the first tick only spends the
/// grace (the game is not lost and the body stands still), and a second tick
/// with no intervening input still collides and loses the game.
pub proof fn lemma_backward_collision_grace(
    a0: App,
    a1: App,
    a2: App,
    t1: bool,
    t2: bool,
    d: Directions,
)
    requires
        app_wf(a0),
        a0.started,
        !a0.lost,
        !a0.last_call,
        2 <= a0.snake.body@.len(),
        a0.next_direction == Some(d),
        neighbor_spec(a0.snake.body@[0], d, a0.size) == a0.snake.body@[1],
        step_rel(a0, a1, t1),
        step_rel(a1, a2, t2),
    ensures
        !a1.lost,
        a1.last_call,
        a1.snake.body@ == a0.snake.body@,
        a1.fruit_position == a0.fruit_position,
        a2.lost,
        a2.snake.body@ == a0.snake.body@,
{
    assert(a0.snake.body@[1] == tick_target(a0));
    assert(a0.snake.body@.contains(tick_target(a0)));
    assert(a1.snake.body@[1] == tick_target(a1));
    assert(a1.snake.body@.contains(tick_target(a1)));
}

/// Law: a tick that eats the fruit grows the body by exactly one cell, the
/// new head is the old fruit cell, and the fresh fruit never lies inside the
/// grown body.
pub proof fn lemma_eating_grows_body(o: App, s: App, terminate: bool)
    requires
        app_wf(o),
        o.started,
        !o.lost,
        !o.snake.body@.contains(tick_target(o)),
        tick_target(o) == o.fruit_position,
        step_rel(o, s, terminate),
    ensures
        s.snake.body@.len() == o.snake.body@.len() + 1,
        s.snake.body@[0] == o.fruit_position,
        !s.snake.body@.contains(s.fruit_position),
        in_bounds(s.fruit_position, o.size),
        !s.lost,
{
}

/// Law: a tick that neither collides nor eats conserves the body's length:
/// the head gains the target cell, the tail cell is dropped, and every other
/// cell shifts back by one position.
pub proof fn lemma_plain_move_shifts_body(o: App, s: App, terminate: bool)
    requires
        app_wf(o),
        o.started,
        !o.lost,
        !o.snake.body@.contains(tick_target(o)),
        tick_target(o) != o.fruit_position,
        step_rel(o, s, terminate),
    ensures
        s.snake.body@.len() == o.snake.body@.len(),
        s.snake.body@[0] == tick_target(o),
        forall|i: int| 1 <= i < s.snake.body@.len() ==> s.snake.body@[i] == o.snake.body@[i - 1],
        s.fruit_position == o.fruit_position,
        !s.lost,
{
}

} // verus!
