//! The snake simulation state machine.
//!
//! A [`Game`] owns the segment list (head first), the committed heading,
//! the live food cells, the score and the two frame timers. The caller
//! advances it one frame at a time with [`Game::frame`], handing in the
//! keys held this frame and the frame's elapsed time, and receives the
//! events the frame raised.

use vstd::prelude::*;

use crate::grid::{
    in_bounds, spec_step, step, Direction, Position, ARENA_HEIGHT, ARENA_WIDTH,
};
use crate::timer::{TickTimer, FOOD_PERIOD_MS, MOVE_PERIOD_MS};

verus! {

/// Which of the four directional keys are held this frame.
#[derive(Clone, Copy, PartialEq, Eq, Structural, Debug)]
pub struct FrameInput {
    pub left: bool,
    pub down: bool,
    pub up: bool,
    pub right: bool,
}

impl FrameInput {
    /// No key held.
    pub fn none() -> (i: FrameInput)
        ensures
            i == (FrameInput { left: false, down: false, up: false, right: false }),
    {
        FrameInput { left: false, down: false, up: false, right: false }
    }
}

/// The events one frame raised: a growth event (the head reached food)
/// and a game-over event (the head left the arena or hit the body).
#[derive(Clone, Copy, PartialEq, Eq, Structural, Debug)]
pub struct FrameEvents {
    pub growth: bool,
    pub game_over: bool,
}

/// The heading the key snapshot selects: left wins over down, down over
/// up, up over right; with no key held the current heading stands.
pub open spec fn spec_resolve_input(i: FrameInput, cur: Direction) -> Direction {
    if i.left {
        Direction::Left
    } else if i.down {
        Direction::Down
    } else if i.up {
        Direction::Up
    } else if i.right {
        Direction::Right
    } else {
        cur
    }
}

/// Adopt a requested heading unless it is the exact reversal of the
/// current one; a 180-degree turn is rejected and the heading stands.
pub open spec fn spec_latch(cur: Direction, req: Direction) -> Direction {
    if req == cur.spec_opposite() {
        cur
    } else {
        req
    }
}

/// Head cell of a freshly spawned snake.
pub open spec fn spawn_head() -> Position {
    Position { x: 3, y: 3 }
}

/// Tail cell of a freshly spawned snake.
pub open spec fn spawn_tail() -> Position {
    Position { x: 3, y: 2 }
}

/// Segments of a freshly spawned snake, head first.
pub open spec fn spawn_segments() -> Seq<Position> {
    seq![spawn_head(), spawn_tail()]
}

/// The whole simulation state.
pub struct Game {
    /// The cells the snake occupies, head first.
    pub segments: Vec<Position>,
    /// The committed heading of the head.
    pub direction: Direction,
    /// The cell the tail vacated on the most recent committed move; where
    /// a growth event appends the new tail segment.
    pub last_tail: Option<Position>,
    /// One point per growth event since the last spawn.
    pub score: u32,
    /// The live food cells, oldest first.
    pub foods: Vec<Position>,
    /// Gates committed moves and eating.
    pub move_timer: TickTimer,
    /// Gates food spawns, independently of the movement timer.
    pub food_timer: TickTimer,
}

impl Game {
    /// The invariants that hold between frames: at least two segments, all
    /// on the arena and pairwise distinct; the score counts the segments
    /// gained since the spawn; food lies on the arena; the remembered tail
    /// cell lies on the arena; both timers run with their fixed periods.
    pub open spec fn wf(self) -> bool {
        &&& self.segments@.len() >= 2
        &&& (forall|i: int|
            0 <= i < self.segments@.len() ==> in_bounds(#[trigger] self.segments@[i]))
        &&& self.segments@.no_duplicates()
        &&& self.score == self.segments@.len() - 2
        &&& (forall|i: int| 0 <= i < self.foods@.len() ==> in_bounds(#[trigger] self.foods@[i]))
        &&& (self.last_tail is Some ==> in_bounds(self.last_tail->Some_0))
        &&& self.move_timer.wf()
        &&& self.move_timer.period_ms == MOVE_PERIOD_MS
        &&& self.food_timer.wf()
        &&& self.food_timer.period_ms == FOOD_PERIOD_MS
    }

    /// A freshly spawned run: the two starting segments, heading up, no
    /// food, score zero.
    pub open spec fn spawned(self) -> bool {
        &&& self.segments@ == spawn_segments()
        &&& self.direction == Direction::Up
        &&& self.score == 0
        &&& self.foods@ == Seq::<Position>::empty()
    }

    /// A new game, ready for its first frame.
    pub fn new() -> (g: Game)
        ensures
            g.spawned(),
            g.wf(),
            g.last_tail is None,
            g.move_timer == (TickTimer {
                elapsed_ms: 0,
                period_ms: MOVE_PERIOD_MS,
                fired: false,
            }),
            g.food_timer == (TickTimer {
                elapsed_ms: 0,
                period_ms: FOOD_PERIOD_MS,
                fired: false,
            }),
    {
        let mut g = Game {
            segments: Vec::new(),
            direction: Direction::Up,
            last_tail: None,
            score: 0,
            foods: Vec::new(),
            move_timer: TickTimer::new(MOVE_PERIOD_MS),
            food_timer: TickTimer::new(FOOD_PERIOD_MS),
        };
        g.spawn_snake();
        g
    }

    /// Reinitialize the run: the starting two-segment snake heading up,
    /// score zero, and no food. Timers and the remembered tail cell keep
    /// their values.
    pub fn spawn_snake(&mut self)
        ensures
            final(self).spawned(),
            final(self).segments@.len() == 2,
            final(self).last_tail == old(self).last_tail,
            final(self).move_timer == old(self).move_timer,
            final(self).food_timer == old(self).food_timer,
    {
        let mut segs: Vec<Position> = Vec::new();
        segs.push(Position { x: 3, y: 3 });
        segs.push(Position { x: 3, y: 2 });
        self.segments = segs;
        self.direction = Direction::Up;
        self.score = 0;
        self.foods = Vec::new();
        proof {
            assert(self.segments@ =~= spawn_segments());
            assert(self.foods@ =~= Seq::<Position>::empty());
        }
    }
    /// One frame of the movement system. The directional input is latched
    /// every frame (a 180-degree turn is rejected); when the movement timer
    /// has fired, one move commits: the head advances one cell along the
    /// committed heading, every trailing segment takes the cell its
    /// predecessor held before the move, and the cell the tail vacated is
    /// remembered. The result reports a game-over event: the new head left
    /// the arena, or it landed on a cell of the pre-move snapshot.
    pub fn snake_movement(&mut self, input: FrameInput) -> (game_over: bool)
        requires
            old(self).segments@.len() >= 1,
            in_bounds(old(self).segments@[0]),
        ensures
            ({
                let d = spec_latch(old(self).direction, spec_resolve_input(input, old(self).direction));
                let h = spec_step(old(self).segments@[0], d);
                &&& final(self).direction == d
                &&& (!old(self).move_timer.fired ==> {
                    &&& *final(self) == (Game { direction: d, ..*old(self) })
                    &&& !game_over
                })
                &&& (old(self).move_timer.fired ==> {
                    &&& game_over == (!in_bounds(h) || old(self).segments@.contains(h))
                    &&& final(self).segments@ == seq![h] + old(self).segments@.drop_last()
                    &&& final(self).last_tail == Some(old(self).segments@.last())
                    &&& final(self).score == old(self).score
                    &&& final(self).foods == old(self).foods
                    &&& final(self).move_timer == old(self).move_timer
                    &&& final(self).food_timer == old(self).food_timer
                })
            }),
    {
        let cur = self.direction;
        let req = if input.left {
            Direction::Left
        } else if input.down {
            Direction::Down
        } else if input.up {
            Direction::Up
        } else if input.right {
            Direction::Right
        } else {
            cur
        };
        if req != cur.opposite() {
            self.direction = req;
        }
        if !self.move_timer.fired {
            return false;
        }

        let ghost pre = self.segments@;
        let snapshot = copy_positions(&self.segments);
        let new_head = step(self.segments[0], self.direction);
        let out_of_bounds = new_head.x < 0 || new_head.y < 0 || new_head.x >= ARENA_WIDTH
            || new_head.y >= ARENA_HEIGHT;
        let collision = contains_pos(&snapshot, new_head);

        self.segments.set(0, new_head);
        let ghost mid = *self;
        let mut i: usize = 1;
        while i < self.segments.len()
            invariant
                1 <= i <= self.segments@.len(),
                self.segments@.len() == pre.len(),
                snapshot@ == pre,
                self.segments@[0] == new_head,
                forall|j: int| 1 <= j < i ==> self.segments@[j] == pre[j - 1],
                forall|j: int| i <= j < pre.len() ==> self.segments@[j] == pre[j],
                self.direction == mid.direction,
                self.last_tail == mid.last_tail,
                self.score == mid.score,
                self.foods == mid.foods,
                self.move_timer == mid.move_timer,
                self.food_timer == mid.food_timer,
            decreases self.segments@.len() - i,
        {
            let moved = snapshot[i - 1];
            self.segments.set(i, moved);
            i += 1;
        }
        self.last_tail = Some(snapshot[snapshot.len() - 1]);
        proof {
            assert(self.segments@ =~= seq![new_head] + pre.drop_last());
        }
        out_of_bounds || collision
    }

    /// One frame of the timer system: advance the movement timer by the
    /// frame's elapsed time.
    pub fn snake_timer(&mut self, delta_ms: u64)
        requires
            old(self).move_timer.period_ms > 0,
            old(self).move_timer.elapsed_ms + delta_ms <= u64::MAX,
        ensures
            *final(self) == (Game {
                move_timer: old(self).move_timer.spec_tick(delta_ms),
                ..*old(self)
            }),
    {
        self.move_timer.tick(delta_ms);
    }

    /// One frame of the eating system: when the movement timer has fired
    /// and the head sits on food, every food item on the head's cell is
    /// consumed, and their consumption is reported as one growth event.
    pub fn snake_eating(&mut self) -> (growth: bool)
        requires
            old(self).segments@.len() >= 1,
        ensures
            !old(self).move_timer.fired ==> {
                &&& *final(self) == *old(self)
                &&& !growth
            },
            old(self).move_timer.fired ==> {
                let h = old(self).segments@[0];
                &&& growth == old(self).foods@.contains(h)
                &&& final(self).foods@ == old(self).foods@.filter(|f: Position| f != h)
                &&& *final(self) == (Game { foods: final(self).foods, ..*old(self) })
            },
            forall|i: int|
                0 <= i < final(self).foods@.len() ==> old(self).foods@.contains(
                    #[trigger] final(self).foods@[i],
                ),
    {
        if !self.move_timer.fired {
            return false;
        }
        let head = self.segments[0];
        let ghost pre = self.foods@;
        let mut kept: Vec<Position> = Vec::new();
        let mut ate = false;
        let mut i: usize = 0;
        while i < self.foods.len()
            invariant
                0 <= i <= pre.len(),
                self.foods@ == pre,
                kept@ == pre.take(i as int).filter(|f: Position| f != head),
                ate == pre.take(i as int).contains(head),
                forall|j: int| 0 <= j < kept@.len() ==> pre.contains(#[trigger] kept@[j]),
            decreases pre.len() - i,
        {
            let f = self.foods[i];
            proof {
                assert(pre.take(i + 1 as int).drop_last() =~= pre.take(i as int));
                assert(pre.take(i + 1 as int).last() == pre[i as int]);
                reveal(Seq::filter);
            }
            if f == head {
                ate = true;
                proof {
                    assert(pre.take(i + 1 as int)[i as int] == pre[i as int]);
                }
            } else {
                kept.push(f);
                proof {
                    assert(ate == pre.take(i + 1 as int).contains(head)) by {
                        if pre.take(i as int).contains(head) {
                            let w = choose|w: int|
                                0 <= w < i && pre.take(i as int)[w] == head;
                            assert(pre.take(i + 1 as int)[w] == head);
                        } else if pre.take(i + 1 as int).contains(head) {
                            let w = choose|w: int|
                                0 <= w < i + 1 && #[trigger] pre.take(i + 1 as int)[w] == head;
                            assert(w == i);
                        }
                    }
                }
            }
            i += 1;
        }
        proof {
            assert(pre.take(pre.len() as int) =~= pre);
        }
        self.foods = kept;
        ate
    }

    /// One frame of the growth system: a growth event that no game-over
    /// event cancels appends one segment at the cell the tail vacated on
    /// this frame's move. A cancelled or absent growth event changes
    /// nothing.
    pub fn snake_growth(&mut self, growth: bool, game_over: bool)
        requires
            growth && !game_over ==> old(self).last_tail is Some,
        ensures
            !(growth && !game_over) ==> *final(self) == *old(self),
            growth && !game_over ==> {
                &&& final(self).segments@ == old(self).segments@.push(
                    old(self).last_tail->Some_0,
                )
                &&& *final(self) == (Game { segments: final(self).segments, ..*old(self) })
            },
    {
        if growth && !game_over {
            let p = match self.last_tail {
                Some(p) => p,
                // The precondition rules this arm out: growth only follows a
                // committed move, which always records the vacated cell.
                None => Position { x: 0, y: 0 },
            };
            self.segments.push(p);
        }
    }

    /// One frame of the score system: each growth event adds one point.
    pub fn score_board(&mut self, growth: bool)
        requires
            growth ==> old(self).score < u32::MAX,
        ensures
            !growth ==> *final(self) == *old(self),
            growth ==> *final(self) == (Game {
                score: (old(self).score + 1) as u32,
                ..*old(self)
            }),
    {
        if growth {
            self.score = self.score + 1;
        }
    }

    /// One frame of the food-spawning system: advance the food timer by the
    /// frame's elapsed time; when it fires, spawn one food item on a cell no
    /// snake segment occupies. Nothing guards against a still-uneaten
    /// earlier food item, so two food items can briefly be live at once.
    /// When the snake covers the whole arena no cell is free and no food
    /// spawns.
    pub fn food_spawner(&mut self, delta_ms: u64)
        requires
            old(self).food_timer.period_ms > 0,
            old(self).food_timer.elapsed_ms + delta_ms <= u64::MAX,
        ensures
            ({
                let t = old(self).food_timer.spec_tick(delta_ms);
                let free = exists|p: Position|
                    in_bounds(p) && !old(self).segments@.contains(p);
                &&& final(self).food_timer == t
                &&& (!t.fired ==> *final(self) == (Game { food_timer: t, ..*old(self) }))
                &&& (t.fired ==> {
                    &&& *final(self) == (Game {
                        foods: final(self).foods,
                        food_timer: t,
                        ..*old(self)
                    })
                    &&& (free ==> {
                        &&& final(self).foods@.len() == old(self).foods@.len() + 1
                        &&& final(self).foods@.drop_last() == old(self).foods@
                        &&& in_bounds(final(self).foods@.last())
                        &&& !old(self).segments@.contains(final(self).foods@.last())
                    })
                    &&& (!free ==> final(self).foods == old(self).foods)
                })
            }),
    {
        self.food_timer.tick(delta_ms);
        if self.food_timer.fired {
            match place_food(&self.segments) {
                Some(p) => {
                    self.foods.push(p);
                    proof {
                        assert(self.foods@.drop_last() =~= old(self).foods@);
                    }
                },
                None => {},
            }
        }
    }

    /// One frame of the reset system: a game-over event despawns the snake,
    /// the score and all food, and the starting state spawns in their
    /// place. Timers and the remembered tail cell carry over.
    pub fn game_over(&mut self, game_over: bool)
        ensures
            !game_over ==> *final(self) == *old(self),
            game_over ==> {
                &&& final(self).spawned()
                &&& final(self).segments@.len() == 2
                &&& final(self).last_tail == old(self).last_tail
                &&& final(self).move_timer == old(self).move_timer
                &&& final(self).food_timer == old(self).food_timer
            },
    {
        if game_over {
            self.spawn_snake();
        }
    }

    /// The score as the scoreboard displays it: the decimal string of the
    /// counter.
    pub fn score_text(&self) -> (s: String)
        ensures
            s@ == crate::text::spec_decimal(self.score as nat),
    {
        crate::text::decimal_string(self.score)
    }

    /// One frame of the whole simulation, running the systems in their
    /// fixed order: movement timer, movement, eating, growth, scoring, food
    /// spawning, and the game-over reset. `delta_ms` is the measured time
    /// since the previous frame. The result reports the growth and
    /// game-over events the frame raised.
    ///
    /// The contract pins every field of the new state: the latched heading;
    /// the moved segments (the grown snake keeps its whole body, otherwise
    /// the tail cell is vacated); the score; the foods eaten at the head's
    /// new cell and the food spawned on a free cell when the food timer
    /// fired; and the full reset to the spawn state on game over. A
    /// game-over event comes exactly when a committed move leaves the arena
    /// or lands on the pre-move snapshot; the snake never shrinks
    /// otherwise; and one growth event adds exactly one segment and one
    /// point.
    pub fn frame(&mut self, input: FrameInput, delta_ms: u64) -> (ev: FrameEvents)
        requires
            old(self).wf(),
            old(self).move_timer.elapsed_ms + delta_ms <= u64::MAX,
            old(self).food_timer.elapsed_ms + delta_ms <= u64::MAX,
        ensures
            final(self).wf(),
            ({
                let d = spec_latch(old(self).direction, spec_resolve_input(input, old(self).direction));
                let mt = old(self).move_timer.spec_tick(delta_ms);
                let ft = old(self).food_timer.spec_tick(delta_ms);
                let h = spec_step(old(self).segments@[0], d);
                let eaten = if mt.fired {
                    old(self).foods@.filter(|f: Position| f != h)
                } else {
                    old(self).foods@
                };
                &&& final(self).move_timer == mt
                &&& final(self).food_timer == ft
                &&& ev.game_over == (mt.fired && (!in_bounds(h) || old(self).segments@.contains(h)))
                &&& ev.growth == (mt.fired && old(self).foods@.contains(h))
                &&& (!ev.game_over ==> final(self).segments@.len() >= old(self).segments@.len())
                &&& (ev.growth && !ev.game_over ==> {
                    &&& final(self).score == old(self).score + 1
                    &&& final(self).segments@.len() == old(self).segments@.len() + 1
                })
                &&& (ev.game_over ==> final(self).spawned())
                &&& (mt.fired ==> final(self).last_tail == Some(old(self).segments@.last()))
                &&& (!mt.fired ==> final(self).last_tail == old(self).last_tail)
                &&& (!ev.game_over ==> {
                    &&& final(self).direction == d
                    &&& final(self).segments@ == (if !mt.fired {
                        old(self).segments@
                    } else if ev.growth {
                        seq![h] + old(self).segments@
                    } else {
                        seq![h] + old(self).segments@.drop_last()
                    })
                    &&& final(self).score == (if ev.growth {
                        (old(self).score + 1) as u32
                    } else {
                        old(self).score
                    })
                    &&& (!ft.fired ==> final(self).foods@ == eaten)
                    &&& (ft.fired
                        && (exists|p: Position|
                        in_bounds(p) && !final(self).segments@.contains(p)) ==> {
                        &&& final(self).foods@.len() == eaten.len() + 1
                        &&& final(self).foods@.drop_last() == eaten
                        &&& in_bounds(final(self).foods@.last())
                        &&& !final(self).segments@.contains(final(self).foods@.last())
                    })
                    &&& (ft.fired && !(exists|p: Position|
                        in_bounds(p) && !final(self).segments@.contains(p))
                        ==> final(self).foods@ == eaten)
                })
            }),
    {
        let ghost g0 = *old(self);
        proof {
            crate::grid::lemma_distinct_cells_fit_arena(g0.segments@);
        }
        self.snake_timer(delta_ms);
        let game_over = self.snake_movement(input);
        let growth = self.snake_eating();
        let ghost g_eat = *self;
        self.snake_growth(growth, game_over);
        self.score_board(growth);
        self.food_spawner(delta_ms);
        self.game_over(game_over);

        proof {
            let d = spec_latch(g0.direction, spec_resolve_input(input, g0.direction));
            let mt = g0.move_timer.spec_tick(delta_ms);
            let h = spec_step(g0.segments@[0], d);
            if mt.fired {
                if growth && !game_over {
                    assert((seq![h] + g0.segments@.drop_last()).push(g0.segments@.last()) =~= seq![
                        h,
                    ] + g0.segments@);
                }
                if !game_over {
                    let segs = if growth {
                        seq![h] + g0.segments@
                    } else {
                        seq![h] + g0.segments@.drop_last()
                    };
                    assert(self.segments@ == segs);
                    assert(in_bounds(h) && !g0.segments@.contains(h));
                    assert forall|i: int| 0 <= i < segs.len() implies in_bounds(
                        #[trigger] segs[i],
                    ) by {
                        if i > 0 {
                            assert(segs[i] == g0.segments@[i - 1]);
                        }
                    };
                    assert(segs.no_duplicates()) by {
                        assert forall|i: int, j: int|
                            0 <= i < segs.len() && 0 <= j < segs.len() && i != j implies segs[i]
                            != segs[j] by {
                            if i == 0 {
                                assert(segs[j] == g0.segments@[j - 1]);
                                if h == g0.segments@[j - 1] {
                                    assert(g0.segments@.contains(h));
                                }
                            } else if j == 0 {
                                assert(segs[i] == g0.segments@[i - 1]);
                                if h == g0.segments@[i - 1] {
                                    assert(g0.segments@.contains(h));
                                }
                            } else {
                                assert(segs[i] == g0.segments@[i - 1]);
                                assert(segs[j] == g0.segments@[j - 1]);
                            }
                        };
                    }
                }
            }
            assert(self.move_timer.wf() && self.move_timer.period_ms == MOVE_PERIOD_MS);
            assert(self.food_timer.wf() && self.food_timer.period_ms == FOOD_PERIOD_MS);
            assert(self.last_tail is Some ==> in_bounds(self.last_tail->Some_0)) by {
                if mt.fired {
                    assert(g0.segments@.last() == g0.segments@[g0.segments@.len() - 1]);
                }
            }
            if game_over {
                assert(self.segments@ == spawn_segments());
                assert(self.segments@.no_duplicates()) by {
                    assert(self.segments@[0] != self.segments@[1]);
                }
                assert(forall|i: int|
                    0 <= i < self.segments@.len() ==> in_bounds(#[trigger] self.segments@[i]));
                assert(self.score == self.segments@.len() - 2);
                assert(forall|i: int|
                    0 <= i < self.foods@.len() ==> in_bounds(#[trigger] self.foods@[i]));
            } else {
                assert(self.segments@.len() >= 2);
                assert(forall|i: int|
                    0 <= i < self.segments@.len() ==> in_bounds(#[trigger] self.segments@[i]));
                assert(self.segments@.no_duplicates());
                assert(self.score == self.segments@.len() - 2);
                assert(forall|i: int|
                    0 <= i < g_eat.foods@.len() ==> g0.foods@.contains(#[trigger] g_eat.foods@[i]));
                assert forall|i: int| 0 <= i < g_eat.foods@.len() implies in_bounds(
                    #[trigger] g_eat.foods@[i],
                ) by {
                    let k = choose|k: int|
                        0 <= k < g0.foods@.len() && g0.foods@[k] == g_eat.foods@[i];
                    assert(in_bounds(g0.foods@[k]));
                };
                assert forall|i: int| 0 <= i < self.foods@.len() implies in_bounds(
                    #[trigger] self.foods@[i],
                ) by {
                    if i < g_eat.foods@.len() {
                        assert(self.foods@[i] == g_eat.foods@[i]);
                    } else {
                        assert(self.foods@[i] == self.foods@.last());
                    }
                };
            }
            assert(self.wf());
        }
        FrameEvents { growth, game_over }
    }

}

/// A rejected 180-degree turn leaves the heading as it was: latching the
/// exact reversal of the current heading is a no-op.
pub proof fn lemma_reversal_rejected(cur: Direction)
    ensures
        spec_latch(cur, cur.spec_opposite()) == cur,
{
}

/// The two game-over causes exclude each other: a head that left the arena
/// never also counts as a self-collision, since every segment of the
/// pre-move snapshot lies on the arena. A fatal move therefore raises
/// exactly one game-over event.
pub proof fn lemma_game_over_causes_exclusive(s: Seq<Position>, h: Position)
    requires
        forall|i: int| 0 <= i < s.len() ==> in_bounds(#[trigger] s[i]),
        !in_bounds(h),
    ensures
        !s.contains(h),
{
}

/// How many random draws food placement makes before it falls back to a
/// deterministic scan of the arena.
pub const FOOD_REROLL_DRAWS: u32 = 32;

/// Choose the cell for a new food item: randomly drawn cells are re-rolled
/// while they coincide with a snake segment; after [`FOOD_REROLL_DRAWS`]
/// colliding draws the arena is scanned for a free cell instead, so the
/// choice always terminates. `None` comes back exactly when the segments
/// cover the whole arena.
pub fn place_food(segments: &Vec<Position>) -> (r: Option<Position>)
    ensures
        (r is Some) == (exists|p: Position| in_bounds(p) && !segments@.contains(p)),
        r is Some ==> in_bounds(r->Some_0) && !segments@.contains(r->Some_0),
{
    let mut attempts: u32 = 0;
    while attempts < FOOD_REROLL_DRAWS
        invariant
            attempts <= FOOD_REROLL_DRAWS,
        decreases FOOD_REROLL_DRAWS - attempts,
    {
        let candidate = Position::generate();
        if !contains_pos(segments, candidate) {
            return Some(candidate);
        }
        attempts += 1;
    }
    let mut x: i32 = 0;
    while x < ARENA_WIDTH
        invariant
            0 <= x <= ARENA_WIDTH,
            forall|px: i32, py: i32|
                0 <= px < x && 0 <= py < ARENA_HEIGHT ==> #[trigger] segments@.contains(
                    Position { x: px, y: py },
                ),
        decreases ARENA_WIDTH - x,
    {
        let mut y: i32 = 0;
        while y < ARENA_HEIGHT
            invariant
                0 <= x < ARENA_WIDTH,
                0 <= y <= ARENA_HEIGHT,
                forall|px: i32, py: i32|
                    0 <= px < x && 0 <= py < ARENA_HEIGHT ==> #[trigger] segments@.contains(
                        Position { x: px, y: py },
                    ),
                forall|py: i32|
                    0 <= py < y ==> #[trigger] segments@.contains(Position { x: x, y: py }),
            decreases ARENA_HEIGHT - y,
        {
            let candidate = Position { x, y };
            if !contains_pos(segments, candidate) {
                proof {
                    assert(in_bounds(candidate) && !segments@.contains(candidate));
                }
                return Some(candidate);
            }
            y += 1;
        }
        x += 1;
    }
    proof {
        assert forall|p: Position| in_bounds(p) implies segments@.contains(p) by {
            assert(segments@.contains(Position { x: p.x, y: p.y }));
        };
    }
    None
}

/// Whether a position list holds a given cell.
fn contains_pos(v: &Vec<Position>, p: Position) -> (b: bool)
    ensures
        b == v@.contains(p),
{
    let mut i: usize = 0;
    while i < v.len()
        invariant
            0 <= i <= v@.len(),
            forall|j: int| 0 <= j < i ==> v@[j] != p,
        decreases v@.len() - i,
    {
        if v[i] == p {
            return true;
        }
        i += 1;
    }
    false
}

/// An element-wise copy of a position list.
fn copy_positions(v: &Vec<Position>) -> (r: Vec<Position>)
    ensures
        r@ == v@,
{
    let mut r: Vec<Position> = Vec::new();
    let mut i: usize = 0;
    while i < v.len()
        invariant
            0 <= i <= v@.len(),
            r@ == v@.take(i as int),
        decreases v@.len() - i,
    {
        r.push(v[i]);
        proof {
            assert(r@ =~= v@.take(i + 1 as int));
        }
        i += 1;
    }
    proof {
        assert(v@.take(v@.len() as int) =~= v@);
    }
    r
}

} // verus!
