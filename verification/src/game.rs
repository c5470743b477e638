//! The simulation as a whole: its state, the transitions of one tick as
//! mathematical functions of that state, and the tick itself.

use crate::field::{blocks_in_grid, cleared_blocks, full_row_count, Block, Field};
use crate::manager::{is_bag, GameState, TetrisManager};
use crate::shape::{BLOCK_SIZE, SHAPE_COUNT};
use crate::tetris::{
    advance_with, check_advanced_block, clear_block, fall, hold, place, rotate, setup, slide,
    update_ghost, ActiveTetris, GhostTetris, HoldTetris, NextTetris,
};
use crate::timer::Timer;
use vstd::prelude::*;

verus! {

/// The keys as sampled once for a tick.
#[derive(Clone, Copy, Debug, PartialEq, Eq, Structural)]
pub struct Input {
    /// The key that moves to the left is down.
    pub left: bool,
    /// The key that moves to the right is down.
    pub right: bool,
    /// The key that drops the piece softly is down.
    pub soft_drop: bool,
    /// The key that drops the piece at once has just been pressed.
    pub hard_drop: bool,
    /// The key that turns the piece has just been pressed.
    pub rotate: bool,
    /// The key that sets the piece aside has just been pressed.
    pub hold: bool,
}

/// Everything that the simulation owns.
#[derive(Clone, Debug)]
pub struct Game {
    pub state: GameState,
    pub manager: TetrisManager,
    pub field: Field,
    pub active_tetris: ActiveTetris,
    pub ghost_tetris: GhostTetris,
    pub next_tetris: NextTetris,
    pub hold_tetris: HoldTetris,
}

/// The simulation's state as a mathematical value.
pub struct GameView {
    pub state: GameState,
    pub manager: TetrisManager,
    pub blocks: Seq<Block>,
    pub active_tetris: ActiveTetris,
    pub ghost_tetris: GhostTetris,
    pub next_tetris: NextTetris,
    pub hold_tetris: HoldTetris,
}

impl View for Game {
    type V = GameView;

    open spec fn view(&self) -> GameView {
        GameView {
            state: self.state,
            manager: self.manager,
            blocks: self.field@,
            active_tetris: self.active_tetris,
            ghost_tetris: self.ghost_tetris,
            next_tetris: self.next_tetris,
            hold_tetris: self.hold_tetris,
        }
    }
}

/// The direction that the sideways keys ask for: -1 to the left, 1 to the right,
/// 0 with none or both of them down.
pub open spec fn slide_direction(left: bool, right: bool) -> int {
    if left == right {
        0
    } else if right {
        1
    } else {
        -1
    }
}

impl GameView {
    /// The state at the start of a game with the given manager: an empty field,
    /// the first piece of the bag at its spawn position, the piece after it in the
    /// preview, and nothing set aside. The ghost waits at the field's origin for its
    /// first update.
    pub open spec fn initial(manager: TetrisManager) -> GameView {
        GameView {
            state: GameState::Play,
            manager,
            blocks: Seq::empty(),
            active_tetris: ActiveTetris::spawned(manager.current()),
            ghost_tetris: GhostTetris {
                index: manager.current(),
                rotation_index: 0,
                x: 0,
                y: 0,
                visible: true,
            },
            next_tetris: NextTetris { index: manager.peek_next() },
            hold_tetris: HoldTetris { index: 0, visible: false },
        }
    }

    /// The parts are well formed, and every shape on display is a shape.
    pub open spec fn wf(self) -> bool {
        &&& self.manager.wf()
        &&& blocks_in_grid(self.blocks)
        &&& self.active_tetris.wf()
        &&& self.ghost_tetris.index < SHAPE_COUNT
        &&& self.next_tetris.index < SHAPE_COUNT
        &&& self.hold_tetris.index < SHAPE_COUNT
    }

    /// The state after the hold key was handled. The key does nothing unless it
    /// was pressed and has not been used since the last piece locked. On an empty
    /// slot the active shape is set aside and the next piece is called for; on a
    /// full one the two shapes change places and the active piece starts again from
    /// its spawn position.
    pub open spec fn held(self, pressed: bool) -> GameView {
        if self.manager.hold || !pressed {
            self
        } else if self.hold_tetris.visible {
            GameView {
                manager: TetrisManager { hold: true, ..self.manager },
                active_tetris: ActiveTetris::spawned(self.hold_tetris.index),
                ghost_tetris: GhostTetris { index: self.hold_tetris.index, ..self.ghost_tetris },
                hold_tetris: HoldTetris { index: self.active_tetris.index, visible: true },
                ..self
            }
        } else {
            GameView {
                state: GameState::Advance,
                manager: TetrisManager { hold: true, ..self.manager },
                hold_tetris: HoldTetris { index: self.active_tetris.index, visible: true },
                ..self
            }
        }
    }

    /// The state after the turn key was handled.
    pub open spec fn rotated(self, pressed: bool) -> GameView {
        if pressed {
            GameView { active_tetris: self.active_tetris.rotated(self.blocks), ..self }
        } else {
            self
        }
    }

    /// The repeat timer after the sideways timers were advanced: it runs only
    /// once the start timer has finished.
    pub open spec fn slide_timer_ticked(self, delta: u64) -> Timer {
        if self.manager.slide_start_timer.ticked(delta).finished {
            self.manager.slide_timer.ticked(delta)
        } else {
            self.manager.slide_timer
        }
    }

    /// Whether a sideways move is tried in this tick: a direction is held, it is
    /// the direction of the tick before, and the repeat timer, as this tick leaves
    /// it, has completed. None is tried in the tick in which the direction changes.
    /// The repeat timer runs only once the start delay has passed, so that the first
    /// move comes when the repeat timer first completes after that.
    pub open spec fn slide_due(self, delta: u64, direction: int) -> bool {
        &&& direction != 0
        &&& self.manager.slide_dir == direction
        &&& self.slide_timer_ticked(delta).finished
    }

    /// The state after the sideways keys were handled. A change of direction is
    /// recorded and winds both sideways timers back, and the piece stays where it
    /// is. While the direction stays the same the timers run: the start timer first,
    /// and the repeat timer once the start timer has finished. A move that is due is
    /// made if the piece can stand one cell further in that direction.
    pub open spec fn slid(self, delta: u64, left: bool, right: bool) -> GameView {
        let direction = slide_direction(left, right);
        let start = self.manager.slide_start_timer.ticked(delta);
        let repeat = self.slide_timer_ticked(delta);
        let manager = if self.manager.slide_dir != direction {
            TetrisManager {
                slide_dir: direction as i32,
                slide_start_timer: start.rewound(),
                slide_timer: repeat.rewound(),
                ..self.manager
            }
        } else {
            TetrisManager { slide_start_timer: start, slide_timer: repeat, ..self.manager }
        };
        let target = self.active_tetris.moved(direction * BLOCK_SIZE, 0);
        let active_tetris = if self.slide_due(delta, direction) && !target.blocked(self.blocks) {
            target
        } else {
            self.active_tetris
        };
        GameView { manager, active_tetris, ..self }
    }

    /// Whether the timer that counts for the next step of the piece completes in
    /// this tick: the fast one while the soft drop key is down, the fall timer
    /// otherwise.
    pub open spec fn gravity_due(self, delta: u64, fast_fall: bool) -> bool {
        if fast_fall {
            self.manager.fast_fall_timer.ticked(delta).finished
        } else {
            self.manager.fall_timer.ticked(delta).finished
        }
    }

    /// The state after gravity and the drop keys were handled.
    ///
    /// A hard drop brings the piece down as far as it can go and calls for it to be
    /// locked.
    ///
    /// Otherwise the timers move the piece. Both gravity timers keep time on every
    /// tick, whichever key is down; the soft drop key only decides which of them
    /// counts for the next step. The fall timer cannot stand still while the key is
    /// down, because it is also the timer of the grace period, which runs on
    /// whether the player drops softly or not.
    ///
    /// A piece that can go one cell lower loses the grace flag, and goes lower when
    /// the timer that counts completes. A piece that cannot go lower is left alone
    /// as long as no timer completes. When the timer that counts completes and the
    /// flag is clear, the flag is set and the fall timer wound back: the grace period
    /// starts. When the fall timer completes and the flag is set, the grace period
    /// is over and the piece is called to be locked.
    pub open spec fn fallen(self, delta: u64, hard_drop: bool, fast_fall: bool) -> GameView {
        if hard_drop {
            let y = if self.active_tetris.blocked(self.blocks) {
                self.active_tetris.y as int
            } else {
                self.active_tetris.landing_y(self.blocks)
            };
            GameView {
                state: GameState::Place,
                active_tetris: ActiveTetris { y: y as i32, ..self.active_tetris },
                ..self
            }
        } else {
            let fall = self.manager.fall_timer.ticked(delta);
            let fast = self.manager.fast_fall_timer.ticked(delta);
            let ticked = TetrisManager { fall_timer: fall, fast_fall_timer: fast, ..self.manager };
            let due = self.gravity_due(delta, fast_fall);
            let lower = self.active_tetris.moved(0, -BLOCK_SIZE);
            if !lower.blocked(self.blocks) {
                GameView {
                    manager: TetrisManager { hit_floor: false, ..ticked },
                    active_tetris: if due {
                        lower
                    } else {
                        self.active_tetris
                    },
                    ..self
                }
            } else if !self.manager.hit_floor {
                if due {
                    GameView {
                        manager: TetrisManager {
                            hit_floor: true,
                            fall_timer: fall.rewound(),
                            ..ticked
                        },
                        ..self
                    }
                } else {
                    GameView { manager: ticked, ..self }
                }
            } else {
                GameView {
                    state: if fall.finished {
                        GameState::Place
                    } else {
                        self.state
                    },
                    manager: ticked,
                    ..self
                }
            }
        }
    }

    /// The state after the active piece was locked: its four cells have joined the
    /// locked blocks, and the hold key may be used again.
    pub open spec fn placed(self) -> GameView {
        GameView {
            manager: TetrisManager { hold: false, ..self.manager },
            blocks: self.blocks + self.active_tetris.locked_blocks(),
            ..self
        }
    }

    /// The state after the line clear that follows a lock: the full rows are gone,
    /// what was above them has come down, and the next piece is called for.
    pub open spec fn cleared(self) -> GameView {
        GameView { state: GameState::Advance, blocks: cleared_blocks(self.blocks), ..self }
    }

    /// The state after the check of a freshly spawned piece: the game is over if
    /// the piece is blocked where it stands, and goes on otherwise.
    pub open spec fn checked(self) -> GameView {
        GameView {
            state: if self.active_tetris.blocked(self.blocks) {
                GameState::GameOver
            } else {
                GameState::Play
            },
            ..self
        }
    }

    /// The state after the ghost was brought up to date. While a piece is being
    /// brought in, the ghost is hidden. Otherwise it is shown where the active piece
    /// would land; under a piece that is blocked where it stands, it is shown one
    /// cell above it.
    pub open spec fn ghosted(self) -> GameView {
        if self.state == GameState::Advance {
            GameView { ghost_tetris: GhostTetris { visible: false, ..self.ghost_tetris }, ..self }
        } else {
            let y = if self.active_tetris.blocked(self.blocks) {
                self.active_tetris.y + BLOCK_SIZE
            } else {
                self.active_tetris.landing_y(self.blocks)
            };
            GameView {
                ghost_tetris: GhostTetris {
                    index: self.ghost_tetris.index,
                    rotation_index: self.active_tetris.rotation_index,
                    x: self.active_tetris.x,
                    y: y as i32,
                    visible: true,
                },
                ..self
            }
        }
    }

    /// The state after the next piece was brought in, with `fresh` as the bag to be
    /// put behind the next one: the randomizer has moved on; the timers are wound
    /// back and the direction and the grace flag cleared; the active piece has the
    /// new current shape and stands at its spawn position; and the ghost and the
    /// preview show the new shapes.
    pub open spec fn advanced(self, fresh: [usize; 7]) -> GameView {
        let dealt = self.manager.dealt(fresh);
        let manager = TetrisManager {
            fall_timer: dealt.fall_timer.rewound(),
            fast_fall_timer: dealt.fast_fall_timer.rewound(),
            slide_start_timer: dealt.slide_start_timer.rewound(),
            slide_timer: dealt.slide_timer.rewound(),
            slide_dir: 0,
            hit_floor: false,
            ..dealt
        };
        GameView {
            manager,
            active_tetris: ActiveTetris::spawned(manager.current()),
            ghost_tetris: GhostTetris { index: manager.current(), ..self.ghost_tetris },
            next_tetris: NextTetris { index: manager.peek_next() },
            ..self
        }
    }

    /// The state after the moves of the player's turn: the hold key, then the turn
    /// key, the sideways keys and gravity, each handled only while the game is in
    /// play.
    pub open spec fn played(self, input: Input, delta: u64) -> GameView {
        if self.state != GameState::Play {
            self
        } else if self.held(input.hold).state != GameState::Play {
            self.held(input.hold)
        } else {
            self.held(input.hold).rotated(input.rotate).slid(delta, input.left, input.right).fallen(
                delta,
                input.hard_drop,
                input.soft_drop,
            )
        }
    }

    /// The state after a piece that was called to be locked has been locked and
    /// the full rows cleared.
    pub open spec fn locked(self) -> GameView {
        if self.state == GameState::Place {
            self.placed().cleared()
        } else {
            self
        }
    }

    /// Number of rows that locking clears.
    pub open spec fn rows_cleared(self) -> nat {
        if self.state == GameState::Place {
            full_row_count(self.placed().blocks)
        } else {
            0
        }
    }

    /// The state after one tick with the given keys and elapsed time, with `fresh`
    /// as the bag to be put behind the next one if a piece is brought in. The
    /// player's moves come first, then locking and line clearing, then the next
    /// piece with its check, and the ghost last.
    pub open spec fn ticked(self, input: Input, delta: u64, fresh: [usize; 7]) -> GameView {
        let turn = self.played(input, delta).locked();
        if turn.state == GameState::Advance {
            turn.advanced(fresh).checked().ghosted()
        } else {
            turn.ghosted()
        }
    }

    /// `post` is a state that one tick with the given keys and elapsed time can
    /// lead to from this one: the state after the tick with some bag as the fresh
    /// one. Where the tick puts a fresh bag behind the next one, it is found there.
    pub open spec fn ticks_to(self, post: GameView, input: Input, delta: u64) -> bool {
        &&& is_bag(post.manager.next_order@)
        &&& post == self.ticked(input, delta, post.manager.next_order)
    }
}

impl Game {
    /// The parts are well formed, and every shape on display is a shape.
    pub open spec fn wf(&self) -> bool {
        self@.wf()
    }

    /// Whether the game is well formed. The simulation keeps it so; a state put
    /// together by hand may be tested with this before it is handed to the simulation.
    pub fn is_wf(&self) -> (ok: bool)
        ensures
            ok == self.wf(),
    {
        self.manager.is_wf() && self.field.is_wf() && self.active_tetris.is_wf()
            && self.ghost_tetris.index < SHAPE_COUNT && self.next_tetris.index < SHAPE_COUNT
            && self.hold_tetris.index < SHAPE_COUNT
    }

    /// A new game with freshly shuffled bags.
    pub fn new() -> (game: Game)
        ensures
            game@ == GameView::initial(game.manager),
            game.manager == TetrisManager::started(game.manager.order, game.manager.next_order),
            game.wf(),
    {
        setup(TetrisManager::new())
    }

    /// The moves of the player's turn, each handled only while the game is in play.
    fn play(&mut self, input: Input, delta: u64)
        requires
            old(self).wf(),
        ensures
            final(self)@ == old(self)@.played(input, delta),
            final(self).wf(),
    {
        if self.state == GameState::Play {
            hold(self, input.hold);
        }
        if self.state == GameState::Play {
            rotate(self, input.rotate);
        }
        if self.state == GameState::Play {
            slide(self, delta, input.left, input.right);
        }
        if self.state == GameState::Play {
            fall(self, delta, input.hard_drop, input.soft_drop);
        }
    }

    /// Locks the piece and clears the full rows, if the piece was called to be locked.
    fn lock(&mut self) -> (rows: usize)
        requires
            old(self).wf(),
        ensures
            final(self)@ == old(self)@.locked(),
            rows == old(self)@.rows_cleared(),
            final(self).wf(),
    {
        let mut rows: usize = 0;
        if self.state == GameState::Place {
            place(self);
        }
        if self.state == GameState::Place {
            rows = clear_block(self);
        }
        rows
    }

    /// Brings in the next piece and checks it, if a piece was called for.
    fn spawn(&mut self, fresh: [usize; 7])
        requires
            old(self).wf(),
            is_bag(fresh@),
        ensures
            final(self)@ == if old(self).state == GameState::Advance {
                old(self)@.advanced(fresh).checked()
            } else {
                old(self)@
            },
            final(self).wf(),
    {
        if self.state == GameState::Advance {
            advance_with(self, fresh);
        }
        if self.state == GameState::Advance {
            check_advanced_block(self);
        }
    }

    /// Runs the simulation for one tick with `fresh` as the bag to be put behind
    /// the next one if a piece is brought in and the bag in use is used up: the
    /// player's moves, locking and line clearing, the next piece and its check, and
    /// the ghost, in this order, each step only in the phase of the game that it
    /// belongs to. Returns the number of rows cleared.
    pub fn tick_with(&mut self, input: Input, delta: u64, fresh: [usize; 7]) -> (rows: usize)
        requires
            old(self).wf(),
            is_bag(fresh@),
        ensures
            final(self)@ == old(self)@.ticked(input, delta, fresh),
            rows == old(self)@.played(input, delta).rows_cleared(),
            final(self).wf(),
    {
        self.play(input, delta);
        let rows = self.lock();
        self.spawn(fresh);
        update_ghost(self);
        rows
    }

    /// Runs the simulation for one tick, with a freshly shuffled bag where one is
    /// needed. Returns the number of rows cleared.
    pub fn tick(&mut self, input: Input, delta: u64) -> (rows: usize)
        requires
            old(self).wf(),
        ensures
            old(self)@.ticks_to(final(self)@, input, delta),
            rows == old(self)@.played(input, delta).rows_cleared(),
            final(self).wf(),
    {
        self.play(input, delta);
        let rows = self.lock();
        let fresh = if self.state == GameState::Advance {
            self.manager.fresh_bag()
        } else {
            self.manager.next_order
        };
        proof {
            let turn = self@;
            if turn.state == GameState::Advance && turn.manager.order_index + 1 < 7 {
                assert(turn.manager.dealt(fresh) == turn.manager.dealt(turn.manager.next_order));
            }
        }
        self.spawn(fresh);
        update_ghost(self);
        rows
    }
}

} // verus!
