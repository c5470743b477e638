//! The bag randomizer, the four timers and the flags of the turn in progress.

use crate::shape::SHAPE_COUNT;
use crate::timer::{Timer, TimerMode};
use vstd::prelude::*;

verus! {

/// Nanoseconds between two steps of a piece that falls by itself.
pub const FALL_TIME: u64 = 500_000_000;

/// Nanoseconds between two steps of a piece that the player drops softly.
pub const FAST_FALL_TIME: u64 = 66_666_667;

/// Nanoseconds for which a sideways key is held before the piece starts to repeat its move.
pub const SLIDE_START_TIME: u64 = 200_000_000;

/// Nanoseconds between two repeated sideways moves.
pub const SLIDE_TIME: u64 = 50_000_000;

/// The phase of the game.
#[derive(Clone, Copy, Debug, PartialEq, Eq, Structural)]
pub enum GameState {
    /// The active piece is under the player's control.
    Play,
    /// The active piece is to be locked into the field.
    Place,
    /// The next piece is to be brought into the field.
    Advance,
    /// A piece spawned into locked blocks; nothing moves any more.
    GameOver,
}

/// The state that lasts beyond one piece: the two bags of the randomizer with
/// the position in the first, the timers, and the flags of the turn.
#[derive(Clone, Copy, Debug)]
pub struct TetrisManager {
    /// The bag being dealt.
    pub order: [usize; 7],
    /// The bag to be dealt after it.
    pub next_order: [usize; 7],
    /// Position of the current piece in `order`.
    pub order_index: usize,
    pub fall_timer: Timer,
    pub fast_fall_timer: Timer,
    pub slide_start_timer: Timer,
    pub slide_timer: Timer,
    /// Direction of the sideways keys at the last tick: -1, 0 or 1.
    pub slide_dir: i32,
    /// The grace period of a resting piece has started.
    pub hit_floor: bool,
    /// The hold key has been used since the last piece locked.
    pub hold: bool,
}

/// The seven shapes, each once, in ascending order.
pub open spec fn sorted_bag() -> Seq<usize> {
    seq![0, 1, 2, 3, 4, 5, 6]
}

/// The sequence holds each of the seven shapes exactly once.
pub open spec fn is_bag(order: Seq<usize>) -> bool {
    order.to_multiset() =~= sorted_bag().to_multiset()
}

/// A bag has seven entries, each of them a shape, and holds every shape once.
pub proof fn lemma_bag_contents(order: Seq<usize>)
    requires
        is_bag(order),
    ensures
        order.len() == 7,
        forall|i: int| 0 <= i < 7 ==> #[trigger] order[i] < SHAPE_COUNT,
        forall|shape: usize|
            shape < SHAPE_COUNT ==> #[trigger] order.to_multiset().count(shape) == 1,
        forall|shape: usize|
            shape >= SHAPE_COUNT ==> #[trigger] order.to_multiset().count(shape) == 0,
{
    broadcast use vstd::seq_lib::group_to_multiset_ensures;

    let sorted = sorted_bag();
    let m = sorted.to_multiset();
    let e = Seq::<usize>::empty();
    assert(e.to_multiset() =~= vstd::multiset::Multiset::<usize>::empty()) by {
        assert(e.to_multiset().len() == 0);
    }
    assert(sorted =~= e.push(0).push(1).push(2).push(3).push(4).push(5).push(6));
    assert(m =~= vstd::multiset::Multiset::<usize>::empty().insert(0).insert(1).insert(2).insert(
        3,
    ).insert(4).insert(5).insert(6));
    assert(order.len() == 7) by {
        assert(order.to_multiset().len() == m.len());
        assert(sorted.len() == 7);
    }
    assert forall|i: int| 0 <= i < 7 implies #[trigger] order[i] < SHAPE_COUNT by {
        assert(order.contains(order[i]));
        assert(m.count(order[i]) > 0);
    }
}

/// Whether the array holds each of the seven shapes exactly once.
pub fn holds_bag(order: &[usize; 7]) -> (ok: bool)
    ensures
        ok == is_bag(order@),
{
    broadcast use vstd::seq_lib::group_to_multiset_ensures;

    let mut seen: [bool; 7] = [false, false, false, false, false, false, false];
    let mut i: usize = 0;
    while i < 7
        invariant
            i <= 7,
            forall|k: int| 0 <= k < i ==> #[trigger] order@[k] < 7,
            forall|k: int, l: int| 0 <= k < l < i ==> order@[k] != order@[l],
            forall|shape: int|
                0 <= shape < 7 ==> (#[trigger] seen@[shape] <==> exists|k: int|
                    0 <= k < i && #[trigger] order@[k] == shape),
        decreases 7 - i,
    {
        let shape = order[i];
        if shape >= 7 {
            proof {
                if is_bag(order@) {
                    lemma_bag_contents(order@);
                }
            }
            return false;
        }
        if seen[shape] {
            proof {
                let k = choose|k: int| 0 <= k < i && #[trigger] order@[k] == shape;
                if is_bag(order@) {
                    lemma_bag_contents(order@);
                    order@.lemma_multiset_has_no_duplicates_conv();
                    assert(order@[k] == order@[i as int]);
                }
            }
            return false;
        }
        seen[shape] = true;
        i += 1;
    }
    let mut shape: usize = 0;
    while shape < 7
        invariant
            shape <= 7,
            forall|s: int| 0 <= s < shape ==> #[trigger] seen@[s],
            forall|k: int| 0 <= k < 7 ==> #[trigger] order@[k] < 7,
            forall|k: int, l: int| 0 <= k < l < 7 ==> order@[k] != order@[l],
            forall|s: int|
                0 <= s < 7 ==> (#[trigger] seen@[s] <==> exists|k: int|
                    0 <= k < 7 && #[trigger] order@[k] == s),
        decreases 7 - shape,
    {
        if !seen[shape] {
            proof {
                if is_bag(order@) {
                    lemma_bag_contents(order@);
                    assert(order@.to_multiset().count(shape) == 1);
                    vstd::seq_lib::to_multiset_contains(order@, shape);
                    let k = choose|k: int| 0 <= k < order@.len() && order@[k] == shape;
                    assert(order@[k] == shape);
                }
            }
            return false;
        }
        shape += 1;
    }
    proof {
        assert(is_bag(sorted_bag()));
        lemma_bag_contents(sorted_bag());
        assert(order@.no_duplicates());
        order@.lemma_multiset_has_no_duplicates();
        assert forall|v: usize|
            order@.to_multiset().count(v) == sorted_bag().to_multiset().count(v) by {
            if v < 7 {
                assert(seen@[v as int]);
                let k = choose|k: int| 0 <= k < 7 && #[trigger] order@[k] == v;
                assert(order@.contains(v));
            } else {
                if order@.contains(v) {
                    let k = choose|k: int| 0 <= k < order@.len() && order@[k] == v;
                    assert(order@[k] < 7);
                }
            }
        }
        assert(order@.to_multiset() =~= sorted_bag().to_multiset());
    }
    true
}

/// How dealing the next piece changes the randomizer: the position moves on by
/// one; past the end of the bag, the next bag takes its place and a fresh bag
/// stands behind it.
pub open spec fn deals_next(pre: TetrisManager, post: TetrisManager) -> bool {
    &&& is_bag(post.order@)
    &&& is_bag(post.next_order@)
    &&& if pre.order_index + 1 < 7 {
        &&& post.order_index == pre.order_index + 1
        &&& post.order@ == pre.order@
        &&& post.next_order@ == pre.next_order@
    } else {
        &&& post.order_index == 0
        &&& post.order@ == pre.next_order@
    }
}

/// Calls `fastrand::shuffle` on the bag. That function only swaps entries of the
/// slice, so the bag holds afterwards what it held before, in an order that the
/// thread's random number generator decides.
#[verifier::external_body]
fn shuffle(order: &mut [usize; 7])
    ensures
        final(order)@.to_multiset() =~= old(order)@.to_multiset(),
{
    fastrand::shuffle(order);
}

impl TetrisManager {
    /// Both bags hold every shape once, the position lies within the bag, the
    /// timers are consistent and of the right kind, and the direction is a direction.
    pub open spec fn wf(&self) -> bool {
        &&& is_bag(self.order@)
        &&& is_bag(self.next_order@)
        &&& self.order_index < 7
        &&& self.fall_timer.wf()
        &&& self.fast_fall_timer.wf()
        &&& self.slide_start_timer.wf()
        &&& self.slide_timer.wf()
        &&& self.fall_timer.mode == TimerMode::Repeating
        &&& self.fast_fall_timer.mode == TimerMode::Repeating
        &&& self.slide_start_timer.mode == TimerMode::Once
        &&& self.slide_timer.mode == TimerMode::Repeating
        &&& -1 <= self.slide_dir <= 1
    }

    /// Whether the manager is well formed.
    pub fn is_wf(&self) -> (ok: bool)
        ensures
            ok == self.wf(),
    {
        holds_bag(&self.order) && holds_bag(&self.next_order) && self.order_index < 7
            && self.fall_timer.is_wf() && self.fast_fall_timer.is_wf()
            && self.slide_start_timer.is_wf() && self.slide_timer.is_wf() && self.fall_timer.mode
            == TimerMode::Repeating && self.fast_fall_timer.mode == TimerMode::Repeating
            && self.slide_start_timer.mode == TimerMode::Once && self.slide_timer.mode
            == TimerMode::Repeating && -1 <= self.slide_dir && self.slide_dir <= 1
    }

    /// A manager at the start of a game with the given bags: the position at the
    /// head of the first bag, the timers at zero and no flag set.
    pub open spec fn started(order: [usize; 7], next_order: [usize; 7]) -> TetrisManager {
        TetrisManager {
            order,
            next_order,
            order_index: 0,
            fall_timer: Timer::new_spec(FALL_TIME, TimerMode::Repeating),
            fast_fall_timer: Timer::new_spec(FAST_FALL_TIME, TimerMode::Repeating),
            slide_start_timer: Timer::new_spec(SLIDE_START_TIME, TimerMode::Once),
            slide_timer: Timer::new_spec(SLIDE_TIME, TimerMode::Repeating),
            slide_dir: 0,
            hit_floor: false,
            hold: false,
        }
    }

    /// The manager after the next piece was dealt: the position has moved on by
    /// one; past the end of the bag, the next bag has taken its place and `fresh`
    /// stands behind it. The timers and the flags are as they were.
    pub open spec fn dealt(self, fresh: [usize; 7]) -> TetrisManager {
        if self.order_index + 1 < 7 {
            TetrisManager { order_index: (self.order_index + 1) as usize, ..self }
        } else {
            TetrisManager { order: self.next_order, next_order: fresh, order_index: 0, ..self }
        }
    }

    /// The shape of the current piece.
    pub open spec fn current(&self) -> usize {
        self.order@[self.order_index as int]
    }

    /// The shape of the piece that comes after the current one.
    pub open spec fn peek_next(&self) -> usize {
        if self.order_index + 1 < 7 {
            self.order@[self.order_index + 1]
        } else {
            self.next_order@[(self.order_index + 1) % 7]
        }
    }

    /// A manager at the start of a game with the given bags.
    pub fn with_bags(order: [usize; 7], next_order: [usize; 7]) -> (manager: TetrisManager)
        requires
            is_bag(order@),
            is_bag(next_order@),
        ensures
            manager == TetrisManager::started(order, next_order),
            manager.wf(),
    {
        TetrisManager {
            order,
            next_order,
            order_index: 0,
            fall_timer: Timer::new(FALL_TIME, TimerMode::Repeating),
            fast_fall_timer: Timer::new(FAST_FALL_TIME, TimerMode::Repeating),
            slide_start_timer: Timer::new(SLIDE_START_TIME, TimerMode::Once),
            slide_timer: Timer::new(SLIDE_TIME, TimerMode::Repeating),
            slide_dir: 0,
            hit_floor: false,
            hold: false,
        }
    }

    /// A manager at the start of a game, with two freshly shuffled bags.
    pub fn new() -> (manager: TetrisManager)
        ensures
            manager == TetrisManager::started(manager.order, manager.next_order),
            manager.wf(),
    {
        let mut order: [usize; 7] = [0, 1, 2, 3, 4, 5, 6];
        let mut next_order: [usize; 7] = [0, 1, 2, 3, 4, 5, 6];
        assert(order@ =~= sorted_bag());
        assert(next_order@ =~= sorted_bag());
        shuffle(&mut order);
        shuffle(&mut next_order);
        TetrisManager::with_bags(order, next_order)
    }

    /// The shape of the current piece.
    pub fn current_tetris(&self) -> (shape: usize)
        requires
            self.wf(),
        ensures
            shape == self.current(),
            shape < SHAPE_COUNT,
    {
        proof {
            lemma_bag_contents(self.order@);
        }
        self.order[self.order_index]
    }

    /// The shape of the piece that comes after the current one.
    pub fn next_tetris(&self) -> (shape: usize)
        requires
            self.wf(),
        ensures
            shape == self.peek_next(),
            shape < SHAPE_COUNT,
    {
        proof {
            lemma_bag_contents(self.order@);
            lemma_bag_contents(self.next_order@);
        }
        if self.order_index + 1 < 7 {
            self.order[self.order_index + 1]
        } else {
            self.next_order[(self.order_index + 1) % 7]
        }
    }

    /// The bag to be put behind the next one when the next piece is dealt: a fresh
    /// shuffle of the bag in use if this is its last piece. Before that no bag is
    /// needed, and the bag in use is handed back as it is.
    pub fn fresh_bag(&self) -> (fresh: [usize; 7])
        requires
            self.wf(),
        ensures
            is_bag(fresh@),
            self.order_index + 1 < 7 ==> fresh == self.order,
    {
        let mut fresh = self.order;
        if self.order_index + 1 >= 7 {
            shuffle(&mut fresh);
        }
        fresh
    }

    /// Moves on to the next piece. When the bag is used up, the next bag takes its
    /// place and `fresh` is put behind it.
    pub fn advance_with(&mut self, fresh: [usize; 7])
        requires
            old(self).wf(),
            is_bag(fresh@),
        ensures
            *final(self) == old(self).dealt(fresh),
            final(self).wf(),
    {
        self.order_index += 1;
        if self.order_index >= 7 {
            self.order = self.next_order;
            self.next_order = fresh;
            self.order_index = 0;
        }
    }

    /// Moves on to the next piece. When the bag is used up, the next bag takes its
    /// place and a freshly shuffled one is put behind it.
    pub fn advance(&mut self)
        requires
            old(self).wf(),
        ensures
            *final(self) == old(self).dealt(final(self).next_order),
            final(self).wf(),
            deals_next(*old(self), *final(self)),
            final(self).current() == old(self).peek_next(),
    {
        let fresh = self.fresh_bag();
        self.advance_with(fresh);
    }
}

/// Dealing the next piece with a fresh bag at hand deals the next piece.
pub proof fn lemma_dealt_deals_next(manager: TetrisManager, fresh: [usize; 7])
    requires
        manager.wf(),
        is_bag(fresh@),
    ensures
        deals_next(manager, manager.dealt(fresh)),
        manager.dealt(fresh).wf(),
        manager.dealt(fresh).current() == manager.peek_next(),
{
}

/// The piece that the randomizer shows as next is the one that is current after
/// the next piece has been dealt.
pub proof fn lemma_peek_is_next_current(pre: TetrisManager, post: TetrisManager)
    requires
        pre.order_index < 7,
        deals_next(pre, post),
    ensures
        post.current() == pre.peek_next(),
{
}

/// The shapes of the current pieces of the first `count` states of a trace.
pub open spec fn pieces(trace: Seq<TetrisManager>, count: nat) -> Seq<usize> {
    Seq::new(count, |i: int| trace[i].current())
}

/// Along a trace in which each state deals the next, and which starts at the
/// head of a bag, the position goes round the bag and both bags stay bags.
proof fn lemma_trace_position(trace: Seq<TetrisManager>, i: int)
    requires
        0 <= i < trace.len(),
        is_bag(trace[0].order@),
        is_bag(trace[0].next_order@),
        trace[0].order_index == 0,
        forall|k: int|
            0 <= k && k + 1 < trace.len() ==> #[trigger] deals_next(trace[k], trace[k + 1]),
    ensures
        trace[i].order_index == i % 7,
        is_bag(trace[i].order@),
        is_bag(trace[i].next_order@),
    decreases i,
{
    if i > 0 {
        lemma_trace_position(trace, i - 1);
        let k = i - 1;
        assert(deals_next(trace[k], trace[k + 1]));
    }
}

/// While the position has not gone past the end of the bag, the bag is the one
/// that stood at the head of the cycle.
proof fn lemma_trace_cycle(trace: Seq<TetrisManager>, start: int, j: int)
    requires
        0 <= start,
        start % 7 == 0,
        0 <= j < 7,
        start + j < trace.len(),
        is_bag(trace[0].order@),
        is_bag(trace[0].next_order@),
        trace[0].order_index == 0,
        forall|k: int|
            0 <= k && k + 1 < trace.len() ==> #[trigger] deals_next(trace[k], trace[k + 1]),
    ensures
        trace[start + j].order@ == trace[start].order@,
        trace[start + j].order_index == j,
    decreases j,
{
    lemma_trace_position(trace, start + j);
    if j > 0 {
        lemma_trace_cycle(trace, start, j - 1);
        let k = start + j - 1;
        assert(deals_next(trace[k], trace[k + 1]));
    }
}

/// Over any number of whole bags, dealt from the head of a bag on, every shape
/// comes exactly once per bag: among the first seven times `cycles` pieces, each
/// shape occurs `cycles` times.
pub proof fn lemma_bag_fairness(trace: Seq<TetrisManager>, cycles: nat, shape: usize)
    requires
        trace.len() > 0,
        trace.len() >= 7 * cycles,
        is_bag(trace[0].order@),
        is_bag(trace[0].next_order@),
        trace[0].order_index == 0,
        forall|k: int|
            0 <= k && k + 1 < trace.len() ==> #[trigger] deals_next(trace[k], trace[k + 1]),
        shape < SHAPE_COUNT,
    ensures
        pieces(trace, 7 * cycles).to_multiset().count(shape) == cycles,
    decreases cycles,
{
    broadcast use vstd::seq_lib::group_to_multiset_ensures;

    if cycles == 0 {
        assert(pieces(trace, 0) =~= Seq::<usize>::empty());
        assert(pieces(trace, 0).to_multiset().len() == 0);
    } else {
        let start = 7 * (cycles - 1);
        lemma_bag_fairness(trace, (cycles - 1) as nat, shape);
        lemma_trace_position(trace, start);
        let bag = trace[start].order@;
        lemma_bag_contents(bag);
        assert(pieces(trace, 7 * cycles) =~= pieces(trace, start as nat) + bag) by {
            assert forall|i: int| start <= i < 7 * cycles implies #[trigger] pieces(
                trace,
                7 * cycles,
            )[i] == bag[i - start] by {
                lemma_trace_cycle(trace, start, i - start);
            }
        }
        vstd::seq_lib::lemma_multiset_commutative(pieces(trace, start as nat), bag);
    }
}

} // verus!
