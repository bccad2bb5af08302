//! Hold-and-swipe detection for one gesture button.

use vstd::prelude::*;

use crate::binding::GestureDirection;

verus! {

/// Travel along the dominant axis at which a swipe commits.
pub const SWIPE_THRESHOLD: i64 = 50;

/// How long a button must be held before travel can commit a swipe, so that a
/// quick tap on a moving mouse stays a click.
pub const MIN_HOLD_MS: u64 = 150;

/// One hold: when it began, the travel so far, and whether a swipe committed.
#[derive(Clone, Copy, Debug, PartialEq, Eq, Structural)]
pub struct Hold {
    pub since_ms: u64,
    pub dx: i32,
    pub dy: i32,
    pub committed: bool,
}

/// Mid-swipe state of one gesture button.
#[derive(Clone, Copy, Debug, PartialEq, Eq, Structural)]
pub struct SwipeAccumulator {
    /// The current hold, if the button is held.
    pub hold: Option<Hold>,
}

/// The magnitude of a number.
pub open spec fn magnitude(v: int) -> int {
    if v < 0 {
        -v
    } else {
        v
    }
}

/// The clean direction of a travel, if it has one: the dominant axis reaches
/// the threshold and is at least twice the other. Positive `dx` is right,
/// positive `dy` is down.
pub open spec fn swipe_direction(dx: int, dy: int) -> Option<GestureDirection> {
    if magnitude(dx) >= SWIPE_THRESHOLD && magnitude(dx) >= 2 * magnitude(dy) {
        Some(
            if dx > 0 {
                GestureDirection::Right
            } else {
                GestureDirection::Left
            },
        )
    } else if magnitude(dy) >= SWIPE_THRESHOLD && magnitude(dy) >= 2 * magnitude(dx) {
        Some(
            if dy > 0 {
                GestureDirection::Down
            } else {
                GestureDirection::Up
            },
        )
    } else {
        None
    }
}

/// A number, limited to what an `i32` holds.
pub open spec fn limited(v: int) -> int {
    if v < i32::MIN {
        i32::MIN as int
    } else if v > i32::MAX {
        i32::MAX as int
    } else {
        v
    }
}

/// A hold after a movement.
pub open spec fn moved(hold: Hold, dx: int, dy: int) -> Hold {
    Hold { dx: limited(hold.dx + dx) as i32, dy: limited(hold.dy + dy) as i32, ..hold }
}

impl SwipeAccumulator {
    /// The state of a button that is not held.
    pub open spec fn idle() -> SwipeAccumulator {
        SwipeAccumulator { hold: None }
    }

    /// The state right after the button went down.
    pub open spec fn begun(now_ms: u64) -> SwipeAccumulator {
        SwipeAccumulator {
            hold: Some(Hold { since_ms: now_ms, dx: 0, dy: 0, committed: false }),
        }
    }

    /// What a movement commits, if anything: once per hold, and only when the
    /// hold has lasted long enough.
    pub open spec fn commits(self, now_ms: u64, dx: int, dy: int) -> Option<GestureDirection> {
        match self.hold {
            Some(hold) => if hold.committed || now_ms - hold.since_ms < MIN_HOLD_MS {
                None
            } else {
                swipe_direction(moved(hold, dx, dy).dx as int, moved(hold, dx, dy).dy as int)
            },
            None => None,
        }
    }

    /// The state after a movement.
    pub open spec fn after_move(self, now_ms: u64, dx: int, dy: int) -> SwipeAccumulator {
        match self.hold {
            Some(hold) => if hold.committed {
                self
            } else {
                SwipeAccumulator {
                    hold: Some(
                        Hold {
                            committed: self.commits(now_ms, dx, dy) is Some,
                            ..moved(hold, dx, dy)
                        },
                    ),
                }
            },
            None => self,
        }
    }

    /// Whether a release now is a plain click: the hold committed no swipe.
    pub open spec fn release_is_click(self) -> bool {
        self.hold is Some && !self.hold->0.committed
    }

    /// Whether the button is held.
    #[must_use]
    pub fn is_holding(&self) -> (res: bool)
        ensures
            res == (self.hold is Some),
    {
        self.hold.is_some()
    }

    /// The button went down at `now_ms`.
    pub fn begin(&mut self, now_ms: u64)
        ensures
            *final(self) == SwipeAccumulator::begun(now_ms),
    {
        self.hold = Some(Hold { since_ms: now_ms, dx: 0, dy: 0, committed: false });
    }

    /// The button went up. Returns whether the hold was a plain click.
    pub fn end(&mut self) -> (click: bool)
        ensures
            click == old(self).release_is_click(),
            *final(self) == SwipeAccumulator::idle(),
    {
        let click = match self.hold {
            Some(hold) => !hold.committed,
            None => false,
        };
        self.hold = None;
        click
    }

    /// The mouse moved at `now_ms`. Returns the direction the instant the hold
    /// commits to one; travel outside a hold is dropped.
    pub fn accumulate(&mut self, now_ms: u64, dx: i32, dy: i32) -> (res: Option<GestureDirection>)
        ensures
            res == old(self).commits(now_ms, dx as int, dy as int),
            *final(self) == old(self).after_move(now_ms, dx as int, dy as int),
    {
        let mut hold = match self.hold {
            Some(hold) => hold,
            None => return None,
        };
        if hold.committed {
            return None;
        }
        hold.dx = limited_sum(hold.dx, dx);
        hold.dy = limited_sum(hold.dy, dy);
        let gated = now_ms < hold.since_ms || now_ms - hold.since_ms < MIN_HOLD_MS;
        let direction = if gated {
            None
        } else {
            detect_swipe(hold.dx, hold.dy)
        };
        hold.committed = direction.is_some();
        self.hold = Some(hold);
        direction
    }
}

impl Default for SwipeAccumulator {
    fn default() -> (res: SwipeAccumulator)
        ensures
            res == SwipeAccumulator::idle(),
    {
        SwipeAccumulator { hold: None }
    }
}

fn limited_sum(a: i32, b: i32) -> (res: i32)
    ensures
        res == limited(a + b),
{
    let sum: i64 = a as i64 + b as i64;
    if sum < i32::MIN as i64 {
        i32::MIN
    } else if sum > i32::MAX as i64 {
        i32::MAX
    } else {
        sum as i32
    }
}

fn abs_of(v: i32) -> (res: i64)
    ensures
        res == magnitude(v as int),
{
    let wide: i64 = v as i64;
    if wide < 0 {
        -wide
    } else {
        wide
    }
}

/// The clean direction of a travel, if it has one.
#[must_use]
pub fn detect_swipe(dx: i32, dy: i32) -> (res: Option<GestureDirection>)
    ensures
        res == swipe_direction(dx as int, dy as int),
{
    let across: i64 = abs_of(dx);
    let along: i64 = abs_of(dy);
    if across >= SWIPE_THRESHOLD && across >= 2 * along {
        if dx > 0 {
            Some(GestureDirection::Right)
        } else {
            Some(GestureDirection::Left)
        }
    } else if along >= SWIPE_THRESHOLD && along >= 2 * across {
        if dy > 0 {
            Some(GestureDirection::Down)
        } else {
            Some(GestureDirection::Up)
        }
    } else {
        None
    }
}

/// One movement report.
pub struct Movement {
    pub now_ms: u64,
    pub dx: int,
    pub dy: int,
}

/// The state after a run of movements.
pub open spec fn after_moves(start: SwipeAccumulator, moves: Seq<Movement>) -> SwipeAccumulator
    decreases moves.len(),
{
    if moves.len() == 0 {
        start
    } else {
        let last = moves.last();
        after_moves(start, moves.drop_last()).after_move(last.now_ms, last.dx, last.dy)
    }
}

/// How many swipes a run of movements commits.
pub open spec fn swipes_in(start: SwipeAccumulator, moves: Seq<Movement>) -> nat
    decreases moves.len(),
{
    if moves.len() == 0 {
        0
    } else {
        let last = moves.last();
        let earlier = moves.drop_last();
        swipes_in(start, earlier) + if after_moves(start, earlier).commits(
            last.now_ms,
            last.dx,
            last.dy,
        ) is Some {
            1nat
        } else {
            0nat
        }
    }
}

/// Every hold resolves to exactly one gesture: either one swipe while it is
/// held, or one click when it is released.
pub proof fn law_one_gesture_per_hold(now_ms: u64, moves: Seq<Movement>)
    ensures
        after_moves(SwipeAccumulator::begun(now_ms), moves).hold is Some,
        swipes_in(SwipeAccumulator::begun(now_ms), moves) + if after_moves(
            SwipeAccumulator::begun(now_ms),
            moves,
        ).release_is_click() {
            1nat
        } else {
            0nat
        } == 1,
    decreases moves.len(),
{
    if moves.len() > 0 {
        law_one_gesture_per_hold(now_ms, moves.drop_last());
    }
}

/// A quick tap is a click however far the mouse moves during it.
pub proof fn law_quick_tap_is_a_click(now_ms: u64, moves: Seq<Movement>)
    requires
        forall|i: int|
            0 <= i < moves.len() ==> (#[trigger] moves[i]).now_ms < now_ms + MIN_HOLD_MS,
    ensures
        swipes_in(SwipeAccumulator::begun(now_ms), moves) == 0,
        after_moves(SwipeAccumulator::begun(now_ms), moves).release_is_click(),
        after_moves(SwipeAccumulator::begun(now_ms), moves).hold->0.since_ms == now_ms,
    decreases moves.len(),
{
    if moves.len() > 0 {
        let earlier = moves.drop_last();
        assert forall|i: int| 0 <= i < earlier.len() implies (#[trigger] earlier[i]).now_ms < now_ms
            + MIN_HOLD_MS by {
            assert(earlier[i] == moves[i]);
        }
        law_quick_tap_is_a_click(now_ms, earlier);
        assert(moves[moves.len() - 1] == moves.last());
    }
}

/// Travel that arrives outside a hold commits nothing and changes nothing.
pub proof fn law_travel_outside_a_hold_is_dropped(now_ms: u64, dx: int, dy: int)
    ensures
        SwipeAccumulator::idle().commits(now_ms, dx, dy) is None,
        SwipeAccumulator::idle().after_move(now_ms, dx, dy) == SwipeAccumulator::idle(),
        !SwipeAccumulator::idle().release_is_click(),
{
}

/// A swipe never reads as a click, and mirrored travel reads as the opposite
/// direction.
pub proof fn law_swipe_directions_mirror(dx: int, dy: int)
    ensures
        swipe_direction(dx, dy) != Some(GestureDirection::Click),
        swipe_direction(dx, dy) == Some(GestureDirection::Right) <==> swipe_direction(-dx, dy)
            == Some(GestureDirection::Left),
        swipe_direction(dx, dy) == Some(GestureDirection::Down) <==> swipe_direction(dx, -dy)
            == Some(GestureDirection::Up),
{
}

/// The travel along one axis after a run of steps along it: their sum, which
/// stops at the ends of what an `i32` holds.
pub open spec fn kept(steps: Seq<int>) -> int
    decreases steps.len(),
{
    if steps.len() == 0 {
        0
    } else {
        let sum = kept(steps.drop_last()) + steps.last();
        if sum > 0x7fff_ffff {
            0x7fff_ffff
        } else if sum < -0x8000_0000 {
            -0x8000_0000
        } else {
            sum
        }
    }
}

/// The plain sum of a run of steps.
pub open spec fn total(steps: Seq<int>) -> int
    decreases steps.len(),
{
    if steps.len() == 0 {
        0
    } else {
        total(steps.drop_last()) + steps.last()
    }
}

/// The steps of a run of movements along the horizontal axis.
pub open spec fn across(moves: Seq<Movement>) -> Seq<int> {
    moves.map_values(|m: Movement| m.dx)
}

/// The steps of a run of movements along the vertical axis.
pub open spec fn along(moves: Seq<Movement>) -> Seq<int> {
    moves.map_values(|m: Movement| m.dy)
}

/// Where no partial sum leaves the range of an `i32`, the travel kept is the
/// plain sum.
pub proof fn law_travel_is_the_sum_within_range(steps: Seq<int>)
    requires
        forall|n: int|
            0 <= n <= steps.len() ==> i32::MIN <= total(#[trigger] steps.take(n)) <= i32::MAX,
    ensures
        kept(steps) == total(steps),
    decreases steps.len(),
{
    assert(steps.take(steps.len() as int) =~= steps);
    if steps.len() > 0 {
        let earlier = steps.drop_last();
        assert forall|n: int| 0 <= n <= earlier.len() implies i32::MIN <= total(
            #[trigger] earlier.take(n),
        ) <= i32::MAX by {
            assert(earlier.take(n) =~= steps.take(n));
        }
        law_travel_is_the_sum_within_range(earlier);
    }
}

/// Travel adds up over a hold: while no swipe has committed, the hold keeps the
/// sum of all its movements along each axis, and when it began.
pub proof fn law_travel_adds_up(now_ms: u64, moves: Seq<Movement>)
    requires
        swipes_in(SwipeAccumulator::begun(now_ms), moves) == 0,
    ensures
        after_moves(SwipeAccumulator::begun(now_ms), moves).hold matches Some(hold)
            && hold.since_ms == now_ms && hold.dx == kept(across(moves)) && hold.dy == kept(
            along(moves),
        ) && !hold.committed,
    decreases moves.len(),
{
    if moves.len() > 0 {
        let earlier = moves.drop_last();
        law_travel_adds_up(now_ms, earlier);
        assert(across(moves).drop_last() =~= across(earlier));
        assert(along(moves).drop_last() =~= along(earlier));
    }
}

/// A movement commits a swipe in a direction exactly when the hold has not
/// committed one yet and has lasted long enough, and the whole travel with this
/// movement reaches the threshold that way and is at least twice the travel
/// along the other axis.
pub proof fn law_whole_travel_decides_the_swipe(now_ms: u64, moves: Seq<Movement>, next: Movement)
    requires
        swipes_in(SwipeAccumulator::begun(now_ms), moves) == 0,
    ensures
        ({
            let x = kept(across(moves.push(next)));
            let y = kept(along(moves.push(next)));
            let open = next.now_ms >= now_ms + MIN_HOLD_MS;
            let swipe = after_moves(SwipeAccumulator::begun(now_ms), moves).commits(
                next.now_ms,
                next.dx,
                next.dy,
            );
            &&& swipe == Some(GestureDirection::Right) <==> open && x >= SWIPE_THRESHOLD && x >= 2
                * y && x >= -2 * y
            &&& swipe == Some(GestureDirection::Left) <==> open && -x >= SWIPE_THRESHOLD && -x >= 2
                * y && -x >= -2 * y
            &&& swipe == Some(GestureDirection::Down) <==> open && y >= SWIPE_THRESHOLD && y >= 2
                * x && y >= -2 * x
            &&& swipe == Some(GestureDirection::Up) <==> open && -y >= SWIPE_THRESHOLD && -y >= 2
                * x && -y >= -2 * x
            &&& swipe != Some(GestureDirection::Click)
            &&& swipe is Some <==> after_moves(
                SwipeAccumulator::begun(now_ms),
                moves.push(next),
            ).hold->0.committed
        }),
{
    law_travel_adds_up(now_ms, moves);
    let all = moves.push(next);
    assert(all.drop_last() =~= moves);
    assert(across(all).drop_last() =~= across(moves));
    assert(along(all).drop_last() =~= along(moves));
    law_one_gesture_per_hold(now_ms, moves);
}

/// After its swipe a hold is settled: no movement commits another one or
/// changes it, and its release is no click.
pub proof fn law_committed_hold_is_settled(swipe: SwipeAccumulator, now_ms: u64, dx: int, dy: int)
    requires
        swipe.hold matches Some(hold) && hold.committed,
    ensures
        swipe.commits(now_ms, dx, dy) is None,
        swipe.after_move(now_ms, dx, dy) == swipe,
        !swipe.release_is_click(),
{
}

/// What a movement does depends on the hold and the movement alone: a hold
/// that moved here by any other way commits the same.
pub proof fn law_split_travel_commits_the_same(
    now_ms: u64,
    a: Seq<Movement>,
    b: Seq<Movement>,
    next: Movement,
)
    requires
        swipes_in(SwipeAccumulator::begun(now_ms), a) == 0,
        swipes_in(SwipeAccumulator::begun(now_ms), b) == 0,
        kept(across(a)) == kept(across(b)),
        kept(along(a)) == kept(along(b)),
    ensures
        after_moves(SwipeAccumulator::begun(now_ms), a).commits(next.now_ms, next.dx, next.dy)
            == after_moves(SwipeAccumulator::begun(now_ms), b).commits(
            next.now_ms,
            next.dx,
            next.dy,
        ),
{
    law_travel_adds_up(now_ms, a);
    law_travel_adds_up(now_ms, b);
}

} // verus!
