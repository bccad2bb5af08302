//! Which controls to divert, and diverting them as one transaction.

use vstd::prelude::*;

use crate::maps::{lemma_filter_map_keeps, lemma_take_filter};
use crate::wire::{dpi_cids, CtrlIdInfo, DPI_MODE_SHIFT_CIDS, GESTURE_BUTTON_CID};

verus! {

/// One successful divert, recorded for rollback and disarm.
#[derive(Clone, Copy, Debug, PartialEq, Eq, Structural)]
pub struct ArmedDivert {
    pub cid: u16,
    /// Whether raw movement was requested (informational; a restore always
    /// clears both).
    pub raw_xy: bool,
}

/// Bookkeeping for diverting controls as one transaction.
#[derive(Debug, PartialEq, Eq)]
pub struct ArmProgress {
    /// The successful diverts, in the order they were made.
    pub armed: Vec<ArmedDivert>,
}

/// The records of the first `n` steps.
pub open spec fn armed_by(steps: Seq<(u16, bool)>, n: int) -> Seq<ArmedDivert> {
    steps.take(n).map_values(|step: (u16, bool)| ArmedDivert { cid: step.0, raw_xy: step.1 })
}

impl Default for ArmProgress {
    fn default() -> (progress: ArmProgress)
        ensures
            progress.armed@ == Seq::<ArmedDivert>::empty(),
    {
        ArmProgress { armed: Vec::new() }
    }
}

impl ArmProgress {
    /// Record a successful divert.
    pub fn record(&mut self, cid: u16, raw_xy: bool)
        ensures
            final(self).armed@ == old(self).armed@.push(ArmedDivert { cid, raw_xy }),
    {
        self.armed.push(ArmedDivert { cid, raw_xy });
    }

    /// Successful diverts in reverse order (last armed first on rollback).
    #[must_use]
    pub fn rollback_order(&self) -> (order: Vec<ArmedDivert>)
        ensures
            order@ == self.armed@.reverse(),
    {
        let mut order: Vec<ArmedDivert> = Vec::new();
        let mut left: usize = self.armed.len();
        while left > 0
            invariant
                left <= self.armed@.len(),
                order@ == self.armed@.skip(left as int).reverse(),
            decreases left,
        {
            left = left - 1;
            order.push(self.armed[left]);
            assert(order@ =~= self.armed@.skip(left as int).reverse());
        }
        assert(self.armed@.skip(0) =~= self.armed@);
        order
    }
}

/// The first row of a control table for a control.
pub open spec fn row_of(controls: Seq<CtrlIdInfo>, cid: u16) -> Option<CtrlIdInfo> {
    let rows = controls.filter(|c: CtrlIdInfo| c.cid == cid);
    if rows.len() > 0 {
        Some(rows[0])
    } else {
        None
    }
}

/// The step for the dedicated gesture button: it gestures by raw movement, so
/// it is diverted only when it can report that.
pub open spec fn gesture_step(controls: Seq<CtrlIdInfo>, wanted: bool) -> Seq<(u16, bool)> {
    match row_of(controls, GESTURE_BUTTON_CID) {
        Some(row) => if wanted && row.raw_xy {
            seq![(GESTURE_BUTTON_CID, true)]
        } else {
            Seq::empty()
        },
        None => Seq::empty(),
    }
}

/// The step for one DPI control: diverted whenever it can be, with raw
/// movement when it gestures and can report that.
pub open spec fn dpi_step(controls: Seq<CtrlIdInfo>, dpi_as_gesture: bool, cid: u16) -> Option<
    (u16, bool),
> {
    match row_of(controls, cid) {
        Some(row) => if row.divertable {
            Some((cid, dpi_as_gesture && row.raw_xy))
        } else {
            None
        },
        None => None,
    }
}

/// The ordered divert plan of a device.
pub open spec fn plan_spec(
    controls: Seq<CtrlIdInfo>,
    divert_gesture_button: bool,
    dpi_as_gesture: bool,
) -> Seq<(u16, bool)> {
    gesture_step(controls, divert_gesture_button) + dpi_cids().filter_map(
        |cid: u16| dpi_step(controls, dpi_as_gesture, cid),
    )
}

fn find_control(controls: &[CtrlIdInfo], cid: u16) -> (res: Option<CtrlIdInfo>)
    ensures
        res == row_of(controls@, cid),
{
    let ghost wanted = |c: CtrlIdInfo| c.cid == cid;
    let mut i: usize = 0;
    assert(controls@.take(0).filter(wanted) =~= Seq::<CtrlIdInfo>::empty()) by {
        reveal(Seq::filter);
    }
    while i < controls.len()
        invariant
            i <= controls@.len(),
            wanted == (|c: CtrlIdInfo| c.cid == cid),
            controls@.take(i as int).filter(wanted) == Seq::<CtrlIdInfo>::empty(),
        decreases controls@.len() - i,
    {
        proof {
            lemma_take_filter(controls@, i as int, wanted);
        }
        if controls[i].cid == cid {
            proof {
                lemma_filter_prefix(controls@, i + 1, wanted);
                let rows = controls@.filter(wanted);
                assert(rows.take(1)[0] == rows[0]);
            }
            return Some(controls[i]);
        }
        i = i + 1;
    }
    assert(controls@.take(i as int) =~= controls@);
    None
}

/// What a filter keeps of a list starts with what it keeps of a prefix.
proof fn lemma_filter_prefix<A>(s: Seq<A>, n: int, p: spec_fn(A) -> bool)
    requires
        0 <= n <= s.len(),
    ensures
        s.take(n).filter(p).len() <= s.filter(p).len(),
        s.filter(p).take(s.take(n).filter(p).len() as int) == s.take(n).filter(p),
    decreases s.len() - n,
{
    if n < s.len() {
        lemma_filter_prefix(s, n + 1, p);
        lemma_take_filter(s, n, p);
        let shorter = s.take(n).filter(p);
        assert(s.filter(p).take(shorter.len() as int) =~= shorter) by {
            let longer = s.take(n + 1).filter(p);
            assert(longer.take(shorter.len() as int) =~= shorter);
            assert(s.filter(p).take(longer.len() as int).take(shorter.len() as int) =~= s.filter(
                p,
            ).take(shorter.len() as int));
        }
    } else {
        assert(s.take(n) =~= s);
        assert(s.filter(p).take(s.filter(p).len() as int) =~= s.filter(p));
    }
}

/// Build the ordered `(cid, raw_xy)` divert plan from the control table.
#[must_use]
pub fn plan_reprog_diverts(
    controls: &[CtrlIdInfo],
    divert_gesture_button: bool,
    dpi_as_gesture: bool,
) -> (steps: Vec<(u16, bool)>)
    ensures
        steps@ == plan_spec(controls@, divert_gesture_button, dpi_as_gesture),
{
    let mut steps: Vec<(u16, bool)> = Vec::new();
    if divert_gesture_button {
        if let Some(control) = find_control(controls, GESTURE_BUTTON_CID) {
            if control.supports_raw_xy() {
                steps.push((GESTURE_BUTTON_CID, true));
            }
        }
    }
    let ghost first = steps@;
    assert(first =~= gesture_step(controls@, divert_gesture_button));
    let ghost step_of = |cid: u16| dpi_step(controls@, dpi_as_gesture, cid);
    let cids = DPI_MODE_SHIFT_CIDS;
    let mut i: usize = 0;
    assert(dpi_cids().take(0).filter_map(step_of) =~= Seq::<(u16, bool)>::empty()) by {
        reveal(Seq::filter_map);
    }
    assert(steps@ =~= first + dpi_cids().take(0).filter_map(step_of));
    while i < cids.len()
        invariant
            i <= cids@.len(),
            cids@ == dpi_cids(),
            step_of == (|cid: u16| dpi_step(controls@, dpi_as_gesture, cid)),
            steps@ == first + dpi_cids().take(i as int).filter_map(step_of),
        decreases cids@.len() - i,
    {
        proof {
            dpi_cids().lemma_filter_map_take_succ(step_of, i as int);
        }
        let cid = cids[i];
        if let Some(control) = find_control(controls, cid) {
            if control.is_divertable() {
                steps.push((cid, dpi_as_gesture && control.supports_raw_xy()));
            }
        }
        assert(steps@ =~= first + dpi_cids().take(i + 1).filter_map(step_of));
        i = i + 1;
    }
    assert(dpi_cids().take(i as int) =~= dpi_cids());
    steps
}

/// One call to a [`DivertBackend`] and how it ended.
pub enum DivertCall {
    Divert { cid: u16, raw_xy: bool, error: Option<Seq<char>> },
    Restore { cid: u16, error: Option<Seq<char>> },
}

/// How a call ended: without an error, or with which.
pub open spec fn error_of(res: Result<(), String>) -> Option<Seq<char>> {
    match res {
        Ok(_) => None,
        Err(e) => Some(e@),
    }
}

/// Whatever diverts and restores single controls: a device, or a stand-in for
/// one. Nothing is promised of how a call ends; its history is the list of the
/// calls made so far.
pub trait DivertBackend {
    /// The calls made so far. An implementation must override this to meet the
    /// contracts below: the default is the same for all values, so that no call
    /// could ever be added to it. It is there for backends in plain Rust, which
    /// have no ghost code.
    closed spec fn history(&self) -> Seq<DivertCall> {
        arbitrary()
    }

    /// Divert `cid` with optional raw movement.
    fn divert(&mut self, cid: u16, raw_xy: bool) -> (res: Result<(), String>)
        ensures
            final(self).history() == old(self).history().push(
                DivertCall::Divert { cid, raw_xy, error: error_of(res) },
            ),
    ;

    /// Clear divert (and raw movement) for `cid`.
    fn restore(&mut self, cid: u16) -> (res: Result<(), String>)
        ensures
            final(self).history() == old(self).history().push(
                DivertCall::Restore { cid, error: error_of(res) },
            ),
    ;
}

/// The first `n` steps, each diverted without an error.
pub open spec fn diverted(steps: Seq<(u16, bool)>, n: int) -> Seq<DivertCall> {
    steps.take(n).map_values(
        |step: (u16, bool)| DivertCall::Divert { cid: step.0, raw_xy: step.1, error: None },
    )
}

/// Whether `calls` restore the first `n` steps, last one first, whatever the
/// single restores end with.
pub open spec fn restored(steps: Seq<(u16, bool)>, n: int, calls: Seq<DivertCall>) -> bool {
    &&& calls.len() == n
    &&& forall|i: int|
        0 <= i < n ==> (#[trigger] calls[i] matches DivertCall::Restore { cid, .. } && cid == steps[n
            - 1 - i].0)
}

/// Whether `calls` are a failed transaction: the steps before the one at
/// `failed` succeed, that one ends with `error`, and the earlier ones are
/// restored in reverse.
pub open spec fn rolled_back(
    steps: Seq<(u16, bool)>,
    failed: int,
    error: Seq<char>,
    calls: Seq<DivertCall>,
) -> bool {
    &&& 0 <= failed < steps.len()
    &&& calls.len() == 2 * failed + 1
    &&& calls.take(failed) == diverted(steps, failed)
    &&& calls[failed] == (DivertCall::Divert {
        cid: steps[failed].0,
        raw_xy: steps[failed].1,
        error: Some(error),
    })
    &&& restored(steps, failed, calls.skip(failed + 1))
}

/// Whether a failed transaction leads from one history to another.
pub open spec fn failed_history(
    steps: Seq<(u16, bool)>,
    error: Seq<char>,
    before: Seq<DivertCall>,
    after: Seq<DivertCall>,
) -> bool {
    exists|failed: int, calls: Seq<DivertCall>|
        after == before + calls && #[trigger] rolled_back(steps, failed, error, calls)
}

/// Apply divert steps as one transaction: on any failure, restore every prior
/// success (as far as that works) and return the error.
pub fn apply_diverts_transactional<B: DivertBackend>(
    backend: &mut B,
    steps: &[(u16, bool)],
) -> (res: Result<ArmProgress, String>)
    ensures
        match res {
            Ok(progress) => {
                &&& progress.armed@ == armed_by(steps@, steps@.len() as int)
                &&& final(backend).history() == old(backend).history() + diverted(
                    steps@,
                    steps@.len() as int,
                )
            },
            Err(e) => failed_history(
                steps@,
                e@,
                old(backend).history(),
                final(backend).history(),
            ),
        },
{
    let ghost start = backend.history();
    let mut progress = ArmProgress::default();
    let mut failure: Option<String> = None;
    let mut i: usize = 0;
    assert(progress.armed@ =~= armed_by(steps@, 0));
    assert(start =~= start + diverted(steps@, 0));
    while i < steps.len() && failure.is_none()
        invariant
            i <= steps@.len(),
            start == old(backend).history(),
            progress.armed@ == armed_by(steps@, i as int),
            match failure {
                None => backend.history() == start + diverted(steps@, i as int),
                Some(e) => i < steps@.len() && backend.history() == (start + diverted(
                    steps@,
                    i as int,
                )).push(
                    DivertCall::Divert {
                        cid: steps@[i as int].0,
                        raw_xy: steps@[i as int].1,
                        error: Some(e@),
                    },
                ),
            },
        decreases
            steps@.len() - i,
            if failure is None {
                1int
            } else {
                0int
            },
    {
        let (cid, raw_xy) = steps[i];
        match backend.divert(cid, raw_xy) {
            Ok(()) => {
                progress.record(cid, raw_xy);
                assert(progress.armed@ =~= armed_by(steps@, i + 1));
                assert(backend.history() =~= start + diverted(steps@, i + 1));
                i = i + 1;
            },
            Err(e) => {
                failure = Some(e);
            },
        }
    }
    match failure {
        None => Ok(progress),
        Some(e) => {
            let ghost before = backend.history();
            let order = progress.rollback_order();
            restore_all(backend, order.as_slice());
            proof {
                let back = choose|back: Seq<DivertCall>|
                    backend.history() == before + back && #[trigger] restores(order@, back);
                let forward = diverted(steps@, i as int).push(before.last());
                let calls = forward + back;
                assert(calls.take(i as int) =~= diverted(steps@, i as int));
                assert(calls.skip(i + 1) =~= back);
                assert(rolled_back(steps@, i as int, e@, calls));
                assert(backend.history() =~= start + calls);
                assert(failed_history(steps@, e@, start, backend.history()));
            }
            Err(e)
        },
    }
}

/// Whether `calls` restore the controls of `order`, one after the other.
spec fn restores(order: Seq<ArmedDivert>, calls: Seq<DivertCall>) -> bool {
    &&& calls.len() == order.len()
    &&& forall|i: int|
        0 <= i < calls.len() ==> (#[trigger] calls[i] matches DivertCall::Restore { cid, .. } && cid
            == order[i].cid)
}

/// Restore each control of `order`. A restore that fails does not keep the
/// others from being restored.
fn restore_all<B: DivertBackend>(backend: &mut B, order: &[ArmedDivert])
    ensures
        exists|calls: Seq<DivertCall>|
            final(backend).history() == old(backend).history() + calls && #[trigger] restores(
                order@,
                calls,
            ),
{
    let ghost before = backend.history();
    let ghost mut calls = Seq::<DivertCall>::empty();
    let mut i: usize = 0;
    assert(before =~= before + calls);
    while i < order.len()
        invariant
            i <= order@.len(),
            before == old(backend).history(),
            restores(order@.take(i as int), calls),
            backend.history() == before + calls,
        decreases order@.len() - i,
    {
        let cid = order[i].cid;
        let outcome = backend.restore(cid);
        proof {
            let earlier = calls;
            calls = earlier.push(DivertCall::Restore { cid, error: error_of(outcome) });
            assert(backend.history() =~= before + calls);
            assert forall|k: int| 0 <= k < calls.len() implies (
            #[trigger] calls[k] matches DivertCall::Restore { cid, .. } && cid == order@.take(
                i + 1,
            )[k].cid) by {
                if k < i {
                    assert(earlier[k] == calls[k]);
                }
            }
        }
        i = i + 1;
    }
    assert(order@.take(i as int) =~= order@);
    assert(restores(order@, calls));
}

/// The controls that a list of calls leaves diverted, if none was before: a
/// call has an effect when it ends without an error.
pub open spec fn left_diverted(calls: Seq<DivertCall>) -> Set<u16>
    decreases calls.len(),
{
    if calls.len() == 0 {
        Set::empty()
    } else {
        let earlier = left_diverted(calls.drop_last());
        match calls.last() {
            DivertCall::Divert { cid, error: None, .. } => earlier.insert(cid),
            DivertCall::Restore { cid, error: None } => earlier.remove(cid),
            _ => earlier,
        }
    }
}

/// Whether a call is a restore of `cid` that ended with an error.
pub open spec fn refuses(call: DivertCall, cid: u16) -> bool {
    call matches DivertCall::Restore { cid: other, error: Some(_) } && other == cid
}

/// The controls for which a list of calls has a restore that ended with an
/// error.
pub open spec fn refused_restores(calls: Seq<DivertCall>) -> Set<u16> {
    Set::new(|cid: u16| exists|i: int| 0 <= i < calls.len() && refuses(#[trigger] calls[i], cid))
}

/// The controls of a list of steps.
pub open spec fn cids_of(steps: Seq<(u16, bool)>) -> Set<u16> {
    Set::new(|cid: u16| exists|i: int| 0 <= i < steps.len() && (#[trigger] steps[i]).0 == cid)
}

proof fn lemma_diverted_leaves(steps: Seq<(u16, bool)>, n: int)
    requires
        0 <= n <= steps.len(),
    ensures
        left_diverted(diverted(steps, n)) == cids_of(steps.take(n)),
    decreases n,
{
    if n == 0 {
        assert(cids_of(steps.take(0)) =~= Set::<u16>::empty());
    } else {
        lemma_diverted_leaves(steps, n - 1);
        let calls = diverted(steps, n);
        assert(calls.drop_last() =~= diverted(steps, n - 1));
        assert(calls.last() == (DivertCall::Divert {
            cid: steps[n - 1].0,
            raw_xy: steps[n - 1].1,
            error: None,
        }));
        let shorter = steps.take(n - 1);
        let longer = steps.take(n);
        assert forall|cid: u16| #[trigger] cids_of(longer).contains(cid) <==> cids_of(
            shorter,
        ).contains(cid) || cid == steps[n - 1].0 by {
            if cids_of(longer).contains(cid) {
                let i = choose|i: int| 0 <= i < longer.len() && (#[trigger] longer[i]).0 == cid;
                if i < n - 1 {
                    assert(shorter[i].0 == cid);
                }
            }
            if cids_of(shorter).contains(cid) {
                let i = choose|i: int| 0 <= i < shorter.len() && (#[trigger] shorter[i]).0 == cid;
                assert(longer[i].0 == cid);
            }
            assert(longer[n - 1] == steps[n - 1]);
        }
        assert(cids_of(longer) =~= cids_of(shorter).insert(steps[n - 1].0));
    }
}

proof fn lemma_restored_leaves(
    before: Seq<DivertCall>,
    steps: Seq<(u16, bool)>,
    n: int,
    calls: Seq<DivertCall>,
    done: int,
)
    requires
        0 <= done <= n <= steps.len(),
        restored(steps, n, calls),
    ensures
        forall|cid: u16| #[trigger]
            left_diverted(before + calls.take(done)).contains(cid) ==> left_diverted(
                before,
            ).contains(cid) && (refused_restores(calls).contains(cid) || forall|i: int|
                n - done <= i < n ==> (#[trigger] steps[i]).0 != cid),
    decreases done,
{
    if done == 0 {
        assert(before + calls.take(0) =~= before);
    } else {
        lemma_restored_leaves(before, steps, n, calls, done - 1);
        let all = before + calls.take(done);
        assert(all.drop_last() =~= before + calls.take(done - 1));
        assert(all.last() == calls[done - 1]);
        assert forall|cid: u16| #[trigger] left_diverted(all).contains(cid) implies left_diverted(
            before,
        ).contains(cid) && (refused_restores(calls).contains(cid) || forall|i: int|
            n - done <= i < n ==> (#[trigger] steps[i]).0 != cid) by {
            assert(left_diverted(before + calls.take(done - 1)).contains(cid));
            if steps[n - done].0 == cid {
                assert(refuses(calls[done - 1], cid));
            }
        }
    }
}

/// A transaction leaves all or nothing: a failed one leaves diverted only
/// controls whose own restore failed, a successful one leaves exactly the
/// controls of its steps.
pub proof fn law_transaction_is_all_or_nothing(
    steps: Seq<(u16, bool)>,
    failed: int,
    error: Seq<char>,
    calls: Seq<DivertCall>,
)
    ensures
        rolled_back(steps, failed, error, calls) ==> left_diverted(calls).subset_of(
            refused_restores(calls),
        ),
        rolled_back(steps, failed, error, calls) && refused_restores(calls) == Set::<u16>::empty()
            ==> left_diverted(calls) == Set::<u16>::empty(),
        left_diverted(diverted(steps, steps.len() as int)) == cids_of(steps),
{
    lemma_diverted_leaves(steps, steps.len() as int);
    assert(steps.take(steps.len() as int) =~= steps);
    if rolled_back(steps, failed, error, calls) {
        lemma_diverted_leaves(steps, failed);
        let forward = calls.take(failed + 1);
        let back = calls.skip(failed + 1);
        assert(forward.drop_last() =~= diverted(steps, failed));
        assert(forward.last() == calls[failed]);
        lemma_restored_leaves(forward, steps, failed, back, failed);
        assert(back.take(failed) =~= back);
        assert(forward + back =~= calls);
        assert forall|cid: u16| #[trigger] left_diverted(calls).contains(
            cid,
        ) implies refused_restores(calls).contains(cid) by {
            let prefix = steps.take(failed);
            assert(cids_of(prefix).contains(cid));
            let i = choose|i: int| 0 <= i < prefix.len() && (#[trigger] prefix[i]).0 == cid;
            assert(steps[i].0 == cid);
            let k = choose|k: int| 0 <= k < back.len() && refuses(#[trigger] back[k], cid);
            assert(calls[failed + 1 + k] == back[k]);
        }
        if refused_restores(calls) == Set::<u16>::empty() {
            assert(left_diverted(calls) =~= Set::<u16>::empty());
        }
    }
}

/// Every step of a plan is for the dedicated gesture button or a DPI control
/// of the table; the gesture button comes first, always with raw movement.
pub proof fn law_plan_names_known_controls(
    controls: Seq<CtrlIdInfo>,
    divert_gesture_button: bool,
    dpi_as_gesture: bool,
    i: int,
)
    requires
        0 <= i < plan_spec(controls, divert_gesture_button, dpi_as_gesture).len(),
    ensures
        ({
            let steps = plan_spec(controls, divert_gesture_button, dpi_as_gesture);
            let (cid, raw_xy) = steps[i];
            &&& cid == GESTURE_BUTTON_CID || dpi_cids().contains(cid)
            &&& row_of(controls, cid) is Some
            &&& raw_xy ==> row_of(controls, cid)->0.raw_xy
            &&& cid == GESTURE_BUTTON_CID ==> i == 0 && raw_xy && divert_gesture_button
            &&& cid != GESTURE_BUTTON_CID ==> row_of(controls, cid)->0.divertable && (raw_xy
                ==> dpi_as_gesture)
        }),
{
    let steps = plan_spec(controls, divert_gesture_button, dpi_as_gesture);
    let first = gesture_step(controls, divert_gesture_button);
    let step_of = |cid: u16| dpi_step(controls, dpi_as_gesture, cid);
    let rest = dpi_cids().filter_map(step_of);
    if i >= first.len() {
        assert(rest.contains(steps[i])) by {
            assert(rest[i - first.len()] == steps[i]);
        }
        dpi_cids().lemma_filter_map_contains(step_of, steps[i]);
        let cid = choose|cid: u16| #[trigger] dpi_cids().contains(cid) && step_of(cid) == Some(
            steps[i],
        );
        assert(cid == steps[i].0);
        assert(dpi_cids()[0] == 0x00c4 && dpi_cids()[1] == 0x00ed && dpi_cids()[2] == 0x00fd);
    }
}

/// A DPI control that can be diverted always is, so that its plain press can be
/// rebound; raw movement is asked for just when it gestures and can report it.
pub proof fn law_dpi_is_always_diverted(
    controls: Seq<CtrlIdInfo>,
    divert_gesture_button: bool,
    dpi_as_gesture: bool,
    cid: u16,
)
    requires
        dpi_cids().contains(cid),
        row_of(controls, cid) matches Some(row) && row.divertable,
    ensures
        plan_spec(controls, divert_gesture_button, dpi_as_gesture).contains(
            (cid, dpi_as_gesture && row_of(controls, cid)->0.raw_xy),
        ),
{
    let steps = plan_spec(controls, divert_gesture_button, dpi_as_gesture);
    let first = gesture_step(controls, divert_gesture_button);
    let step_of = |cid: u16| dpi_step(controls, dpi_as_gesture, cid);
    let rest = dpi_cids().filter_map(step_of);
    let i = choose|i: int| 0 <= i < dpi_cids().len() && dpi_cids()[i] == cid;
    lemma_filter_map_keeps(dpi_cids(), step_of, i);
    let step = step_of(cid)->0;
    let j = choose|j: int| 0 <= j < rest.len() && rest[j] == step;
    assert(steps[first.len() + j] == step);
}

/// The gesture button is diverted just when it is wanted and can report raw
/// movement.
pub proof fn law_gesture_button_needs_raw_movement(
    controls: Seq<CtrlIdInfo>,
    divert_gesture_button: bool,
    dpi_as_gesture: bool,
)
    ensures
        cids_of(plan_spec(controls, divert_gesture_button, dpi_as_gesture)).contains(
            GESTURE_BUTTON_CID,
        ) <==> divert_gesture_button && (row_of(controls, GESTURE_BUTTON_CID) matches Some(row)
            && row.raw_xy),
{
    let steps = plan_spec(controls, divert_gesture_button, dpi_as_gesture);
    if cids_of(steps).contains(GESTURE_BUTTON_CID) {
        let i = choose|i: int| 0 <= i < steps.len() && (#[trigger] steps[i]).0
            == GESTURE_BUTTON_CID;
        law_plan_names_known_controls(controls, divert_gesture_button, dpi_as_gesture, i);
    }
    if divert_gesture_button && (row_of(controls, GESTURE_BUTTON_CID) matches Some(row)
        && row.raw_xy) {
        assert(steps[0].0 == GESTURE_BUTTON_CID);
    }
}

/// A plan names no control twice.
pub proof fn law_plan_names_each_control_once(
    controls: Seq<CtrlIdInfo>,
    divert_gesture_button: bool,
    dpi_as_gesture: bool,
)
    ensures
        plan_spec(controls, divert_gesture_button, dpi_as_gesture).map_values(
            |step: (u16, bool)| step.0,
        ).no_duplicates(),
{
    let step_of = |cid: u16| dpi_step(controls, dpi_as_gesture, cid);
    lemma_dpi_steps(step_of);
    assert(dpi_cids()[0] == 0x00c4 && dpi_cids()[1] == 0x00ed && dpi_cids()[2] == 0x00fd);
}

/// Whether the DPI button gestures changes only the raw-movement flags of a
/// plan, never which controls it names nor their order.
pub proof fn law_dpi_mode_changes_only_raw_movement(
    controls: Seq<CtrlIdInfo>,
    divert_gesture_button: bool,
)
    ensures
        plan_spec(controls, divert_gesture_button, true).map_values(|step: (u16, bool)| step.0)
            == plan_spec(controls, divert_gesture_button, false).map_values(
            |step: (u16, bool)| step.0,
        ),
{
    lemma_dpi_steps(|cid: u16| dpi_step(controls, true, cid));
    lemma_dpi_steps(|cid: u16| dpi_step(controls, false, cid));
    assert(plan_spec(controls, divert_gesture_button, true).map_values(|step: (u16, bool)| step.0)
        =~= plan_spec(controls, divert_gesture_button, false).map_values(
        |step: (u16, bool)| step.0,
    ));
}

/// The steps for the three DPI controls, written out.
proof fn lemma_dpi_steps(step_of: spec_fn(u16) -> Option<(u16, bool)>)
    ensures
        dpi_cids().filter_map(step_of) == one(step_of(dpi_cids()[0])) + one(step_of(dpi_cids()[1]))
            + one(step_of(dpi_cids()[2])),
{
    reveal(Seq::filter_map);
    let all = dpi_cids();
    assert(all.take(0).filter_map(step_of) =~= Seq::<(u16, bool)>::empty());
    all.lemma_filter_map_take_succ(step_of, 0);
    all.lemma_filter_map_take_succ(step_of, 1);
    all.lemma_filter_map_take_succ(step_of, 2);
    assert(all.take(3) =~= all);
    assert(all.filter_map(step_of) =~= one(step_of(all[0])) + one(step_of(all[1])) + one(
        step_of(all[2]),
    ));
}

/// The list of what an option holds.
spec fn one<A>(item: Option<A>) -> Seq<A> {
    match item {
        Some(item) => seq![item],
        None => Seq::empty(),
    }
}

/// The row of a control is the first one in the table with its id; there is
/// none just when no row has that id.
pub proof fn law_first_row_counts(controls: Seq<CtrlIdInfo>, cid: u16, i: int)
    requires
        0 <= i < controls.len(),
        controls[i].cid == cid,
        forall|j: int| 0 <= j < i ==> (#[trigger] controls[j]).cid != cid,
    ensures
        row_of(controls, cid) == Some(controls[i]),
{
    let wanted = |c: CtrlIdInfo| c.cid == cid;
    lemma_none_before(controls, wanted, i);
    lemma_take_filter(controls, i, wanted);
    lemma_filter_prefix(controls, i + 1, wanted);
    let rows = controls.filter(wanted);
    assert(rows.take(1)[0] == rows[0]);
}

/// A control without a row in the table has no row.
pub proof fn law_missing_row_is_none(controls: Seq<CtrlIdInfo>, cid: u16)
    requires
        forall|j: int| 0 <= j < controls.len() ==> (#[trigger] controls[j]).cid != cid,
    ensures
        row_of(controls, cid) is None,
{
    let wanted = |c: CtrlIdInfo| c.cid == cid;
    lemma_none_before(controls, wanted, controls.len() as int);
    assert(controls.take(controls.len() as int) =~= controls);
}

/// A filter keeps nothing of a prefix in which nothing satisfies it.
proof fn lemma_none_before(controls: Seq<CtrlIdInfo>, wanted: spec_fn(CtrlIdInfo) -> bool, n: int)
    requires
        0 <= n <= controls.len(),
        forall|j: int| 0 <= j < n ==> !wanted(#[trigger] controls[j]),
    ensures
        controls.take(n).filter(wanted) == Seq::<CtrlIdInfo>::empty(),
    decreases n,
{
    if n == 0 {
        reveal(Seq::filter);
        assert(controls.take(0).filter(wanted) =~= Seq::<CtrlIdInfo>::empty());
    } else {
        lemma_none_before(controls, wanted, n - 1);
        lemma_take_filter(controls, n - 1, wanted);
    }
}

/// A plan starts with the dedicated gesture button, if it has it, and goes on
/// with the DPI controls in the order in which they are listed.
pub proof fn law_plan_is_in_order(
    controls: Seq<CtrlIdInfo>,
    divert_gesture_button: bool,
    dpi_as_gesture: bool,
    i: int,
    j: int,
)
    requires
        0 <= i < j < plan_spec(controls, divert_gesture_button, dpi_as_gesture).len(),
    ensures
        ({
            let steps = plan_spec(controls, divert_gesture_button, dpi_as_gesture);
            let order = seq![0x00c3u16, 0x00c4u16, 0x00edu16, 0x00fdu16];
            exists|a: int, b: int|
                0 <= a < b < 4 && #[trigger] order[a] == steps[i].0 && #[trigger] order[b]
                    == steps[j].0
        }),
{
    let steps = plan_spec(controls, divert_gesture_button, dpi_as_gesture);
    let order = seq![0x00c3u16, 0x00c4u16, 0x00edu16, 0x00fdu16];
    lemma_dpi_steps(|cid: u16| dpi_step(controls, dpi_as_gesture, cid));
    assert(dpi_cids()[0] == order[1] && dpi_cids()[1] == order[2] && dpi_cids()[2] == order[3]);
    assert(order[0] == GESTURE_BUTTON_CID);
}

/// A failed transaction makes these calls: each step before the failed one, in
/// order and with its own flag, then the failed one, then a restore of each
/// earlier step, the last one first.
pub proof fn law_rollback_is_last_first(
    steps: Seq<(u16, bool)>,
    failed: int,
    error: Seq<char>,
    calls: Seq<DivertCall>,
    i: int,
)
    requires
        rolled_back(steps, failed, error, calls),
        0 <= i < failed,
    ensures
        calls.len() == 2 * failed + 1,
        calls[i] == (DivertCall::Divert { cid: steps[i].0, raw_xy: steps[i].1, error: None }),
        calls[failed] == (DivertCall::Divert {
            cid: steps[failed].0,
            raw_xy: steps[failed].1,
            error: Some(error),
        }),
        calls[2 * failed - i] matches DivertCall::Restore { cid, .. } && cid == steps[i].0,
{
    assert(calls.take(failed)[i] == calls[i]);
    let back = calls.skip(failed + 1);
    assert(back[failed - 1 - i] == calls[2 * failed - i]);
}

/// A transaction fails only where the backend does: behind the calls made before
/// there is a divert of one of its steps that ended with the reported error.
pub proof fn law_failure_is_the_backends(
    steps: Seq<(u16, bool)>,
    error: Seq<char>,
    before: Seq<DivertCall>,
    after: Seq<DivertCall>,
)
    requires
        failed_history(steps, error, before, after),
    ensures
        exists|failed: int|
            0 <= failed < steps.len() && before.len() + 2 * failed + 1 == after.len()
                && #[trigger] after[before.len() + failed] == (DivertCall::Divert {
                cid: steps[failed].0,
                raw_xy: steps[failed].1,
                error: Some(error),
            }),
        after.take(before.len() as int) == before,
{
    let (failed, calls) = choose|failed: int, calls: Seq<DivertCall>|
        after == before + calls && #[trigger] rolled_back(steps, failed, error, calls);
    assert(after[before.len() + failed] == calls[failed]);
    assert(after.take(before.len() as int) =~= before);
}

/// A successful transaction diverts each step once, in order and with its own
/// flag, restores nothing, and records just that.
pub proof fn law_success_diverts_every_step(steps: Seq<(u16, bool)>, i: int)
    requires
        0 <= i < steps.len(),
    ensures
        diverted(steps, steps.len() as int).len() == steps.len(),
        diverted(steps, steps.len() as int)[i] == (DivertCall::Divert {
            cid: steps[i].0,
            raw_xy: steps[i].1,
            error: None,
        }),
        armed_by(steps, steps.len() as int).len() == steps.len(),
        armed_by(steps, steps.len() as int)[i] == (ArmedDivert {
            cid: steps[i].0,
            raw_xy: steps[i].1,
        }),
{
}

} // verus!
