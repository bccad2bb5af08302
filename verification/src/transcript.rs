//! What an arming asks for, reply by reply.
//!
//! The laws here follow an arming through its whole course: which request comes
//! after which replies, and what becomes of it where one fails.

use vstd::prelude::*;

use crate::arming::{
    answers, arming_after, describes, law_restores_are_the_plan, plan_of, reprog_restores, ArmReply,
    ArmRequest, ArmSettings, ArmedControls, ArmingView, GestureError, Stage,
};
use crate::divert::{armed_by, dpi_step, plan_spec, ArmedDivert};
use crate::maps::lemma_filter_map_len;
use crate::wire::{dpi_cids, CtrlIdInfo};

verus! {

/// One more reply leads to the next state, and is one to the request made.
pub proof fn law_one_more_reply(settings: ArmSettings, replies: Seq<ArmReply>, reply: ArmReply)
    ensures
        arming_after(settings, replies.push(reply)) == arming_after(settings, replies).next(reply),
        answers(settings, replies.push(reply)) <==> answers(settings, replies) && arming_after(
            settings,
            replies,
        ).accepts(reply),
{
    assert(replies.push(reply).drop_last() =~= replies);
}

/// The replies of a device that has the reprogrammable controls at `reprog` and
/// a table of `count` rows, of which `rows` were read.
pub open spec fn table_replies(reprog: u8, count: u8, rows: Seq<CtrlIdInfo>) -> Seq<ArmReply> {
    seq![ArmReply::Done, ArmReply::Feature(Some(reprog)), ArmReply::Count(count)] + rows.map_values(
        |row: CtrlIdInfo| ArmReply::Control(row),
    )
}

/// The replies of such a device that has then made `done` diverts.
pub open spec fn divert_replies(reprog: u8, rows: Seq<CtrlIdInfo>, done: nat) -> Seq<ArmReply> {
    table_replies(reprog, rows.len() as u8, rows) + Seq::new(done, |i: int| ArmReply::Done)
}

/// The plan of a table.
pub open spec fn plan_for(settings: ArmSettings, rows: Seq<CtrlIdInfo>) -> Seq<(u16, bool)> {
    plan_spec(rows, settings.divert_gesture_button, settings.dpi_as_gesture)
}

/// An arming first reaches the device, then looks for the reprogrammable
/// controls, then asks how many there are. Without them it goes on to the thumb
/// wheel, or is done where that is not wanted.
pub proof fn law_arming_begins(settings: ArmSettings, reprog: u8)
    ensures
        arming_after(settings, seq![]).request() == Some(ArmRequest::OpenDevice),
        arming_after(settings, seq![ArmReply::Done]).request() == Some(
            ArmRequest::FindFeature(0x1b04),
        ),
        arming_after(settings, seq![ArmReply::Done, ArmReply::Feature(Some(reprog))]).request()
            == Some(ArmRequest::CountControls),
        ({
            let without = arming_after(settings, seq![ArmReply::Done, ArmReply::Feature(None)]);
            &&& without.request() == if settings.capture_thumbwheel {
                Some(ArmRequest::FindFeature(0x2150))
            } else {
                None
            }
            &&& !settings.capture_thumbwheel ==> without.stage is Armed
            &&& without.reprog_index is None && without.thumb_index is None
            &&& without.armed.len() == 0
        }),
{
    let none = Seq::<ArmReply>::empty();
    law_one_more_reply(settings, none, ArmReply::Done);
    let opened = none.push(ArmReply::Done);
    law_one_more_reply(settings, opened, ArmReply::Feature(Some(reprog)));
    law_one_more_reply(settings, opened, ArmReply::Feature(None));
    assert(opened =~= seq![ArmReply::Done]);
    assert(opened.push(ArmReply::Feature(Some(reprog))) =~= seq![
        ArmReply::Done,
        ArmReply::Feature(Some(reprog)),
    ]);
    assert(opened.push(ArmReply::Feature(None)) =~= seq![
        ArmReply::Done,
        ArmReply::Feature(None),
    ]);
}

proof fn lemma_counted(settings: ArmSettings, reprog: u8, count: u8)
    ensures
        ({
            let before = seq![ArmReply::Done, ArmReply::Feature(Some(reprog))];
            let state = arming_after(settings, before);
            &&& answers(settings, before)
            &&& state.stage is Count
            &&& state.reprog_index == Some(reprog)
            &&& state.settings == settings
            &&& state.thumb_index is None
            &&& state.controls == Seq::<CtrlIdInfo>::empty()
            &&& state.armed == Seq::<ArmedDivert>::empty()
            &&& before.push(ArmReply::Count(count)) == table_replies(reprog, count, Seq::empty())
        }),
{
    let none = Seq::<ArmReply>::empty();
    let opened = none.push(ArmReply::Done);
    law_one_more_reply(settings, none, ArmReply::Done);
    law_one_more_reply(settings, opened, ArmReply::Feature(Some(reprog)));
    let before = seq![ArmReply::Done, ArmReply::Feature(Some(reprog))];
    assert(opened.push(ArmReply::Feature(Some(reprog))) =~= before);
    assert(before.push(ArmReply::Count(count)) =~= table_replies(reprog, count, Seq::empty()));
}

/// The table is read row by row from the first on, each row once, and every row
/// read is kept in its place.
pub proof fn law_every_row_is_read(
    settings: ArmSettings,
    reprog: u8,
    count: u8,
    rows: Seq<CtrlIdInfo>,
)
    requires
        rows.len() < count,
    ensures
        ({
            let state = arming_after(settings, table_replies(reprog, count, rows));
            &&& answers(settings, table_replies(reprog, count, rows))
            &&& state.request() == Some(ArmRequest::ReadControl(rows.len() as u8))
            &&& state.stage == (Stage::Read { index: rows.len() as u8, count })
            &&& state.controls == rows
            &&& state.reprog_index == Some(reprog)
            &&& state.thumb_index is None
            &&& state.settings == settings
            &&& state.armed == Seq::<ArmedDivert>::empty()
        }),
    decreases rows.len(),
{
    if rows.len() == 0 {
        lemma_counted(settings, reprog, count);
        assert(rows =~= Seq::<CtrlIdInfo>::empty());
        law_one_more_reply(
            settings,
            seq![ArmReply::Done, ArmReply::Feature(Some(reprog))],
            ArmReply::Count(count),
        );
    } else {
        let earlier = rows.drop_last();
        law_every_row_is_read(settings, reprog, count, earlier);
        law_one_more_reply(
            settings,
            table_replies(reprog, count, earlier),
            ArmReply::Control(rows.last()),
        );
        assert(table_replies(reprog, count, earlier).push(ArmReply::Control(rows.last()))
            =~= table_replies(reprog, count, rows));
        assert(earlier.push(rows.last()) =~= rows);
    }
}

proof fn lemma_short_plan(settings: ArmSettings, rows: Seq<CtrlIdInfo>)
    ensures
        plan_for(settings, rows).len() <= 4,
{
    lemma_filter_map_len(dpi_cids(), |cid: u16| dpi_step(rows, settings.dpi_as_gesture, cid));
}

/// Where an arming stands when it has read its table and made `done` diverts.
spec fn has_diverted(
    settings: ArmSettings,
    reprog: u8,
    rows: Seq<CtrlIdInfo>,
    done: nat,
    state: ArmingView,
) -> bool {
    let plan = plan_for(settings, rows);
    &&& state.settings == settings
    &&& state.controls == rows
    &&& state.steps == plan
    &&& state.reprog_index == Some(reprog)
    &&& state.thumb_index is None
    &&& state.armed == armed_by(plan, done as int)
    &&& state.stage == if done < plan.len() {
        Stage::Divert { next: done as usize }
    } else if settings.capture_thumbwheel {
        Stage::FindThumbwheel
    } else {
        Stage::Armed
    }
}

proof fn lemma_table_is_read(settings: ArmSettings, reprog: u8, rows: Seq<CtrlIdInfo>)
    requires
        rows.len() <= 255,
    ensures
        answers(settings, divert_replies(reprog, rows, 0)),
        has_diverted(
            settings,
            reprog,
            rows,
            0,
            arming_after(settings, divert_replies(reprog, rows, 0)),
        ),
{
    let count = rows.len() as u8;
    let plan = plan_for(settings, rows);
    assert(divert_replies(reprog, rows, 0) =~= table_replies(reprog, count, rows));
    assert(armed_by(plan, 0) =~= Seq::<ArmedDivert>::empty());
    if rows.len() == 0 {
        lemma_counted(settings, reprog, count);
        assert(rows =~= Seq::<CtrlIdInfo>::empty());
        law_one_more_reply(
            settings,
            seq![ArmReply::Done, ArmReply::Feature(Some(reprog))],
            ArmReply::Count(count),
        );
    } else {
        let earlier = rows.drop_last();
        law_every_row_is_read(settings, reprog, count, earlier);
        law_one_more_reply(
            settings,
            table_replies(reprog, count, earlier),
            ArmReply::Control(rows.last()),
        );
        assert(table_replies(reprog, count, earlier).push(ArmReply::Control(rows.last()))
            =~= table_replies(reprog, count, rows));
        assert(earlier.push(rows.last()) =~= rows);
    }
}

proof fn lemma_diverts(settings: ArmSettings, reprog: u8, rows: Seq<CtrlIdInfo>, done: nat)
    requires
        rows.len() <= 255,
        done <= plan_for(settings, rows).len(),
    ensures
        answers(settings, divert_replies(reprog, rows, done)),
        has_diverted(
            settings,
            reprog,
            rows,
            done,
            arming_after(settings, divert_replies(reprog, rows, done)),
        ),
    decreases done,
{
    if done == 0 {
        lemma_table_is_read(settings, reprog, rows);
    } else {
        let plan = plan_for(settings, rows);
        let earlier = (done - 1) as nat;
        lemma_short_plan(settings, rows);
        lemma_diverts(settings, reprog, rows, earlier);
        law_one_more_reply(settings, divert_replies(reprog, rows, earlier), ArmReply::Done);
        assert(divert_replies(reprog, rows, earlier).push(ArmReply::Done) =~= divert_replies(
            reprog,
            rows,
            done,
        ));
        assert(armed_by(plan, earlier as int).push(
            ArmedDivert { cid: plan[earlier as int].0, raw_xy: plan[earlier as int].1 },
        ) =~= armed_by(plan, done as int));
    }
}

/// Once the whole table is read, the steps of its plan are diverted one after
/// the other, each with its own flag. After the last one the thumb wheel is
/// looked for, or arming is done where that is not wanted; nothing is left out
/// of what was diverted.
pub proof fn law_every_step_is_diverted(
    settings: ArmSettings,
    reprog: u8,
    rows: Seq<CtrlIdInfo>,
    done: nat,
)
    requires
        rows.len() <= 255,
        done <= plan_for(settings, rows).len(),
    ensures
        ({
            let plan = plan_for(settings, rows);
            let state = arming_after(settings, divert_replies(reprog, rows, done));
            &&& answers(settings, divert_replies(reprog, rows, done))
            &&& state.request() == if done < plan.len() {
                Some(
                    ArmRequest::SetReporting {
                        cid: plan[done as int].0,
                        divert: true,
                        raw_xy: plan[done as int].1,
                    },
                )
            } else if settings.capture_thumbwheel {
                Some(ArmRequest::FindFeature(0x2150))
            } else {
                None
            }
            &&& done == plan.len() && !settings.capture_thumbwheel ==> state.stage is Armed
            &&& state.controls == rows
            &&& state.reprog_index == Some(reprog)
            &&& state.thumb_index is None
            &&& state.armed.len() == done
            &&& forall|i: int|
                0 <= i < done ==> #[trigger] state.armed[i] == (ArmedDivert {
                    cid: plan[i].0,
                    raw_xy: plan[i].1,
                })
        }),
{
    lemma_short_plan(settings, rows);
    lemma_diverts(settings, reprog, rows, done);
}

/// The thumb wheel is looked for, then asked whether it can tell single taps,
/// and diverted just where it says so. A wheel that cannot, that does not say or
/// that is not there is left alone, and arming is done all the same. None of
/// this touches the controls.
pub proof fn law_wheel_is_asked_before_it_is_diverted(
    state: ArmingView,
    index: u8,
    text: String,
)
    requires
        state.request() == Some(ArmRequest::FindFeature(0x2150)),
        state.thumb_index is None,
    ensures
        ({
            let missing = state.next(ArmReply::Feature(None));
            let found = state.next(ArmReply::Feature(Some(index)));
            let silent = found.next(ArmReply::Failed(text));
            let deaf = found.next(ArmReply::Thumbwheel { single_tap: false });
            let willing = found.next(ArmReply::Thumbwheel { single_tap: true });
            let diverted = willing.next(ArmReply::Done);
            &&& missing.stage is Armed && missing.thumb_index is None
            &&& found.request() == Some(ArmRequest::ReadThumbwheel)
            &&& silent.stage is Armed && silent.thumb_index is None
            &&& deaf.stage is Armed && deaf.thumb_index is None
            &&& willing.request() == Some(ArmRequest::SetThumbwheel { divert: true })
            &&& diverted.stage is Armed && diverted.thumb_index == Some(index)
            &&& missing.armed == state.armed && silent.armed == state.armed && deaf.armed
                == state.armed && diverted.armed == state.armed
            &&& missing.reprog_index == state.reprog_index && silent.reprog_index
                == state.reprog_index && deaf.reprog_index == state.reprog_index
                && diverted.reprog_index == state.reprog_index
        }),
{
}

/// A failure before the first divert ends arming at once: with the index of the
/// device where that was not reached, else with what the device said.
pub proof fn law_early_failures_end_arming(state: ArmingView, text: String)
    ensures
        state.request() == Some(ArmRequest::OpenDevice) ==> state.next(
            ArmReply::Failed(text),
        ).stage == Stage::Failed(GestureError::DeviceUnreachable(state.settings.slot)),
        state.request() == Some(ArmRequest::FindFeature(0x1b04)) || state.request() == Some(
            ArmRequest::CountControls,
        ) || (state.request() matches Some(ArmRequest::ReadControl(_))) ==> state.next(
            ArmReply::Failed(text),
        ).stage == Stage::Failed(GestureError::Hidpp(text)),
{
}

/// Where a run of replies leads from a state.
pub open spec fn run_from(state: ArmingView, replies: Seq<ArmReply>) -> ArmingView
    decreases replies.len(),
{
    if replies.len() == 0 {
        state
    } else {
        run_from(state, replies.drop_last()).next(replies.last())
    }
}

/// Whether a state hands back these controls, in this order and whatever the
/// single hand-backs end with, and then ends with an error.
pub open spec fn hands_back(
    state: ArmingView,
    cids: Seq<u16>,
    error: GestureError,
    replies: Seq<ArmReply>,
) -> bool {
    let after = run_from(state, replies);
    &&& replies.len() < cids.len() ==> after.request() == Some(
        ArmRequest::SetReporting {
            cid: cids[replies.len() as int],
            divert: false,
            raw_xy: false,
        },
    )
    &&& replies.len() == cids.len() ==> after.stage == Stage::Failed(error)
}

proof fn lemma_hands_back(
    state: ArmingView,
    cids: Seq<u16>,
    error: GestureError,
    replies: Seq<ArmReply>,
)
    requires
        replies.len() <= cids.len() <= usize::MAX,
        forall|i: int|
            0 <= i < replies.len() ==> (#[trigger] replies[i] is Done || replies[i] is Failed),
    ensures
        hands_back(state.abandoned(cids, error), cids, error, replies),
        run_from(state.abandoned(cids, error), replies).rollback == cids,
        replies.len() < cids.len() ==> run_from(state.abandoned(cids, error), replies).stage == (
        Stage::Rollback { next: replies.len() as usize, error }),
    decreases replies.len(),
{
    if replies.len() > 0 {
        let earlier = replies.drop_last();
        assert forall|i: int| 0 <= i < earlier.len() implies (#[trigger] earlier[i] is Done
            || earlier[i] is Failed) by {
            assert(earlier[i] == replies[i]);
        }
        lemma_hands_back(state, cids, error, earlier);
        assert(replies[replies.len() - 1] == replies.last());
    }
}

/// A failed divert hands back the diverts made before it, the last one first,
/// whatever the single hand-backs end with; then arming ends with what the
/// failed divert said.
pub proof fn law_failed_divert_hands_back_last_first(
    settings: ArmSettings,
    reprog: u8,
    rows: Seq<CtrlIdInfo>,
    done: nat,
    text: String,
    replies: Seq<ArmReply>,
)
    requires
        rows.len() <= 255,
        done < plan_for(settings, rows).len(),
        replies.len() <= done,
        forall|i: int|
            0 <= i < replies.len() ==> (#[trigger] replies[i] is Done || replies[i] is Failed),
    ensures
        hands_back(
            arming_after(
                settings,
                divert_replies(reprog, rows, done).push(ArmReply::Failed(text)),
            ),
            Seq::new(done, |k: int| plan_for(settings, rows)[done - 1 - k].0),
            GestureError::Hidpp(text),
            replies,
        ),
{
    let plan = plan_for(settings, rows);
    let before = divert_replies(reprog, rows, done);
    let state = arming_after(settings, before);
    let cids = Seq::new(done, |k: int| plan[done - 1 - k].0);
    lemma_short_plan(settings, rows);
    lemma_diverts(settings, reprog, rows, done);
    law_one_more_reply(settings, before, ArmReply::Failed(text));
    assert(state.armed.reverse().map_values(|d: ArmedDivert| d.cid) =~= cids);
    lemma_hands_back(state, cids, GestureError::Hidpp(text), replies);
}

/// A failure at the thumb wheel, when it is looked for or when it is diverted,
/// hands back every control of the plan, in its order and whatever the single
/// hand-backs end with; then arming ends with what the failed request said.
pub proof fn law_failed_wheel_hands_back_the_plan(
    settings: ArmSettings,
    before: Seq<ArmReply>,
    text: String,
    replies: Seq<ArmReply>,
)
    requires
        answers(settings, before),
        arming_after(settings, before).request() == Some(ArmRequest::FindFeature(0x2150))
            || arming_after(settings, before).request() == Some(
            ArmRequest::SetThumbwheel { divert: true },
        ),
        arming_after(settings, before).reprog_index is Some,
        replies.len() <= plan_of(settings, arming_after(settings, before)).len(),
        forall|i: int|
            0 <= i < replies.len() ==> (#[trigger] replies[i] is Done || replies[i] is Failed),
    ensures
        hands_back(
            arming_after(settings, before.push(ArmReply::Failed(text))),
            plan_of(settings, arming_after(settings, before)).map_values(
                |step: (u16, bool)| step.0,
            ),
            GestureError::Hidpp(text),
            replies,
        ),
{
    let state = arming_after(settings, before);
    let cids = plan_of(settings, state).map_values(|step: (u16, bool)| step.0);
    law_restores_are_the_plan(settings, before);
    assert(reprog_restores(state.armed) =~= cids);
    lemma_short_plan(settings, state.controls);
    law_one_more_reply(settings, before, ArmReply::Failed(text));
    lemma_hands_back(state, cids, GestureError::Hidpp(text), replies);
}

/// A failure at the thumb wheel of a device without the reprogrammable controls
/// ends arming at once.
pub proof fn law_failed_wheel_without_controls(
    settings: ArmSettings,
    before: Seq<ArmReply>,
    text: String,
)
    requires
        answers(settings, before),
        arming_after(settings, before).request() == Some(ArmRequest::FindFeature(0x2150))
            || arming_after(settings, before).request() == Some(
            ArmRequest::SetThumbwheel { divert: true },
        ),
        arming_after(settings, before).reprog_index is None,
    ensures
        arming_after(settings, before.push(ArmReply::Failed(text))).stage == Stage::Failed(
            GestureError::Hidpp(text),
        ),
{
    law_restores_are_the_plan(settings, before);
    law_one_more_reply(settings, before, ArmReply::Failed(text));
}

/// What was asked for stays the same through the whole of an arming.
pub proof fn law_settings_are_kept(settings: ArmSettings, replies: Seq<ArmReply>)
    ensures
        arming_after(settings, replies).settings == settings,
    decreases replies.len(),
{
    if replies.len() > 0 {
        law_settings_are_kept(settings, replies.drop_last());
    }
}

/// A device that cannot be reached is reported by its own index.
pub proof fn law_unreachable_device_is_named(settings: ArmSettings, text: String)
    ensures
        arming_after(settings, seq![ArmReply::Failed(text)]).stage == Stage::Failed(
            GestureError::DeviceUnreachable(settings.slot),
        ),
{
    law_one_more_reply(settings, Seq::empty(), ArmReply::Failed(text));
    assert(Seq::<ArmReply>::empty().push(ArmReply::Failed(text)) =~= seq![ArmReply::Failed(text)]);
}

/// A successful arming reports each feature at the index at which the device
/// said that it is, and the wheel just where it was diverted.
pub proof fn law_report_tells_the_features(
    settings: ArmSettings,
    reprog: u8,
    rows: Seq<CtrlIdInfo>,
    index: u8,
    controls: ArmedControls,
)
    requires
        rows.len() <= 255,
    ensures
        ({
            let base = divert_replies(reprog, rows, plan_for(settings, rows).len());
            let with_wheel = base.push(ArmReply::Feature(Some(index))).push(
                ArmReply::Thumbwheel { single_tap: true },
            ).push(ArmReply::Done);
            &&& !settings.capture_thumbwheel && describes(controls, arming_after(settings, base))
                ==> controls.reprog_index == Some(reprog) && controls.thumb_index is None
            &&& settings.capture_thumbwheel && describes(
                controls,
                arming_after(settings, with_wheel),
            ) ==> controls.reprog_index == Some(reprog) && controls.thumb_index == Some(index)
                && arming_after(settings, with_wheel).stage is Armed && answers(
                settings,
                with_wheel,
            )
        }),
{
    let done = plan_for(settings, rows).len();
    let base = divert_replies(reprog, rows, done);
    lemma_diverts(settings, reprog, rows, done);
    law_one_more_reply(settings, base, ArmReply::Feature(Some(index)));
    let found = base.push(ArmReply::Feature(Some(index)));
    law_one_more_reply(settings, found, ArmReply::Thumbwheel { single_tap: true });
    law_one_more_reply(
        settings,
        found.push(ArmReply::Thumbwheel { single_tap: true }),
        ArmReply::Done,
    );
}

} // verus!
