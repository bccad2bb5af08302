//! Turning device reports into captured inputs.
//!
//! The functions here have no opinion on what an input does. Diverting the
//! thumb wheel stops native horizontal scroll, so its rotation is passed on to
//! be scrolled again.

use vstd::prelude::*;

use crate::binding::{ButtonId, GestureDirection};
use crate::swipe::{after_moves, Hold, Movement, SwipeAccumulator};
use crate::wire::{
    control_event, decode_event, decode_wheel_event, header_of, read_report, wheel_event,
    ControlEventView, RawControlEvent, RawReport, ThumbwheelEvent, GESTURE_BUTTON_CID,
};

verus! {

/// One input captured from the active device.
#[derive(Clone, Copy, Debug, PartialEq, Eq, Structural)]
pub enum CapturedInput {
    /// A completed hold+swipe (or plain click) on a diverted control that is
    /// in gesture mode.
    Gesture {
        /// Which physical control produced the gesture.
        button: ButtonId,
        /// Committed swipe direction, or [`GestureDirection::Click`] for a
        /// press that never crossed the swipe threshold.
        direction: GestureDirection,
    },
    /// A diverted button was pressed: the DPI button when it is not in gesture
    /// mode, or the thumb-wheel single tap.
    ButtonPressed(ButtonId),
    /// Thumb-wheel rotation to scroll again, in the wheel's increments.
    Scroll(i16),
}

/// Movement and button state accumulated across messages.
#[derive(Clone, Copy, Debug, PartialEq, Eq, Structural)]
pub struct CaptureAccum {
    /// Mid-swipe state of the dedicated gesture button.
    pub gesture_swipe: SwipeAccumulator,
    /// Mid-swipe state of the DPI button when it is in gesture mode.
    pub dpi_swipe: SwipeAccumulator,
    /// Whether any DPI control was held in the last event, for rising-edge
    /// press detection when the DPI button is not gesturing.
    pub dpi_down: bool,
}

/// The state of a session that has seen no event.
pub open spec fn quiet() -> CaptureAccum {
    CaptureAccum {
        gesture_swipe: SwipeAccumulator::idle(),
        dpi_swipe: SwipeAccumulator::idle(),
        dpi_down: false,
    }
}

impl Default for CaptureAccum {
    fn default() -> (res: CaptureAccum)
        ensures
            res == quiet(),
    {
        CaptureAccum {
            gesture_swipe: SwipeAccumulator::default(),
            dpi_swipe: SwipeAccumulator::default(),
            dpi_down: false,
        }
    }
}

/// A swipe state after a frame that says whether its button is held.
pub open spec fn held_state(swipe: SwipeAccumulator, held: bool, now_ms: u64) -> SwipeAccumulator {
    if held && swipe.hold is None {
        SwipeAccumulator::begun(now_ms)
    } else if !held {
        SwipeAccumulator::idle()
    } else {
        swipe
    }
}

/// What that frame captures: a click on the release of a hold that committed
/// no swipe.
pub open spec fn held_inputs(swipe: SwipeAccumulator, held: bool, button: ButtonId) -> Seq<
    CapturedInput,
> {
    if !held && swipe.release_is_click() {
        seq![CapturedInput::Gesture { button, direction: GestureDirection::Click }]
    } else {
        Seq::empty()
    }
}

/// What a movement captures for one button: a swipe the instant it commits.
pub open spec fn move_inputs(
    swipe: SwipeAccumulator,
    now_ms: u64,
    dx: int,
    dy: int,
    button: ButtonId,
) -> Seq<CapturedInput> {
    match swipe.commits(now_ms, dx, dy) {
        Some(direction) => seq![CapturedInput::Gesture { button, direction }],
        None => Seq::empty(),
    }
}

/// Whether any DPI control is among the held ones.
pub open spec fn any_held(dpi_cids: Seq<u16>, cids: Seq<u16>) -> bool {
    exists|i: int| 0 <= i < dpi_cids.len() && cids.contains(#[trigger] dpi_cids[i])
}

/// The state after an event of the reprogrammable controls.
pub open spec fn reprog_state(
    acc: CaptureAccum,
    event: ControlEventView,
    dpi_cids: Seq<u16>,
    dpi_as_gesture: bool,
    now_ms: u64,
) -> CaptureAccum {
    match event {
        ControlEventView::DivertedButtons(cids) => CaptureAccum {
            gesture_swipe: held_state(acc.gesture_swipe, cids.contains(GESTURE_BUTTON_CID), now_ms),
            dpi_swipe: if dpi_as_gesture {
                held_state(acc.dpi_swipe, any_held(dpi_cids, cids), now_ms)
            } else {
                acc.dpi_swipe
            },
            dpi_down: any_held(dpi_cids, cids),
        },
        ControlEventView::RawXy { dx, dy } => CaptureAccum {
            gesture_swipe: acc.gesture_swipe.after_move(now_ms, dx as int, dy as int),
            dpi_swipe: if dpi_as_gesture {
                acc.dpi_swipe.after_move(now_ms, dx as int, dy as int)
            } else {
                acc.dpi_swipe
            },
            dpi_down: acc.dpi_down,
        },
    }
}

/// What an event of the reprogrammable controls captures on the dedicated
/// gesture button.
pub open spec fn gesture_button_inputs(
    acc: CaptureAccum,
    event: ControlEventView,
    now_ms: u64,
) -> Seq<CapturedInput> {
    match event {
        ControlEventView::DivertedButtons(cids) => held_inputs(
            acc.gesture_swipe,
            cids.contains(GESTURE_BUTTON_CID),
            ButtonId::GestureButton,
        ),
        ControlEventView::RawXy { dx, dy } => move_inputs(
            acc.gesture_swipe,
            now_ms,
            dx as int,
            dy as int,
            ButtonId::GestureButton,
        ),
    }
}

/// What an event of the reprogrammable controls captures on the DPI button: a
/// click or swipe in gesture mode, else a press on the rising edge.
pub open spec fn dpi_inputs(
    acc: CaptureAccum,
    event: ControlEventView,
    dpi_cids: Seq<u16>,
    dpi_as_gesture: bool,
    now_ms: u64,
) -> Seq<CapturedInput> {
    match event {
        ControlEventView::DivertedButtons(cids) => if dpi_as_gesture {
            held_inputs(acc.dpi_swipe, any_held(dpi_cids, cids), ButtonId::DpiToggle)
        } else if any_held(dpi_cids, cids) && !acc.dpi_down {
            seq![CapturedInput::ButtonPressed(ButtonId::DpiToggle)]
        } else {
            Seq::empty()
        },
        ControlEventView::RawXy { dx, dy } => if dpi_as_gesture {
            move_inputs(acc.dpi_swipe, now_ms, dx as int, dy as int, ButtonId::DpiToggle)
        } else {
            Seq::empty()
        },
    }
}

/// Everything an event of the reprogrammable controls captures.
pub open spec fn reprog_inputs(
    acc: CaptureAccum,
    event: ControlEventView,
    dpi_cids: Seq<u16>,
    dpi_as_gesture: bool,
    now_ms: u64,
) -> Seq<CapturedInput> {
    gesture_button_inputs(acc, event, now_ms) + dpi_inputs(
        acc,
        event,
        dpi_cids,
        dpi_as_gesture,
        now_ms,
    )
}

/// Everything an event of the thumb wheel captures: the tap, then the
/// rotation.
pub open spec fn wheel_inputs(event: ThumbwheelEvent) -> Seq<CapturedInput> {
    (if event.single_tap {
        seq![CapturedInput::ButtonPressed(ButtonId::Thumbwheel)]
    } else {
        Seq::empty()
    }) + (if event.rotation != 0 {
        seq![CapturedInput::Scroll(event.rotation)]
    } else {
        Seq::empty()
    })
}

fn holds_cid(cids: &[u16], cid: u16) -> (res: bool)
    ensures
        res == cids@.contains(cid),
{
    let mut i: usize = 0;
    while i < cids.len()
        invariant
            i <= cids@.len(),
            forall|j: int| 0 <= j < i ==> cids@[j] != cid,
        decreases cids@.len() - i,
    {
        if cids[i] == cid {
            return true;
        }
        i = i + 1;
    }
    false
}

fn holds_any(dpi_cids: &[u16], cids: &[u16]) -> (res: bool)
    ensures
        res == any_held(dpi_cids@, cids@),
{
    let mut i: usize = 0;
    while i < dpi_cids.len()
        invariant
            i <= dpi_cids@.len(),
            forall|j: int| 0 <= j < i ==> !cids@.contains(#[trigger] dpi_cids@[j]),
        decreases dpi_cids@.len() - i,
    {
        if holds_cid(cids, dpi_cids[i]) {
            return true;
        }
        i = i + 1;
    }
    false
}

/// Follow the held state of one gesture-mode button, and capture the click of
/// a hold that ends without a swipe.
fn follow_hold(
    swipe: &mut SwipeAccumulator,
    held: bool,
    now_ms: u64,
    button: ButtonId,
    out: &mut Vec<CapturedInput>,
)
    ensures
        *final(swipe) == held_state(*old(swipe), held, now_ms),
        final(out)@ == old(out)@ + held_inputs(*old(swipe), held, button),
{
    if held && !swipe.is_holding() {
        swipe.begin(now_ms);
    } else if !held && swipe.is_holding() {
        // A press that never committed a direction is a plain click.
        if swipe.end() {
            out.push(CapturedInput::Gesture { button, direction: GestureDirection::Click });
        }
    }
    assert(out@ =~= old(out)@ + held_inputs(*old(swipe), held, button));
}

/// Feed a movement to one gesture-mode button, and capture the swipe it
/// commits.
fn follow_move(
    swipe: &mut SwipeAccumulator,
    now_ms: u64,
    dx: i16,
    dy: i16,
    button: ButtonId,
    out: &mut Vec<CapturedInput>,
)
    ensures
        *final(swipe) == old(swipe).after_move(now_ms, dx as int, dy as int),
        final(out)@ == old(out)@ + move_inputs(*old(swipe), now_ms, dx as int, dy as int, button),
{
    if let Some(direction) = swipe.accumulate(now_ms, dx as i32, dy as i32) {
        out.push(CapturedInput::Gesture { button, direction });
    }
    assert(out@ =~= old(out)@ + move_inputs(*old(swipe), now_ms, dx as int, dy as int, button));
}

/// Update `acc` and capture inputs on a decoded event of the reprogrammable
/// controls: commit a gesture swipe the instant it crosses the threshold rather
/// than on release. The dedicated gesture button and (when `dpi_as_gesture`)
/// the DPI button each keep their own state, so both can gesture independently.
/// When the DPI button is not gesturing, its press is captured on the rising
/// edge instead. `now_ms` is when the event arrived.
pub fn handle_reprog(
    acc: &mut CaptureAccum,
    event: RawControlEvent,
    dpi_cids: &[u16],
    dpi_as_gesture: bool,
    now_ms: u64,
) -> (out: Vec<CapturedInput>)
    ensures
        *final(acc) == reprog_state(*old(acc), event@, dpi_cids@, dpi_as_gesture, now_ms),
        out@ == reprog_inputs(*old(acc), event@, dpi_cids@, dpi_as_gesture, now_ms),
{
    let mut out: Vec<CapturedInput> = Vec::new();
    match event {
        RawControlEvent::DivertedButtons(cids) => {
            let cids = cids.as_slice();
            let gesture_held = holds_cid(cids, GESTURE_BUTTON_CID);
            follow_hold(
                &mut acc.gesture_swipe,
                gesture_held,
                now_ms,
                ButtonId::GestureButton,
                &mut out,
            );
            let dpi_held = holds_any(dpi_cids, cids);
            if dpi_as_gesture {
                follow_hold(&mut acc.dpi_swipe, dpi_held, now_ms, ButtonId::DpiToggle, &mut out);
            } else if dpi_held && !acc.dpi_down {
                out.push(CapturedInput::ButtonPressed(ButtonId::DpiToggle));
            }
            acc.dpi_down = dpi_held;
        },
        RawControlEvent::RawXy { dx, dy } => {
            // Every held gesture-mode control is fed, so that the two maps
            // stay independent.
            follow_move(
                &mut acc.gesture_swipe,
                now_ms,
                dx,
                dy,
                ButtonId::GestureButton,
                &mut out,
            );
            if dpi_as_gesture {
                follow_move(&mut acc.dpi_swipe, now_ms, dx, dy, ButtonId::DpiToggle, &mut out);
            }
        },
    }
    assert(out@ =~= reprog_inputs(*old(acc), event@, dpi_cids@, dpi_as_gesture, now_ms));
    out
}

/// Capture inputs on an event of the thumb wheel.
#[must_use]
pub fn handle_wheel(event: ThumbwheelEvent) -> (out: Vec<CapturedInput>)
    ensures
        out@ == wheel_inputs(event),
{
    let mut out: Vec<CapturedInput> = Vec::new();
    if event.single_tap {
        out.push(CapturedInput::ButtonPressed(ButtonId::Thumbwheel));
    }
    if event.rotation != 0 {
        out.push(CapturedInput::Scroll(event.rotation));
    }
    assert(out@ =~= wheel_inputs(event));
    out
}

/// What a session listens to on its device.
#[derive(Debug)]
pub struct ListenerSetup {
    /// The index of the device on its channel.
    pub device_index: u8,
    /// The feature index of the reprogrammable controls, when armed.
    pub reprog_index: Option<u8>,
    /// The feature index of the thumb wheel, when diverted.
    pub thumb_index: Option<u8>,
    /// The diverted DPI controls.
    pub dpi_cids: Vec<u16>,
    /// Whether the diverted DPI controls report raw movement.
    pub dpi_as_gesture: bool,
}

/// The control event a report carries for a session, unless it answers a
/// request.
pub open spec fn report_control_event(setup: ListenerSetup, bytes: Seq<u8>, matched: bool) -> Option<
    ControlEventView,
> {
    match setup.reprog_index {
        Some(index) => if matched {
            None
        } else {
            control_event(header_of(bytes), bytes.skip(3), setup.device_index, index)
        },
        None => None,
    }
}

/// The wheel event a report carries for a session, unless it answers a
/// request.
pub open spec fn report_wheel_event(setup: ListenerSetup, bytes: Seq<u8>, matched: bool) -> Option<
    ThumbwheelEvent,
> {
    match setup.thumb_index {
        Some(index) => if matched {
            None
        } else {
            wheel_event(header_of(bytes), bytes.skip(3), setup.device_index, index)
        },
        None => None,
    }
}

/// Handle one incoming report. Reports that answer a request (`matched`) are
/// not captured; a control event takes precedence over a wheel event.
pub fn handle_report(
    acc: &mut CaptureAccum,
    setup: &ListenerSetup,
    raw: RawReport,
    matched: bool,
    now_ms: u64,
) -> (out: Vec<CapturedInput>)
    ensures
        match report_control_event(*setup, raw.bytes(), matched) {
            Some(event) => {
                &&& *final(acc) == reprog_state(
                    *old(acc),
                    event,
                    setup.dpi_cids@,
                    setup.dpi_as_gesture,
                    now_ms,
                )
                &&& out@ == reprog_inputs(
                    *old(acc),
                    event,
                    setup.dpi_cids@,
                    setup.dpi_as_gesture,
                    now_ms,
                )
            },
            None => {
                &&& *final(acc) == *old(acc)
                &&& out@ == match report_wheel_event(*setup, raw.bytes(), matched) {
                    Some(event) => wheel_inputs(event),
                    None => Seq::empty(),
                }
            },
        },
{
    if matched {
        return Vec::new();
    }
    let message = read_report(raw);
    if let Some(index) = setup.reprog_index {
        if let Some(event) = decode_event(&message, setup.device_index, index) {
            return handle_reprog(
                acc,
                event,
                setup.dpi_cids.as_slice(),
                setup.dpi_as_gesture,
                now_ms,
            );
        }
    }
    if let Some(index) = setup.thumb_index {
        if let Some(event) = decode_wheel_event(&message, setup.device_index, index) {
            return handle_wheel(event);
        }
    }
    Vec::new()
}

/// The two gesture sources never touch each other: what the dedicated gesture
/// button captures and keeps does not depend on the DPI button, and the other
/// way round.
pub proof fn law_gesture_sources_are_independent(
    a: CaptureAccum,
    b: CaptureAccum,
    event: ControlEventView,
    dpi_cids: Seq<u16>,
    dpi_as_gesture: bool,
    now_ms: u64,
)
    ensures
        a.gesture_swipe == b.gesture_swipe ==> {
            &&& reprog_state(a, event, dpi_cids, dpi_as_gesture, now_ms).gesture_swipe
                == reprog_state(b, event, dpi_cids, !dpi_as_gesture, now_ms).gesture_swipe
            &&& gesture_button_inputs(a, event, now_ms) == gesture_button_inputs(b, event, now_ms)
        },
        a.dpi_swipe == b.dpi_swipe && a.dpi_down == b.dpi_down ==> {
            &&& reprog_state(a, event, dpi_cids, dpi_as_gesture, now_ms).dpi_swipe == reprog_state(
                b,
                event,
                dpi_cids,
                dpi_as_gesture,
                now_ms,
            ).dpi_swipe
            &&& dpi_inputs(a, event, dpi_cids, dpi_as_gesture, now_ms) == dpi_inputs(
                b,
                event,
                dpi_cids,
                dpi_as_gesture,
                now_ms,
            )
        },
{
}

/// In gesture mode no plain press is captured; outside it the DPI button never
/// gestures.
pub proof fn law_dpi_mode_decides_the_input(
    acc: CaptureAccum,
    event: ControlEventView,
    dpi_cids: Seq<u16>,
    now_ms: u64,
    i: int,
)
    ensures
        0 <= i < dpi_inputs(acc, event, dpi_cids, true, now_ms).len() ==> dpi_inputs(
            acc,
            event,
            dpi_cids,
            true,
            now_ms,
        )[i] is Gesture,
        0 <= i < dpi_inputs(acc, event, dpi_cids, false, now_ms).len() ==> dpi_inputs(
            acc,
            event,
            dpi_cids,
            false,
            now_ms,
        )[i] == CapturedInput::ButtonPressed(ButtonId::DpiToggle),
{
}

/// Raw movement outside any hold captures nothing.
pub proof fn law_idle_movement_captures_nothing(
    acc: CaptureAccum,
    dx: i16,
    dy: i16,
    dpi_cids: Seq<u16>,
    dpi_as_gesture: bool,
    now_ms: u64,
)
    requires
        acc.gesture_swipe.hold is None,
        acc.dpi_swipe.hold is None,
    ensures
        reprog_inputs(acc, ControlEventView::RawXy { dx, dy }, dpi_cids, dpi_as_gesture, now_ms)
            == Seq::<CapturedInput>::empty(),
        reprog_state(acc, ControlEventView::RawXy { dx, dy }, dpi_cids, dpi_as_gesture, now_ms)
            == acc,
{
    assert(reprog_inputs(
        acc,
        ControlEventView::RawXy { dx, dy },
        dpi_cids,
        dpi_as_gesture,
        now_ms,
    ) =~= Seq::<CapturedInput>::empty());
}

/// One event and when it arrived.
pub struct TimedEvent {
    pub event: ControlEventView,
    pub now_ms: u64,
}

/// The state after a run of events.
pub open spec fn after_events(
    start: CaptureAccum,
    events: Seq<TimedEvent>,
    dpi_cids: Seq<u16>,
    dpi_as_gesture: bool,
) -> CaptureAccum
    decreases events.len(),
{
    if events.len() == 0 {
        start
    } else {
        reprog_state(
            after_events(start, events.drop_last(), dpi_cids, dpi_as_gesture),
            events.last().event,
            dpi_cids,
            dpi_as_gesture,
            events.last().now_ms,
        )
    }
}

/// How many inputs a run of events captures on the DPI button.
pub open spec fn dpi_count(
    start: CaptureAccum,
    events: Seq<TimedEvent>,
    dpi_cids: Seq<u16>,
    dpi_as_gesture: bool,
) -> nat
    decreases events.len(),
{
    if events.len() == 0 {
        0
    } else {
        dpi_count(start, events.drop_last(), dpi_cids, dpi_as_gesture) + dpi_inputs(
            after_events(start, events.drop_last(), dpi_cids, dpi_as_gesture),
            events.last().event,
            dpi_cids,
            dpi_as_gesture,
            events.last().now_ms,
        ).len()
    }
}

/// How many inputs a run of events captures on the dedicated gesture button.
pub open spec fn gesture_button_count(
    start: CaptureAccum,
    events: Seq<TimedEvent>,
    dpi_cids: Seq<u16>,
    dpi_as_gesture: bool,
) -> nat
    decreases events.len(),
{
    if events.len() == 0 {
        0
    } else {
        gesture_button_count(start, events.drop_last(), dpi_cids, dpi_as_gesture)
            + gesture_button_inputs(
            after_events(start, events.drop_last(), dpi_cids, dpi_as_gesture),
            events.last().event,
            events.last().now_ms,
        ).len()
    }
}

/// Whether a button that is down iff `held` says so was down after a run of
/// events; movement does not change it.
pub open spec fn down_after(events: Seq<TimedEvent>, held: spec_fn(Seq<u16>) -> bool) -> bool
    decreases events.len(),
{
    if events.len() == 0 {
        false
    } else {
        match events.last().event {
            ControlEventView::DivertedButtons(cids) => held(cids),
            ControlEventView::RawXy { .. } => down_after(events.drop_last(), held),
        }
    }
}

/// How often such a button went down in a run of events.
pub open spec fn press_count(events: Seq<TimedEvent>, held: spec_fn(Seq<u16>) -> bool) -> nat
    decreases events.len(),
{
    if events.len() == 0 {
        0
    } else {
        press_count(events.drop_last(), held) + if down_after(events, held) && !down_after(
            events.drop_last(),
            held,
        ) {
            1nat
        } else {
            0nat
        }
    }
}

/// Outside gesture mode the DPI button is captured once for each time it goes
/// down: holding it does not repeat, and a release re-arms it.
pub proof fn law_dpi_presses_once_per_press(events: Seq<TimedEvent>, dpi_cids: Seq<u16>)
    ensures
        dpi_count(quiet(), events, dpi_cids, false) == press_count(
            events,
            |cids: Seq<u16>| any_held(dpi_cids, cids),
        ),
        after_events(quiet(), events, dpi_cids, false).dpi_down == down_after(
            events,
            |cids: Seq<u16>| any_held(dpi_cids, cids),
        ),
    decreases events.len(),
{
    if events.len() > 0 {
        law_dpi_presses_once_per_press(events.drop_last(), dpi_cids);
    }
}

/// A hold that has not been resolved yet: no swipe committed and no release.
pub open spec fn unresolved(swipe: SwipeAccumulator) -> nat {
    if swipe.release_is_click() {
        1
    } else {
        0
    }
}

/// The dedicated gesture button is captured exactly once for each time it goes
/// down: by a swipe during the hold or by a click at its end, never by both.
/// Only a hold that is still going on without a swipe is owed its gesture.
pub proof fn law_gesture_button_resolves_each_press_once(
    events: Seq<TimedEvent>,
    dpi_cids: Seq<u16>,
    dpi_as_gesture: bool,
)
    ensures
        gesture_button_count(quiet(), events, dpi_cids, dpi_as_gesture) + unresolved(
            after_events(quiet(), events, dpi_cids, dpi_as_gesture).gesture_swipe,
        ) == press_count(events, |cids: Seq<u16>| cids.contains(GESTURE_BUTTON_CID)),
        after_events(quiet(), events, dpi_cids, dpi_as_gesture).gesture_swipe.hold is Some
            <==> down_after(events, |cids: Seq<u16>| cids.contains(GESTURE_BUTTON_CID)),
    decreases events.len(),
{
    if events.len() > 0 {
        law_gesture_button_resolves_each_press_once(events.drop_last(), dpi_cids, dpi_as_gesture);
    }
}

/// In gesture mode the same holds of the DPI button.
pub proof fn law_dpi_gesture_resolves_each_press_once(events: Seq<TimedEvent>, dpi_cids: Seq<u16>)
    ensures
        dpi_count(quiet(), events, dpi_cids, true) + unresolved(
            after_events(quiet(), events, dpi_cids, true).dpi_swipe,
        ) == press_count(events, |cids: Seq<u16>| any_held(dpi_cids, cids)),
        after_events(quiet(), events, dpi_cids, true).dpi_swipe.hold is Some <==> down_after(
            events,
            |cids: Seq<u16>| any_held(dpi_cids, cids),
        ),
    decreases events.len(),
{
    if events.len() > 0 {
        law_dpi_gesture_resolves_each_press_once(events.drop_last(), dpi_cids);
    }
}

/// Following a frame of held controls: each gesturing button is in a hold
/// exactly when it is down, a hold that goes on stays as it was, and a new one
/// starts with this frame and without travel.
pub proof fn law_holds_follow_the_frames(
    acc: CaptureAccum,
    cids: Seq<u16>,
    dpi_cids: Seq<u16>,
    dpi_as_gesture: bool,
    now_ms: u64,
)
    ensures
        ({
            let after = reprog_state(
                acc,
                ControlEventView::DivertedButtons(cids),
                dpi_cids,
                dpi_as_gesture,
                now_ms,
            );
            let gesture_down = cids.contains(0x00c3);
            let dpi_down = exists|cid: u16| dpi_cids.contains(cid) && #[trigger] cids.contains(cid);
            let new_hold = Hold { since_ms: now_ms, dx: 0, dy: 0, committed: false };
            &&& after.gesture_swipe.hold is Some <==> gesture_down
            &&& gesture_down ==> after.gesture_swipe.hold == Some(
                match acc.gesture_swipe.hold {
                    Some(hold) => hold,
                    None => new_hold,
                },
            )
            &&& dpi_as_gesture ==> (after.dpi_swipe.hold is Some <==> dpi_down)
            &&& dpi_as_gesture && dpi_down ==> after.dpi_swipe.hold == Some(
                match acc.dpi_swipe.hold {
                    Some(hold) => hold,
                    None => new_hold,
                },
            )
            &&& !dpi_as_gesture ==> after.dpi_swipe == acc.dpi_swipe
            &&& after.dpi_down <==> dpi_down
        }),
{
    lemma_any_held(dpi_cids, cids);
}

proof fn lemma_any_held(dpi_cids: Seq<u16>, cids: Seq<u16>)
    ensures
        any_held(dpi_cids, cids) <==> exists|cid: u16|
            dpi_cids.contains(cid) && #[trigger] cids.contains(cid),
{
    if any_held(dpi_cids, cids) {
        let i = choose|i: int| 0 <= i < dpi_cids.len() && cids.contains(#[trigger] dpi_cids[i]);
        assert(dpi_cids.contains(dpi_cids[i]) && cids.contains(dpi_cids[i]));
    }
    if exists|cid: u16| dpi_cids.contains(cid) && #[trigger] cids.contains(cid) {
        let cid = choose|cid: u16| dpi_cids.contains(cid) && #[trigger] cids.contains(cid);
        let i = choose|i: int| 0 <= i < dpi_cids.len() && dpi_cids[i] == cid;
        assert(cids.contains(dpi_cids[i]));
    }
}

/// What a frame of held controls captures: a click for each gesturing button
/// that goes up without a swipe, and a press of a DPI button that does not
/// gesture and was up before; nothing else, and each at most once.
pub proof fn law_frames_capture_clicks_and_presses(
    acc: CaptureAccum,
    cids: Seq<u16>,
    dpi_cids: Seq<u16>,
    dpi_as_gesture: bool,
    now_ms: u64,
)
    ensures
        ({
            let out = reprog_inputs(
                acc,
                ControlEventView::DivertedButtons(cids),
                dpi_cids,
                dpi_as_gesture,
                now_ms,
            );
            let dpi_down = exists|cid: u16| dpi_cids.contains(cid) && #[trigger] cids.contains(cid);
            let gesture_click = CapturedInput::Gesture {
                button: ButtonId::GestureButton,
                direction: GestureDirection::Click,
            };
            let dpi_click = CapturedInput::Gesture {
                button: ButtonId::DpiToggle,
                direction: GestureDirection::Click,
            };
            let dpi_press = CapturedInput::ButtonPressed(ButtonId::DpiToggle);
            &&& out.contains(gesture_click) <==> !cids.contains(0x00c3) && (
            acc.gesture_swipe.hold matches Some(hold) && !hold.committed)
            &&& out.contains(dpi_click) <==> dpi_as_gesture && !dpi_down && (
            acc.dpi_swipe.hold matches Some(hold) && !hold.committed)
            &&& out.contains(dpi_press) <==> !dpi_as_gesture && dpi_down && !acc.dpi_down
            &&& out.no_duplicates()
            &&& out.contains(gesture_click) ==> out[0] == gesture_click
            &&& forall|input: CapturedInput| #[trigger]
                out.contains(input) ==> input == gesture_click || input == dpi_click || input
                    == dpi_press
        }),
{
    lemma_any_held(dpi_cids, cids);
    let event = ControlEventView::DivertedButtons(cids);
    let first = gesture_button_inputs(acc, event, now_ms);
    let second = dpi_inputs(acc, event, dpi_cids, dpi_as_gesture, now_ms);
    lemma_two_parts(first, second);
}

/// Two lists of at most one element each, one after the other.
proof fn lemma_two_parts(a: Seq<CapturedInput>, b: Seq<CapturedInput>)
    requires
        a.len() <= 1,
        b.len() <= 1,
    ensures
        forall|input: CapturedInput| #[trigger]
            (a + b).contains(input) <==> (a.len() == 1 && a[0] == input) || (b.len() == 1 && b[0]
                == input),
        a.len() == 1 && b.len() == 1 && a[0] == b[0] || (a + b).no_duplicates(),
{
    assert forall|input: CapturedInput| #[trigger]
        (a + b).contains(input) <==> (a.len() == 1 && a[0] == input) || (b.len() == 1 && b[0]
            == input) by {
        if a.len() == 1 && a[0] == input {
            assert((a + b)[0] == input);
        }
        if b.len() == 1 && b[0] == input {
            assert((a + b)[a.len() as int] == input);
        }
    }
}

/// What a movement captures: for each gesturing button the direction that its
/// own hold commits to, and nothing else. It presses and clicks nothing, and
/// leaves which buttons are down alone.
pub proof fn law_movements_capture_swipes(
    acc: CaptureAccum,
    dx: i16,
    dy: i16,
    dpi_cids: Seq<u16>,
    dpi_as_gesture: bool,
    now_ms: u64,
)
    ensures
        ({
            let event = ControlEventView::RawXy { dx, dy };
            let out = reprog_inputs(acc, event, dpi_cids, dpi_as_gesture, now_ms);
            let after = reprog_state(acc, event, dpi_cids, dpi_as_gesture, now_ms);
            &&& forall|direction: GestureDirection|
                acc.gesture_swipe.commits(now_ms, dx as int, dy as int) == Some(direction)
                    <==> #[trigger] out.contains(
                    CapturedInput::Gesture { button: ButtonId::GestureButton, direction },
                )
            &&& forall|direction: GestureDirection|
                dpi_as_gesture && acc.dpi_swipe.commits(now_ms, dx as int, dy as int) == Some(
                    direction,
                ) <==> #[trigger] out.contains(
                    CapturedInput::Gesture { button: ButtonId::DpiToggle, direction },
                )
            &&& out.no_duplicates()
            &&& out.len() == 2 ==> (out[0] matches CapturedInput::Gesture { button, .. } && button
                == ButtonId::GestureButton)
            &&& forall|input: CapturedInput| #[trigger]
                out.contains(input) ==> (input matches CapturedInput::Gesture { button, .. } && (
                button == ButtonId::GestureButton || button == ButtonId::DpiToggle))
            &&& after.gesture_swipe == acc.gesture_swipe.after_move(now_ms, dx as int, dy as int)
            &&& after.dpi_swipe == if dpi_as_gesture {
                acc.dpi_swipe.after_move(now_ms, dx as int, dy as int)
            } else {
                acc.dpi_swipe
            }
            &&& after.dpi_down == acc.dpi_down
        }),
{
    let event = ControlEventView::RawXy { dx, dy };
    let first = gesture_button_inputs(acc, event, now_ms);
    let second = dpi_inputs(acc, event, dpi_cids, dpi_as_gesture, now_ms);
    lemma_two_parts(first, second);
}

/// Movements as events.
pub open spec fn movement_events(moves: Seq<Movement>) -> Seq<TimedEvent> {
    moves.map_values(
        |m: Movement|
            TimedEvent {
                event: ControlEventView::RawXy { dx: m.dx as i16, dy: m.dy as i16 },
                now_ms: m.now_ms,
            },
    )
}

/// From a press on, the hold of the dedicated gesture button sees every
/// movement of the device: nothing is lost between the reports and the swipe.
pub proof fn law_every_movement_reaches_the_hold(
    acc: CaptureAccum,
    cids: Seq<u16>,
    now_ms: u64,
    moves: Seq<Movement>,
    dpi_cids: Seq<u16>,
    dpi_as_gesture: bool,
)
    requires
        acc.gesture_swipe.hold is None,
        cids.contains(GESTURE_BUTTON_CID),
        forall|i: int|
            0 <= i < moves.len() ==> i16::MIN <= (#[trigger] moves[i]).dx <= i16::MAX && i16::MIN
                <= moves[i].dy <= i16::MAX,
    ensures
        after_events(
            acc,
            seq![TimedEvent { event: ControlEventView::DivertedButtons(cids), now_ms }]
                + movement_events(moves),
            dpi_cids,
            dpi_as_gesture,
        ).gesture_swipe == after_moves(SwipeAccumulator::begun(now_ms), moves),
    decreases moves.len(),
{
    let press = seq![TimedEvent { event: ControlEventView::DivertedButtons(cids), now_ms }];
    let events = press + movement_events(moves);
    if moves.len() == 0 {
        assert(events =~= press);
        assert(events.drop_last() =~= Seq::<TimedEvent>::empty());
        assert(events.last() == press[0]);
        reveal_with_fuel(after_events, 2);
    } else {
        let earlier = moves.drop_last();
        assert forall|i: int| 0 <= i < earlier.len() implies i16::MIN <= (#[trigger] earlier[i]).dx
            <= i16::MAX && i16::MIN <= earlier[i].dy <= i16::MAX by {
            assert(earlier[i] == moves[i]);
        }
        law_every_movement_reaches_the_hold(
            acc,
            cids,
            now_ms,
            earlier,
            dpi_cids,
            dpi_as_gesture,
        );
        assert(events.drop_last() =~= press + movement_events(earlier));
        assert(moves[moves.len() - 1] == moves.last());
        assert(events.last() == movement_events(moves).last());
    }
}

/// In gesture mode the same holds of the DPI button.
pub proof fn law_every_movement_reaches_the_dpi_hold(
    acc: CaptureAccum,
    cids: Seq<u16>,
    now_ms: u64,
    moves: Seq<Movement>,
    dpi_cids: Seq<u16>,
    cid: u16,
)
    requires
        acc.dpi_swipe.hold is None,
        dpi_cids.contains(cid),
        cids.contains(cid),
        forall|i: int|
            0 <= i < moves.len() ==> i16::MIN <= (#[trigger] moves[i]).dx <= i16::MAX && i16::MIN
                <= moves[i].dy <= i16::MAX,
    ensures
        after_events(
            acc,
            seq![TimedEvent { event: ControlEventView::DivertedButtons(cids), now_ms }]
                + movement_events(moves),
            dpi_cids,
            true,
        ).dpi_swipe == after_moves(SwipeAccumulator::begun(now_ms), moves),
    decreases moves.len(),
{
    let press = seq![TimedEvent { event: ControlEventView::DivertedButtons(cids), now_ms }];
    let events = press + movement_events(moves);
    if moves.len() == 0 {
        assert(events =~= press);
        assert(events.drop_last() =~= Seq::<TimedEvent>::empty());
        assert(events.last() == press[0]);
        reveal_with_fuel(after_events, 2);
        lemma_any_held(dpi_cids, cids);
        assert(dpi_cids.contains(cid) && cids.contains(cid));
    } else {
        let earlier = moves.drop_last();
        assert forall|i: int| 0 <= i < earlier.len() implies i16::MIN <= (#[trigger] earlier[i]).dx
            <= i16::MAX && i16::MIN <= earlier[i].dy <= i16::MAX by {
            assert(earlier[i] == moves[i]);
        }
        law_every_movement_reaches_the_dpi_hold(acc, cids, now_ms, earlier, dpi_cids, cid);
        assert(events.drop_last() =~= press + movement_events(earlier));
        assert(moves[moves.len() - 1] == moves.last());
        assert(events.last() == movement_events(moves).last());
    }
}

/// The tap and the rotation of the wheel are captured apart from each other: a
/// press just when the wheel was tapped, whatever its rotation, then a scroll by
/// the rotation just when there is one, tapped or not.
pub proof fn law_wheel_tap_and_rotation_are_separate(event: ThumbwheelEvent)
    ensures
        wheel_inputs(event).contains(CapturedInput::ButtonPressed(ButtonId::Thumbwheel))
            <==> event.single_tap,
        forall|rotation: i16|
            rotation == event.rotation && rotation != 0 <==> #[trigger] wheel_inputs(
                event,
            ).contains(CapturedInput::Scroll(rotation)),
        wheel_inputs(event).no_duplicates(),
        forall|input: CapturedInput| #[trigger]
            wheel_inputs(event).contains(input) ==> input == CapturedInput::ButtonPressed(
                ButtonId::Thumbwheel,
            ) || input == CapturedInput::Scroll(event.rotation),
        event.single_tap ==> wheel_inputs(event)[0] == CapturedInput::ButtonPressed(
            ButtonId::Thumbwheel,
        ),
{
    let tap = if event.single_tap {
        seq![CapturedInput::ButtonPressed(ButtonId::Thumbwheel)]
    } else {
        Seq::empty()
    };
    let scroll = if event.rotation != 0 {
        seq![CapturedInput::Scroll(event.rotation)]
    } else {
        Seq::empty()
    };
    assert(wheel_inputs(event) == tap + scroll);
    lemma_two_parts(tap, scroll);
}

/// A session looks at the reports of its own device only, at those of a feature
/// only when it armed that feature, and at no reply to a request.
pub proof fn law_sessions_see_their_own_notifications(
    setup: ListenerSetup,
    bytes: Seq<u8>,
    matched: bool,
)
    requires
        bytes.len() >= 3,
    ensures
        report_control_event(setup, bytes, matched) is Some <==> !matched && bytes[0]
            == setup.device_index && setup.reprog_index == Some(bytes[1]) && (bytes[2] == 0x00
            || bytes[2] == 0x10),
        report_wheel_event(setup, bytes, matched) is Some <==> !matched && bytes[0]
            == setup.device_index && setup.thumb_index == Some(bytes[1]) && bytes[2] == 0x00,
        report_control_event(setup, bytes, matched) is Some ==> report_control_event(
            setup,
            bytes,
            matched,
        ) == control_event(header_of(bytes), bytes.skip(3), bytes[0], bytes[1]),
        report_wheel_event(setup, bytes, matched) is Some ==> report_wheel_event(
            setup,
            bytes,
            matched,
        ) == wheel_event(header_of(bytes), bytes.skip(3), bytes[0], bytes[1]),
{
}

} // verus!
