//! Arming a device: which request to make next, given the replies so far.
//!
//! The transport makes one request at a time and hands its reply back. Arming
//! is one transaction: when it fails on the way, every control that was
//! already diverted is asked back before the failure is reported.

use vstd::prelude::*;

use crate::binding::ButtonId;
use crate::capture::ListenerSetup;
use crate::divert::{
    armed_by, cids_of, dpi_step, law_dpi_is_always_diverted, law_gesture_button_needs_raw_movement,
    law_plan_names_known_controls, plan_reprog_diverts, plan_spec, row_of, ArmProgress, ArmedDivert,
};
use crate::maps::{lemma_filter_map_keeps, lemma_filter_map_len, ButtonSet};
use crate::wire::{
    dpi_cids, CtrlIdInfo, DPI_MODE_SHIFT_CIDS, GESTURE_BUTTON_CID, REPROG_FEATURE_ID,
    THUMBWHEEL_FEATURE_ID,
};

verus! {

/// Why a capture session could not start.
#[derive(Debug, PartialEq, Eq)]
pub enum GestureError {
    /// No connected device matched the capture route.
    DeviceNotFound,
    /// The device at the target index did not answer HID++.
    DeviceUnreachable(u8),
    /// A HID++ feature call returned an error; the string carries context.
    Hidpp(String),
}

/// What to arm.
#[derive(Clone, Copy, Debug, PartialEq, Eq, Structural)]
pub struct ArmSettings {
    /// The index of the device on its channel.
    pub slot: u8,
    /// Whether the thumb wheel is wanted.
    pub capture_thumbwheel: bool,
    /// Whether the dedicated gesture button is wanted for gestures.
    pub divert_gesture_button: bool,
    /// Whether the DPI button is wanted for gestures.
    pub dpi_as_gesture: bool,
}

impl ArmSettings {
    /// Settings from the set of controls to arm for hold+swipe. Members other
    /// than the dedicated gesture button and the DPI button are ignored.
    #[must_use]
    pub fn new(slot: u8, capture_thumbwheel: bool, gesture_buttons: &ButtonSet) -> (settings:
        ArmSettings)
        ensures
            settings == (ArmSettings {
                slot,
                capture_thumbwheel,
                divert_gesture_button: gesture_buttons@.contains(ButtonId::GestureButton),
                dpi_as_gesture: gesture_buttons@.contains(ButtonId::DpiToggle),
            }),
    {
        ArmSettings {
            slot,
            capture_thumbwheel,
            divert_gesture_button: gesture_buttons.contains(ButtonId::GestureButton),
            dpi_as_gesture: gesture_buttons.contains(ButtonId::DpiToggle),
        }
    }
}

/// A request to the device.
#[derive(Clone, Copy, Debug, PartialEq, Eq, Structural)]
pub enum ArmRequest {
    /// Reach the device at the target index.
    OpenDevice,
    /// Look up the index of a feature.
    FindFeature(u16),
    /// Read how many rows the control table has.
    CountControls,
    /// Read one row of the control table.
    ReadControl(u8),
    /// Set how a control reports.
    SetReporting { cid: u16, divert: bool, raw_xy: bool },
    /// Read what the thumb wheel can do.
    ReadThumbwheel,
    /// Divert the thumb wheel, or hand it back.
    SetThumbwheel { divert: bool },
}

/// How a request ended.
#[derive(Debug, PartialEq, Eq)]
pub enum ArmReply {
    /// With an error; the string carries context.
    Failed(String),
    /// Done, with nothing to tell.
    Done,
    /// The index of the feature, if the device has it.
    Feature(Option<u8>),
    /// The number of rows of the control table.
    Count(u8),
    /// A row of the control table.
    Control(CtrlIdInfo),
    /// Whether the thumb wheel can tell single taps.
    Thumbwheel { single_tap: bool },
}

/// Where arming stands.
#[derive(Debug, PartialEq, Eq)]
pub enum Stage {
    Open,
    FindReprog,
    Count,
    Read { index: u8, count: u8 },
    Divert { next: usize },
    FindThumbwheel,
    ReadThumbwheel,
    DivertThumbwheel,
    Rollback { next: usize, error: GestureError },
    Armed,
    Failed(GestureError),
}

/// An arming in progress.
#[derive(Debug, PartialEq, Eq)]
pub struct Arming {
    settings: ArmSettings,
    stage: Stage,
    reprog_index: Option<u8>,
    controls: Vec<CtrlIdInfo>,
    steps: Vec<(u16, bool)>,
    progress: ArmProgress,
    thumb_index: Option<u8>,
    rollback: Vec<u16>,
}

/// An arming in progress, as mathematical values.
#[verifier::ext_equal]
pub struct ArmingView {
    pub settings: ArmSettings,
    pub stage: Stage,
    /// The feature index of the reprogrammable controls, once found.
    pub reprog_index: Option<u8>,
    /// The rows of the control table read so far.
    pub controls: Seq<CtrlIdInfo>,
    /// The divert plan.
    pub steps: Seq<(u16, bool)>,
    /// The diverts made so far.
    pub armed: Seq<ArmedDivert>,
    /// The feature index of the thumb wheel, once found.
    pub thumb_index: Option<u8>,
    /// The controls to hand back, in order, when rolling back.
    pub rollback: Seq<u16>,
}

impl View for Arming {
    type V = ArmingView;

    closed spec fn view(&self) -> ArmingView {
        ArmingView {
            settings: self.settings,
            stage: self.stage,
            reprog_index: self.reprog_index,
            controls: self.controls@,
            steps: self.steps@,
            armed: self.progress.armed@,
            thumb_index: self.thumb_index,
            rollback: self.rollback@,
        }
    }
}

/// Whether the dedicated gesture button is among the diverts.
pub open spec fn gesture_armed(armed: Seq<ArmedDivert>) -> bool {
    exists|i: int| 0 <= i < armed.len() && (#[trigger] armed[i]).cid == GESTURE_BUTTON_CID
}

/// The DPI controls among the diverts, in order.
pub open spec fn dpi_armed(armed: Seq<ArmedDivert>) -> Seq<u16> {
    armed.filter_map(
        |d: ArmedDivert|
            if d.cid != GESTURE_BUTTON_CID && dpi_cids().contains(d.cid) {
                Some(d.cid)
            } else {
                None
            },
    )
}

/// Whether a DPI control among the diverts reports raw movement.
pub open spec fn dpi_gesture_armed(armed: Seq<ArmedDivert>) -> bool {
    exists|i: int|
        0 <= i < armed.len() && (#[trigger] armed[i]).cid != GESTURE_BUTTON_CID
            && dpi_cids().contains(armed[i].cid) && armed[i].raw_xy
}

/// The controls to hand back when a later part of arming fails: the dedicated
/// gesture button, then the DPI controls.
pub open spec fn reprog_restores(armed: Seq<ArmedDivert>) -> Seq<u16> {
    (if gesture_armed(armed) {
        seq![GESTURE_BUTTON_CID]
    } else {
        Seq::empty()
    }) + dpi_armed(armed)
}

/// The start of an arming.
pub open spec fn started(settings: ArmSettings) -> ArmingView {
    ArmingView {
        settings,
        stage: Stage::Open,
        reprog_index: None,
        controls: Seq::empty(),
        steps: Seq::empty(),
        armed: Seq::empty(),
        thumb_index: None,
        rollback: Seq::empty(),
    }
}

impl ArmingView {
    /// The request to make, unless arming is over.
    pub open spec fn request(self) -> Option<ArmRequest> {
        match self.stage {
            Stage::Open => Some(ArmRequest::OpenDevice),
            Stage::FindReprog => Some(ArmRequest::FindFeature(REPROG_FEATURE_ID)),
            Stage::Count => Some(ArmRequest::CountControls),
            Stage::Read { index, .. } => Some(ArmRequest::ReadControl(index)),
            Stage::Divert { next } => Some(
                ArmRequest::SetReporting {
                    cid: self.steps[next as int].0,
                    divert: true,
                    raw_xy: self.steps[next as int].1,
                },
            ),
            Stage::FindThumbwheel => Some(ArmRequest::FindFeature(THUMBWHEEL_FEATURE_ID)),
            Stage::ReadThumbwheel => Some(ArmRequest::ReadThumbwheel),
            Stage::DivertThumbwheel => Some(ArmRequest::SetThumbwheel { divert: true }),
            Stage::Rollback { next, .. } => Some(
                ArmRequest::SetReporting {
                    cid: self.rollback[next as int],
                    divert: false,
                    raw_xy: false,
                },
            ),
            Stage::Armed => None,
            Stage::Failed(_) => None,
        }
    }

    /// Whether a reply is of the kind that the request asks for.
    pub open spec fn accepts(self, reply: ArmReply) -> bool {
        match self.stage {
            Stage::Open => reply is Failed || reply is Done,
            Stage::FindReprog => reply is Failed || reply is Feature,
            Stage::Count => reply is Failed || reply is Count,
            Stage::Read { .. } => reply is Failed || reply is Control,
            Stage::Divert { .. } => reply is Failed || reply is Done,
            Stage::FindThumbwheel => reply is Failed || reply is Feature,
            Stage::ReadThumbwheel => reply is Failed || reply is Thumbwheel,
            Stage::DivertThumbwheel => reply is Failed || reply is Done,
            Stage::Rollback { .. } => reply is Failed || reply is Done,
            Stage::Armed => false,
            Stage::Failed(_) => false,
        }
    }

    /// The positions kept in the stage are within bounds.
    pub open spec fn well_formed(self) -> bool {
        match self.stage {
            Stage::Read { index, count } => index < count,
            Stage::Divert { next } => next < self.steps.len(),
            Stage::Rollback { next, .. } => next < self.rollback.len(),
            _ => true,
        }
    }

    /// On to the thumb wheel, if it is wanted.
    pub open spec fn reprog_done(self) -> ArmingView {
        ArmingView {
            stage: if self.settings.capture_thumbwheel {
                Stage::FindThumbwheel
            } else {
                Stage::Armed
            },
            ..self
        }
    }

    /// On to the diverts of the plan, once the control table is read.
    pub open spec fn table_read(self) -> ArmingView {
        let planned = ArmingView {
            steps: plan_spec(
                self.controls,
                self.settings.divert_gesture_button,
                self.settings.dpi_as_gesture,
            ),
            ..self
        };
        if planned.steps.len() > 0 {
            ArmingView { stage: Stage::Divert { next: 0 }, ..planned }
        } else {
            planned.reprog_done()
        }
    }

    /// Hand controls back in the given order, then fail.
    pub open spec fn abandoned(self, rollback: Seq<u16>, error: GestureError) -> ArmingView {
        if rollback.len() > 0 {
            ArmingView { stage: Stage::Rollback { next: 0, error }, rollback, ..self }
        } else {
            ArmingView { stage: Stage::Failed(error), rollback, ..self }
        }
    }

    /// Where arming stands after a reply.
    pub open spec fn next(self, reply: ArmReply) -> ArmingView {
        match (self.stage, reply) {
            // Nothing is diverted yet: a failure ends arming at once.
            (Stage::Open, ArmReply::Failed(_)) => ArmingView {
                stage: Stage::Failed(GestureError::DeviceUnreachable(self.settings.slot)),
                ..self
            },
            (Stage::Open, _) => ArmingView { stage: Stage::FindReprog, ..self },
            (Stage::FindReprog, ArmReply::Failed(e)) => ArmingView {
                stage: Stage::Failed(GestureError::Hidpp(e)),
                ..self
            },
            (Stage::FindReprog, ArmReply::Feature(Some(index))) => ArmingView {
                stage: Stage::Count,
                reprog_index: Some(index),
                ..self
            },
            (Stage::FindReprog, _) => self.reprog_done(),
            (Stage::Count, ArmReply::Failed(e)) => ArmingView {
                stage: Stage::Failed(GestureError::Hidpp(e)),
                ..self
            },
            (Stage::Count, ArmReply::Count(count)) => if count > 0 {
                ArmingView { stage: Stage::Read { index: 0, count }, ..self }
            } else {
                self.table_read()
            },
            (Stage::Read { .. }, ArmReply::Failed(e)) => ArmingView {
                stage: Stage::Failed(GestureError::Hidpp(e)),
                ..self
            },
            (Stage::Read { index, count }, ArmReply::Control(row)) => {
                let read = ArmingView { controls: self.controls.push(row), ..self };
                if index + 1 < count {
                    ArmingView { stage: Stage::Read { index: (index + 1) as u8, count }, ..read }
                } else {
                    read.table_read()
                }
            },
            // A failed divert hands back the earlier ones, last one first.
            (Stage::Divert { .. }, ArmReply::Failed(e)) => self.abandoned(
                self.armed.reverse().map_values(|d: ArmedDivert| d.cid),
                GestureError::Hidpp(e),
            ),
            (Stage::Divert { next }, _) => {
                let step = self.steps[next as int];
                let diverted = ArmingView {
                    armed: self.armed.push(ArmedDivert { cid: step.0, raw_xy: step.1 }),
                    ..self
                };
                if next + 1 < self.steps.len() {
                    ArmingView { stage: Stage::Divert { next: (next + 1) as usize }, ..diverted }
                } else {
                    diverted.reprog_done()
                }
            },
            // A failure at the thumb wheel hands back every earlier divert.
            (Stage::FindThumbwheel, ArmReply::Failed(e)) => self.abandoned(
                reprog_restores(self.armed),
                GestureError::Hidpp(e),
            ),
            (Stage::FindThumbwheel, ArmReply::Feature(Some(index))) => ArmingView {
                stage: Stage::ReadThumbwheel,
                thumb_index: Some(index),
                ..self
            },
            (Stage::FindThumbwheel, _) => ArmingView { stage: Stage::Armed, ..self },
            // A wheel that cannot tell taps, or does not say, is left alone.
            (Stage::ReadThumbwheel, ArmReply::Thumbwheel { single_tap: true }) => ArmingView {
                stage: Stage::DivertThumbwheel,
                ..self
            },
            (Stage::ReadThumbwheel, _) => ArmingView {
                stage: Stage::Armed,
                thumb_index: None,
                ..self
            },
            (Stage::DivertThumbwheel, ArmReply::Failed(e)) => self.abandoned(
                reprog_restores(self.armed),
                GestureError::Hidpp(e),
            ),
            (Stage::DivertThumbwheel, _) => ArmingView { stage: Stage::Armed, ..self },
            // A restore that fails does not keep the others from being made.
            (Stage::Rollback { next, error }, _) => if next + 1 < self.rollback.len() {
                ArmingView { stage: Stage::Rollback { next: (next + 1) as usize, error }, ..self }
            } else {
                ArmingView { stage: Stage::Failed(error), ..self }
            },
            _ => self,
        }
    }
}

/// The controls a session has diverted, kept so that they can be handed back.
#[derive(Debug, PartialEq, Eq)]
pub struct ArmedControls {
    /// The feature index of the reprogrammable controls, when the device has
    /// them.
    pub reprog_index: Option<u8>,
    /// Whether the dedicated gesture button is diverted.
    pub gesture_diverted: bool,
    /// The DPI controls that are diverted.
    pub dpi_cids: Vec<u16>,
    /// Whether the diverted DPI controls report raw movement.
    pub dpi_as_gesture: bool,
    /// The feature index of the thumb wheel, when it is diverted.
    pub thumb_index: Option<u8>,
}

/// What became of an arming.
#[derive(Debug, PartialEq, Eq)]
pub enum ArmOutcome {
    /// It is still going on.
    Pending(Arming),
    /// Every wanted control the device has is diverted.
    Armed(ArmedControls),
    /// It failed, and every control that was diverted was asked back.
    Failed(GestureError),
}

/// Whether `controls` describe a finished arming.
pub open spec fn describes(controls: ArmedControls, state: ArmingView) -> bool {
    &&& controls.reprog_index == state.reprog_index
    &&& controls.gesture_diverted == gesture_armed(state.armed)
    &&& controls.dpi_cids@ == dpi_armed(state.armed)
    &&& controls.dpi_as_gesture == dpi_gesture_armed(state.armed)
    &&& controls.thumb_index == state.thumb_index
}

/// The requests that hand back every control of a session: the dedicated
/// gesture button, the DPI controls, the thumb wheel.
pub open spec fn disarm_spec(controls: ArmedControls) -> Seq<ArmRequest> {
    (if controls.reprog_index is Some {
        (if controls.gesture_diverted {
            seq![hand_back(GESTURE_BUTTON_CID)]
        } else {
            Seq::empty()
        }) + controls.dpi_cids@.map_values(|cid: u16| hand_back(cid))
    } else {
        Seq::empty()
    }) + (if controls.thumb_index is Some {
        seq![ArmRequest::SetThumbwheel { divert: false }]
    } else {
        Seq::empty()
    })
}

/// The request that hands a control back to the firmware.
pub open spec fn hand_back(cid: u16) -> ArmRequest {
    ArmRequest::SetReporting { cid, divert: false, raw_xy: false }
}

impl ArmedControls {
    /// The requests that hand every diverted control back, in order. Each is to
    /// be made whatever the others end with.
    #[must_use]
    pub fn disarm(&self) -> (requests: Vec<ArmRequest>)
        ensures
            requests@ == disarm_spec(*self),
    {
        let mut requests: Vec<ArmRequest> = Vec::new();
        if self.reprog_index.is_some() {
            if self.gesture_diverted {
                requests.push(
                    ArmRequest::SetReporting {
                        cid: GESTURE_BUTTON_CID,
                        divert: false,
                        raw_xy: false,
                    },
                );
            }
            let ghost first = requests@;
            let mut i: usize = 0;
            assert(requests@ =~= first + self.dpi_cids@.take(0).map_values(
                |cid: u16| hand_back(cid),
            ));
            while i < self.dpi_cids.len()
                invariant
                    i <= self.dpi_cids@.len(),
                    requests@ == first + self.dpi_cids@.take(i as int).map_values(
                        |cid: u16| hand_back(cid),
                    ),
                decreases self.dpi_cids@.len() - i,
            {
                requests.push(
                    ArmRequest::SetReporting {
                        cid: self.dpi_cids[i],
                        divert: false,
                        raw_xy: false,
                    },
                );
                assert(requests@ =~= first + self.dpi_cids@.take(i + 1).map_values(
                    |cid: u16| hand_back(cid),
                ));
                i = i + 1;
            }
            assert(self.dpi_cids@.take(i as int) =~= self.dpi_cids@);
        }
        if self.thumb_index.is_some() {
            requests.push(ArmRequest::SetThumbwheel { divert: false });
        }
        assert(requests@ =~= disarm_spec(*self));
        requests
    }

    /// What a session on the device at `device_index` listens to.
    #[must_use]
    pub fn listener_setup(&self, device_index: u8) -> (setup: ListenerSetup)
        ensures
            setup.device_index == device_index,
            setup.reprog_index == self.reprog_index,
            setup.thumb_index == self.thumb_index,
            setup.dpi_cids@ == self.dpi_cids@,
            setup.dpi_as_gesture == self.dpi_as_gesture,
    {
        let dpi_cids = self.dpi_cids.clone();
        assert(dpi_cids@ =~= self.dpi_cids@);
        ListenerSetup {
            device_index,
            reprog_index: self.reprog_index,
            thumb_index: self.thumb_index,
            dpi_cids,
            dpi_as_gesture: self.dpi_as_gesture,
        }
    }

    /// Whether nothing was there to capture.
    #[must_use]
    pub fn is_idle(&self) -> (res: bool)
        ensures
            res == (!self.gesture_diverted && self.dpi_cids@.len() == 0 && self.thumb_index is None),
    {
        !self.gesture_diverted && self.dpi_cids.len() == 0 && self.thumb_index.is_none()
    }
}

fn is_dpi_cid(cid: u16) -> (res: bool)
    ensures
        res == (cid != GESTURE_BUTTON_CID && dpi_cids().contains(cid)),
{
    let cids = DPI_MODE_SHIFT_CIDS;
    let res = cid == cids[0] || cid == cids[1] || cid == cids[2];
    proof {
        let all = dpi_cids();
        assert(all[0] == 0x00c4 && all[1] == 0x00ed && all[2] == 0x00fd);
        if all.contains(cid) {
            let i = choose|i: int| 0 <= i < all.len() && all[i] == cid;
            assert(i == 0 || i == 1 || i == 2);
        }
    }
    res
}

/// What the diverts made so far amount to: whether the dedicated gesture button
/// is among them, the DPI controls, and whether one of those reports raw
/// movement.
fn summarize(progress: &ArmProgress) -> (res: (bool, Vec<u16>, bool))
    ensures
        res.0 == gesture_armed(progress.armed@),
        res.1@ == dpi_armed(progress.armed@),
        res.2 == dpi_gesture_armed(progress.armed@),
{
    let ghost armed = progress.armed@;
    let ghost pick = |d: ArmedDivert|
        if d.cid != GESTURE_BUTTON_CID && dpi_cids().contains(d.cid) {
            Some(d.cid)
        } else {
            None
        };
    let mut gesture_diverted = false;
    let mut dpi: Vec<u16> = Vec::new();
    let mut dpi_as_gesture = false;
    let mut i: usize = 0;
    assert(dpi@ =~= armed.take(0).filter_map(pick)) by {
        reveal(Seq::filter_map);
    }
    while i < progress.armed.len()
        invariant
            i <= progress.armed@.len(),
            armed == progress.armed@,
            pick == (|d: ArmedDivert|
                if d.cid != GESTURE_BUTTON_CID && dpi_cids().contains(d.cid) {
                    Some(d.cid)
                } else {
                    None
                }),
            gesture_diverted == exists|j: int|
                0 <= j < i && (#[trigger] armed[j]).cid == GESTURE_BUTTON_CID,
            dpi@ == armed.take(i as int).filter_map(pick),
            dpi_as_gesture == exists|j: int|
                0 <= j < i && (#[trigger] armed[j]).cid != GESTURE_BUTTON_CID
                    && dpi_cids().contains(armed[j].cid) && armed[j].raw_xy,
        decreases progress.armed@.len() - i,
    {
        proof {
            armed.lemma_filter_map_take_succ(pick, i as int);
        }
        let d = progress.armed[i];
        assert(d == armed[i as int]);
        if d.cid == GESTURE_BUTTON_CID {
            gesture_diverted = true;
        } else if is_dpi_cid(d.cid) {
            dpi.push(d.cid);
            if d.raw_xy {
                dpi_as_gesture = true;
            }
        }
        assert(dpi@ =~= armed.take(i + 1).filter_map(pick));
        i = i + 1;
    }
    assert(armed.take(i as int) =~= armed);
    (gesture_diverted, dpi, dpi_as_gesture)
}

/// The controls to hand back when a later part of arming fails.
fn rollback_reprog(progress: &ArmProgress) -> (cids: Vec<u16>)
    ensures
        cids@ == reprog_restores(progress.armed@),
{
    let (gesture_diverted, mut dpi, _) = summarize(progress);
    let mut cids: Vec<u16> = Vec::new();
    if gesture_diverted {
        cids.push(GESTURE_BUTTON_CID);
    }
    cids.append(&mut dpi);
    assert(cids@ =~= reprog_restores(progress.armed@));
    cids
}

/// The controls of the diverts made so far, last one first.
fn rollback_steps(progress: &ArmProgress) -> (cids: Vec<u16>)
    ensures
        cids@ == progress.armed@.reverse().map_values(|d: ArmedDivert| d.cid),
{
    let order = progress.rollback_order();
    let mut cids: Vec<u16> = Vec::new();
    let mut i: usize = 0;
    while i < order.len()
        invariant
            i <= order@.len(),
            cids@.len() == i,
            forall|j: int| 0 <= j < i ==> #[trigger] cids@[j] == order@[j].cid,
        decreases order@.len() - i,
    {
        cids.push(order[i].cid);
        i = i + 1;
    }
    assert(cids@ =~= progress.armed@.reverse().map_values(|d: ArmedDivert| d.cid));
    cids
}

impl Arming {
    #[verifier::type_invariant]
    spec fn in_bounds(self) -> bool {
        self@.well_formed()
    }

    /// Begin arming.
    #[must_use]
    pub fn start(settings: ArmSettings) -> (arming: Arming)
        ensures
            arming@ == started(settings),
    {
        let arming = Arming {
            settings,
            stage: Stage::Open,
            reprog_index: None,
            controls: Vec::new(),
            steps: Vec::new(),
            progress: ArmProgress::default(),
            thumb_index: None,
            rollback: Vec::new(),
        };
        assert(arming@ =~= started(settings));
        arming
    }

    /// The request to make now; none when arming is over.
    #[must_use]
    pub fn request(&self) -> (request: Option<ArmRequest>)
        ensures
            request == self@.request(),
    {
        proof {
            use_type_invariant(self);
        }
        match &self.stage {
            Stage::Open => Some(ArmRequest::OpenDevice),
            Stage::FindReprog => Some(ArmRequest::FindFeature(REPROG_FEATURE_ID)),
            Stage::Count => Some(ArmRequest::CountControls),
            Stage::Read { index, .. } => Some(ArmRequest::ReadControl(*index)),
            Stage::Divert { next } => {
                let (cid, raw_xy) = self.steps[*next];
                Some(ArmRequest::SetReporting { cid, divert: true, raw_xy })
            },
            Stage::FindThumbwheel => Some(ArmRequest::FindFeature(THUMBWHEEL_FEATURE_ID)),
            Stage::ReadThumbwheel => Some(ArmRequest::ReadThumbwheel),
            Stage::DivertThumbwheel => Some(ArmRequest::SetThumbwheel { divert: true }),
            Stage::Rollback { next, .. } => Some(
                ArmRequest::SetReporting {
                    cid: self.rollback[*next],
                    divert: false,
                    raw_xy: false,
                },
            ),
            Stage::Armed => None,
            Stage::Failed(_) => None,
        }
    }

    /// Whether a reply is of the kind that the current request asks for.
    #[must_use]
    pub fn accepts(&self, reply: &ArmReply) -> (res: bool)
        ensures
            res == self@.accepts(*reply),
    {
        match (&self.stage, reply) {
            (Stage::Armed, _) => false,
            (Stage::Failed(_), _) => false,
            (_, ArmReply::Failed(_)) => true,
            (Stage::Open, ArmReply::Done) => true,
            (Stage::FindReprog, ArmReply::Feature(_)) => true,
            (Stage::Count, ArmReply::Count(_)) => true,
            (Stage::Read { .. }, ArmReply::Control(_)) => true,
            (Stage::Divert { .. }, ArmReply::Done) => true,
            (Stage::FindThumbwheel, ArmReply::Feature(_)) => true,
            (Stage::ReadThumbwheel, ArmReply::Thumbwheel { .. }) => true,
            (Stage::DivertThumbwheel, ArmReply::Done) => true,
            (Stage::Rollback { .. }, ArmReply::Done) => true,
            _ => false,
        }
    }

    fn at(self, stage: Stage) -> (res: Arming)
        requires
            (ArmingView { stage, ..self@ }).well_formed(),
        ensures
            res@ == (ArmingView { stage, ..self@ }),
    {
        Arming { stage, ..self }
    }

    fn reprog_done(self) -> (res: Arming)
        ensures
            res@ == self@.reprog_done(),
    {
        if self.settings.capture_thumbwheel {
            self.at(Stage::FindThumbwheel)
        } else {
            self.at(Stage::Armed)
        }
    }

    fn table_read(self) -> (res: Arming)
        ensures
            res@ == self@.table_read(),
    {
        let steps = plan_reprog_diverts(
            self.controls.as_slice(),
            self.settings.divert_gesture_button,
            self.settings.dpi_as_gesture,
        );
        if steps.len() > 0 {
            Arming { steps, stage: Stage::Divert { next: 0 }, ..self }
        } else {
            let planned = Arming { steps, stage: Stage::Armed, ..self };
            planned.reprog_done()
        }
    }

    fn abandoned(self, rollback: Vec<u16>, error: GestureError) -> (res: Arming)
        ensures
            res@ == self@.abandoned(rollback@, error),
    {
        if rollback.len() > 0 {
            Arming { rollback, stage: Stage::Rollback { next: 0, error }, ..self }
        } else {
            Arming { rollback, stage: Stage::Failed(error), ..self }
        }
    }

    fn with_control(self, row: CtrlIdInfo) -> (res: Arming)
        ensures
            res@ == (ArmingView { controls: self@.controls.push(row), ..self@ }),
    {
        proof {
            use_type_invariant(&self);
        }
        let mut controls = self.controls;
        controls.push(row);
        Arming { controls, ..self }
    }

    fn with_divert(self, cid: u16, raw_xy: bool) -> (res: Arming)
        ensures
            res@ == (ArmingView { armed: self@.armed.push(ArmedDivert { cid, raw_xy }), ..self@ }),
    {
        proof {
            use_type_invariant(&self);
        }
        let mut progress = self.progress;
        progress.record(cid, raw_xy);
        Arming { progress, ..self }
    }

    /// Go on with the reply to the current request.
    #[must_use]
    pub fn reply(self, reply: ArmReply) -> (res: Arming)
        requires
            self@.accepts(reply),
        ensures
            res@ == self@.next(reply),
    {
        proof {
            use_type_invariant(&self);
        }
        let Arming {
            settings,
            stage,
            reprog_index,
            controls,
            steps,
            progress,
            thumb_index,
            rollback,
        } = self;
        let rest = Arming {
            settings,
            stage: Stage::Open,
            reprog_index,
            controls,
            steps,
            progress,
            thumb_index,
            rollback,
        };
        match (stage, reply) {
            (Stage::Open, ArmReply::Failed(_)) => rest.at(
                Stage::Failed(GestureError::DeviceUnreachable(settings.slot)),
            ),
            (Stage::Open, _) => rest.at(Stage::FindReprog),
            (Stage::FindReprog, ArmReply::Failed(e)) => rest.at(
                Stage::Failed(GestureError::Hidpp(e)),
            ),
            (Stage::FindReprog, ArmReply::Feature(Some(index))) => Arming {
                stage: Stage::Count,
                reprog_index: Some(index),
                ..rest
            },
            (Stage::FindReprog, _) => rest.reprog_done(),
            (Stage::Count, ArmReply::Failed(e)) => rest.at(Stage::Failed(GestureError::Hidpp(e))),
            (Stage::Count, ArmReply::Count(count)) => if count > 0 {
                rest.at(Stage::Read { index: 0, count })
            } else {
                rest.table_read()
            },
            (Stage::Read { .. }, ArmReply::Failed(e)) => rest.at(
                Stage::Failed(GestureError::Hidpp(e)),
            ),
            (Stage::Read { index, count }, ArmReply::Control(row)) => {
                let read = rest.with_control(row);
                if index + 1 < count {
                    read.at(Stage::Read { index: index + 1, count })
                } else {
                    read.table_read()
                }
            },
            (Stage::Divert { .. }, ArmReply::Failed(e)) => {
                let cids = rollback_steps(&rest.progress);
                rest.abandoned(cids, GestureError::Hidpp(e))
            },
            (Stage::Divert { next }, _) => {
                let (cid, raw_xy) = rest.steps[next];
                let planned = rest.steps.len();
                let diverted = rest.with_divert(cid, raw_xy);
                if next + 1 < planned {
                    diverted.at(Stage::Divert { next: next + 1 })
                } else {
                    diverted.reprog_done()
                }
            },
            (Stage::FindThumbwheel, ArmReply::Failed(e)) => {
                let cids = rollback_reprog(&rest.progress);
                rest.abandoned(cids, GestureError::Hidpp(e))
            },
            (Stage::FindThumbwheel, ArmReply::Feature(Some(index))) => Arming {
                stage: Stage::ReadThumbwheel,
                thumb_index: Some(index),
                ..rest
            },
            (Stage::FindThumbwheel, _) => rest.at(Stage::Armed),
            (Stage::ReadThumbwheel, ArmReply::Thumbwheel { single_tap: true }) => rest.at(
                Stage::DivertThumbwheel,
            ),
            (Stage::ReadThumbwheel, _) => Arming {
                stage: Stage::Armed,
                thumb_index: None,
                ..rest
            },
            (Stage::DivertThumbwheel, ArmReply::Failed(e)) => {
                let cids = rollback_reprog(&rest.progress);
                rest.abandoned(cids, GestureError::Hidpp(e))
            },
            (Stage::DivertThumbwheel, _) => rest.at(Stage::Armed),
            (Stage::Rollback { next, error }, _) => {
                let pending = rest.rollback.len();
                if next + 1 < pending {
                    rest.at(Stage::Rollback { next: next + 1, error })
                } else {
                    rest.at(Stage::Failed(error))
                }
            },
            (stage, _) => rest.at(stage),
        }
    }

    /// What became of the arming.
    #[must_use]
    pub fn outcome(self) -> (outcome: ArmOutcome)
        ensures
            match self@.stage {
                Stage::Armed => outcome matches ArmOutcome::Armed(controls) && describes(
                    controls,
                    self@,
                ),
                Stage::Failed(error) => outcome == ArmOutcome::Failed(error),
                _ => outcome == ArmOutcome::Pending(self),
            },
    {
        match &self.stage {
            Stage::Armed => {
                let (gesture_diverted, dpi_cids, dpi_as_gesture) = summarize(&self.progress);
                ArmOutcome::Armed(
                    ArmedControls {
                        reprog_index: self.reprog_index,
                        gesture_diverted,
                        dpi_cids,
                        dpi_as_gesture,
                        thumb_index: self.thumb_index,
                    },
                )
            },
            Stage::Failed(_) => match self.stage {
                Stage::Failed(error) => ArmOutcome::Failed(error),
                _ => ArmOutcome::Pending(self),
            },
            _ => ArmOutcome::Pending(self),
        }
    }
}

/// What a device has diverted, and what it refused to take back.
#[verifier::ext_equal]
pub struct Held {
    /// The controls that are diverted.
    pub cids: Set<u16>,
    /// Whether the thumb wheel is diverted.
    pub wheel: bool,
    /// The controls for which a request to hand them back failed.
    pub refused: Set<u16>,
    /// Whether a request to hand the thumb wheel back failed.
    pub wheel_refused: bool,
}

impl Held {
    /// A device with nothing diverted that refused nothing.
    pub open spec fn nothing() -> Held {
        Held { cids: Set::empty(), wheel: false, refused: Set::empty(), wheel_refused: false }
    }

    /// What is diverted after a request: it has an effect when it succeeded,
    /// and one to hand back is remembered when it failed.
    pub open spec fn then_made(self, request: ArmRequest, succeeded: bool) -> Held {
        match request {
            ArmRequest::SetReporting { cid, divert, .. } => if divert && succeeded {
                Held { cids: self.cids.insert(cid), ..self }
            } else if divert {
                self
            } else if succeeded {
                Held { cids: self.cids.remove(cid), ..self }
            } else {
                Held { refused: self.refused.insert(cid), ..self }
            },
            ArmRequest::SetThumbwheel { divert } => if succeeded {
                Held { wheel: divert, ..self }
            } else if divert {
                self
            } else {
                Held { wheel_refused: true, ..self }
            },
            _ => self,
        }
    }

    /// What is diverted after a list of requests, of which those at the
    /// positions that `succeeded` holds true at succeeded.
    pub open spec fn after_all(self, requests: Seq<ArmRequest>, succeeded: Seq<bool>) -> Held
        decreases requests.len(),
    {
        if requests.len() == 0 {
            self
        } else {
            self.after_all(requests.drop_last(), succeeded).then_made(
                requests.last(),
                succeeded[requests.len() - 1],
            )
        }
    }
}

/// Where an arming stands after a list of replies.
pub open spec fn arming_after(settings: ArmSettings, replies: Seq<ArmReply>) -> ArmingView
    decreases replies.len(),
{
    if replies.len() == 0 {
        started(settings)
    } else {
        arming_after(settings, replies.drop_last()).next(replies.last())
    }
}

/// Whether each reply of a list is one to the request made at its time.
pub open spec fn answers(settings: ArmSettings, replies: Seq<ArmReply>) -> bool
    decreases replies.len(),
{
    replies.len() == 0 || (answers(settings, replies.drop_last()) && arming_after(
        settings,
        replies.drop_last(),
    ).accepts(replies.last()))
}

/// What a device has diverted after a list of replies, if nothing was before.
pub open spec fn held_after(settings: ArmSettings, replies: Seq<ArmReply>) -> Held
    decreases replies.len(),
{
    if replies.len() == 0 {
        Held::nothing()
    } else {
        let before = arming_after(settings, replies.drop_last());
        held_after(settings, replies.drop_last()).then_made(
            before.request()->0,
            !(replies.last() is Failed),
        )
    }
}

/// The controls of a list of diverts.
pub open spec fn armed_cids(armed: Seq<ArmedDivert>) -> Set<u16> {
    Set::new(|cid: u16| exists|i: int| 0 <= i < armed.len() && (#[trigger] armed[i]).cid == cid)
}

/// Whether every divert is one of a control that a plan can name.
spec fn all_known(armed: Seq<ArmedDivert>) -> bool {
    forall|i: int|
        0 <= i < armed.len() ==> ((#[trigger] armed[i]).cid == GESTURE_BUTTON_CID
            || dpi_cids().contains(armed[i].cid))
}

/// Whether every step is one for a control that a plan can name.
spec fn steps_known(steps: Seq<(u16, bool)>) -> bool {
    forall|i: int|
        0 <= i < steps.len() ==> ((#[trigger] steps[i]).0 == GESTURE_BUTTON_CID
            || dpi_cids().contains(steps[i].0))
}

/// Whether every control of a set is still to be handed back.
spec fn pending_covers(rollback: Seq<u16>, next: int, cids: Set<u16>) -> bool {
    forall|cid: u16| #[trigger]
        cids.contains(cid) ==> exists|i: int|
            next <= i < rollback.len() && #[trigger] rollback[i] == cid
}

/// Whether a device refused nothing so far.
spec fn obliging(held: Held) -> bool {
    held.refused == Set::<u16>::empty() && !held.wheel_refused
}

/// What holds of every state that an arming reaches.
spec fn tracks(state: ArmingView, held: Held) -> bool {
    &&& state.well_formed()
    &&& all_known(state.armed)
    &&& steps_known(state.steps)
    &&& (state.armed.len() > 0 || state.stage is Count || state.stage is Read
        || state.stage is Divert) ==> state.reprog_index is Some
    &&& match state.stage {
        Stage::Rollback { next, .. } => {
            &&& !held.wheel && !held.wheel_refused
            &&& pending_covers(state.rollback, next as int, held.cids.difference(held.refused))
        },
        Stage::Failed(_) => {
            &&& !held.wheel && !held.wheel_refused
            &&& held.cids.subset_of(held.refused)
        },
        Stage::Armed => {
            &&& obliging(held)
            &&& held.cids == armed_cids(state.armed)
            &&& held.wheel == (state.thumb_index is Some)
        },
        Stage::ReadThumbwheel | Stage::DivertThumbwheel => {
            &&& obliging(held)
            &&& held.cids == armed_cids(state.armed)
            &&& !held.wheel
            &&& state.thumb_index is Some
        },
        Stage::Divert { .. } | Stage::FindThumbwheel => {
            &&& obliging(held)
            &&& held.cids == armed_cids(state.armed)
            &&& !held.wheel
            &&& state.thumb_index is None
        },
        _ => {
            &&& held == Held::nothing()
            &&& state.armed.len() == 0
            &&& state.thumb_index is None
        },
    }
}

proof fn lemma_armed_cids_push(armed: Seq<ArmedDivert>, d: ArmedDivert)
    ensures
        armed_cids(armed.push(d)) == armed_cids(armed).insert(d.cid),
{
    let longer = armed.push(d);
    assert forall|cid: u16| #[trigger] armed_cids(longer).contains(cid) <==> armed_cids(
        armed,
    ).contains(cid) || cid == d.cid by {
        if armed_cids(longer).contains(cid) {
            let i = choose|i: int| 0 <= i < longer.len() && (#[trigger] longer[i]).cid == cid;
            if i < armed.len() {
                assert(armed[i].cid == cid);
            }
        }
        if armed_cids(armed).contains(cid) {
            let i = choose|i: int| 0 <= i < armed.len() && (#[trigger] armed[i]).cid == cid;
            assert(longer[i].cid == cid);
        }
        assert(longer[armed.len() as int] == d);
    }
    assert(armed_cids(longer) =~= armed_cids(armed).insert(d.cid));
}

proof fn lemma_steps_cover(armed: Seq<ArmedDivert>)
    ensures
        pending_covers(
            armed.reverse().map_values(|d: ArmedDivert| d.cid),
            0,
            armed_cids(armed),
        ),
{
    let order = armed.reverse().map_values(|d: ArmedDivert| d.cid);
    assert forall|cid: u16| #[trigger] armed_cids(armed).contains(cid) implies exists|i: int|
        0 <= i < order.len() && #[trigger] order[i] == cid by {
        let i = choose|i: int| 0 <= i < armed.len() && (#[trigger] armed[i]).cid == cid;
        assert(order[armed.len() - 1 - i] == cid);
    }
}

/// The DPI controls among known diverts are all of them but the dedicated
/// gesture button.
proof fn lemma_dpi_armed(armed: Seq<ArmedDivert>, cid: u16)
    requires
        all_known(armed),
    ensures
        dpi_armed(armed).contains(cid) <==> armed_cids(armed).contains(cid) && cid
            != GESTURE_BUTTON_CID,
{
    let pick = |d: ArmedDivert|
        if d.cid != GESTURE_BUTTON_CID && dpi_cids().contains(d.cid) {
            Some(d.cid)
        } else {
            None
        };
    if dpi_armed(armed).contains(cid) {
        armed.lemma_filter_map_contains(pick, cid);
        let d = choose|d: ArmedDivert| #[trigger] armed.contains(d) && pick(d) == Some(cid);
        let i = choose|i: int| 0 <= i < armed.len() && armed[i] == d;
        assert(armed[i].cid == cid);
    }
    if armed_cids(armed).contains(cid) && cid != GESTURE_BUTTON_CID {
        let i = choose|i: int| 0 <= i < armed.len() && (#[trigger] armed[i]).cid == cid;
        lemma_filter_map_keeps(armed, pick, i);
    }
}

proof fn lemma_restores_cover(armed: Seq<ArmedDivert>)
    requires
        all_known(armed),
    ensures
        pending_covers(reprog_restores(armed), 0, armed_cids(armed)),
{
    let order = reprog_restores(armed);
    let rest = dpi_armed(armed);
    assert forall|cid: u16| #[trigger] armed_cids(armed).contains(cid) implies exists|i: int|
        0 <= i < order.len() && #[trigger] order[i] == cid by {
        lemma_dpi_armed(armed, cid);
        if cid == GESTURE_BUTTON_CID {
            let i = choose|i: int| 0 <= i < armed.len() && (#[trigger] armed[i]).cid == cid;
            assert(gesture_armed(armed));
            assert(order[0] == cid);
        } else {
            let i = choose|i: int| 0 <= i < rest.len() && rest[i] == cid;
            assert(order[order.len() - rest.len() + i] == cid);
        }
    }
}

proof fn lemma_tracks_planned(state: ArmingView)
    requires
        tracks(ArmingView { stage: Stage::Count, ..state }, Held::nothing()),
    ensures
        tracks(state.table_read(), Held::nothing()),
{
    let wanted = state.settings.divert_gesture_button;
    let gesturing = state.settings.dpi_as_gesture;
    let steps = plan_spec(state.controls, wanted, gesturing);
    assert forall|i: int| 0 <= i < steps.len() implies ((
    #[trigger] steps[i]).0 == GESTURE_BUTTON_CID || dpi_cids().contains(steps[i].0)) by {
        law_plan_names_known_controls(state.controls, wanted, gesturing, i);
    }
    assert(armed_cids(state.armed) =~= Set::<u16>::empty());
}

proof fn lemma_tracks_abandoned(
    state: ArmingView,
    held: Held,
    rollback: Seq<u16>,
    error: GestureError,
)
    requires
        tracks(state, held),
        obliging(held),
        !held.wheel,
        pending_covers(rollback, 0, held.cids),
    ensures
        tracks(state.abandoned(rollback, error), held),
{
    assert(held.cids.difference(held.refused) =~= held.cids);
    if rollback.len() == 0 {
        assert(held.cids =~= Set::<u16>::empty());
    }
}

proof fn lemma_tracks_rollback(state: ArmingView, held: Held, reply: ArmReply)
    requires
        tracks(state, held),
        state.stage is Rollback,
    ensures
        tracks(state.next(reply), held.then_made(state.request()->0, !(reply is Failed))),
{
    if let Stage::Rollback { next: at, error } = state.stage {
        let then = held.then_made(state.request()->0, !(reply is Failed));
        let owed = then.cids.difference(then.refused);
        assert forall|cid: u16| #[trigger] owed.contains(cid) implies exists|i: int|
            at + 1 <= i < state.rollback.len() && #[trigger] state.rollback[i] == cid by {
            assert(held.cids.difference(held.refused).contains(cid));
            let i = choose|i: int|
                at <= i < state.rollback.len() && #[trigger] state.rollback[i] == cid;
            assert(i != at);
        }
        if at + 1 >= state.rollback.len() {
            assert forall|cid: u16| #[trigger] then.cids.contains(cid) implies then.refused.contains(
                cid,
            ) by {
                assert(!owed.contains(cid));
            }
        }
    }
}

proof fn lemma_tracks_divert(state: ArmingView, held: Held, reply: ArmReply)
    requires
        tracks(state, held),
        state.stage is Divert,
    ensures
        tracks(state.next(reply), held.then_made(state.request()->0, !(reply is Failed))),
{
    if let Stage::Divert { next: at } = state.stage {
        if let ArmReply::Failed(e) = reply {
            lemma_steps_cover(state.armed);
            lemma_tracks_abandoned(
                state,
                held,
                state.armed.reverse().map_values(|d: ArmedDivert| d.cid),
                GestureError::Hidpp(e),
            );
        } else {
            let step = state.steps[at as int];
            let made = ArmedDivert { cid: step.0, raw_xy: step.1 };
            lemma_armed_cids_push(state.armed, made);
            assert(all_known(state.armed.push(made)));
        }
    }
}

/// Whatever the reply, the next state is tracked too.
proof fn lemma_tracks_next(state: ArmingView, held: Held, reply: ArmReply)
    requires
        tracks(state, held),
        state.accepts(reply),
    ensures
        tracks(state.next(reply), held.then_made(state.request()->0, !(reply is Failed))),
{
    match (state.stage, reply) {
        (Stage::Count, ArmReply::Count(count)) => {
            lemma_tracks_planned(state);
        },
        (Stage::Read { .. }, ArmReply::Control(row)) => {
            lemma_tracks_planned(ArmingView { controls: state.controls.push(row), ..state });
        },
        (Stage::Divert { .. }, _) => {
            lemma_tracks_divert(state, held, reply);
        },
        (Stage::FindThumbwheel, ArmReply::Failed(e)) => {
            lemma_restores_cover(state.armed);
            lemma_tracks_abandoned(
                state,
                held,
                reprog_restores(state.armed),
                GestureError::Hidpp(e),
            );
        },
        (Stage::DivertThumbwheel, ArmReply::Failed(e)) => {
            lemma_restores_cover(state.armed);
            lemma_tracks_abandoned(
                state,
                held,
                reprog_restores(state.armed),
                GestureError::Hidpp(e),
            );
        },
        (Stage::Rollback { .. }, _) => {
            lemma_tracks_rollback(state, held, reply);
        },
        _ => {
            assert(armed_cids(Seq::empty()) =~= Set::<u16>::empty());
            assert(state.armed.len() == 0 ==> state.armed =~= Seq::<ArmedDivert>::empty());
        },
    }
}

proof fn lemma_tracks(settings: ArmSettings, replies: Seq<ArmReply>)
    requires
        answers(settings, replies),
    ensures
        tracks(arming_after(settings, replies), held_after(settings, replies)),
    decreases replies.len(),
{
    if replies.len() > 0 {
        let earlier = replies.drop_last();
        lemma_tracks(settings, earlier);
        lemma_tracks_next(
            arming_after(settings, earlier),
            held_after(settings, earlier),
            replies.last(),
        );
    }
}

/// An arming that failed leaves diverted only controls whose own hand-back
/// failed, and never the thumb wheel, wherever it failed. So where no hand-back
/// failed, nothing is left diverted.
pub proof fn law_failed_arming_leaves_only_refused(settings: ArmSettings, replies: Seq<ArmReply>)
    requires
        answers(settings, replies),
        arming_after(settings, replies).stage is Failed,
    ensures
        held_after(settings, replies).cids.subset_of(held_after(settings, replies).refused),
        !held_after(settings, replies).wheel,
        held_after(settings, replies).refused == Set::<u16>::empty() ==> held_after(
            settings,
            replies,
        ) == Held::nothing(),
{
    lemma_tracks(settings, replies);
    let held = held_after(settings, replies);
    if held.refused == Set::<u16>::empty() {
        assert(held.cids =~= Set::<u16>::empty());
    }
}

/// An arming that succeeded has diverted exactly what it reports: the dedicated
/// gesture button, the DPI controls and the thumb wheel.
pub proof fn law_armed_controls_are_held(
    settings: ArmSettings,
    replies: Seq<ArmReply>,
    controls: ArmedControls,
)
    requires
        answers(settings, replies),
        arming_after(settings, replies).stage is Armed,
        describes(controls, arming_after(settings, replies)),
    ensures
        forall|cid: u16| #[trigger]
            held_after(settings, replies).cids.contains(cid) <==> (cid == GESTURE_BUTTON_CID
                && controls.gesture_diverted) || controls.dpi_cids@.contains(cid),
        held_after(settings, replies).wheel == (controls.thumb_index is Some),
{
    lemma_tracks(settings, replies);
    let armed = arming_after(settings, replies).armed;
    assert forall|cid: u16| #[trigger]
        held_after(settings, replies).cids.contains(cid) <==> (cid == GESTURE_BUTTON_CID
            && controls.gesture_diverted) || controls.dpi_cids@.contains(cid) by {
        lemma_dpi_armed(armed, cid);
    }
}

/// A list of requests that hand back takes away what it names, save for what
/// it fails on, and adds nothing.
proof fn lemma_handed_back(held: Held, requests: Seq<ArmRequest>, succeeded: Seq<bool>)
    requires
        forall|i: int|
            0 <= i < requests.len() ==> (#[trigger] requests[i] == (ArmRequest::SetThumbwheel {
                divert: false,
            }) || exists|cid: u16| requests[i] == #[trigger] hand_back(cid)),
    ensures
        forall|cid: u16| #[trigger]
            held.after_all(requests, succeeded).cids.contains(cid) ==> held.cids.contains(cid) && (
            requests.contains(hand_back(cid)) ==> held.after_all(
                requests,
                succeeded,
            ).refused.contains(cid)),
        held.after_all(requests, succeeded).wheel ==> held.wheel && (requests.contains(
            ArmRequest::SetThumbwheel { divert: false },
        ) ==> held.after_all(requests, succeeded).wheel_refused),
        (forall|i: int| 0 <= i < requests.len() ==> #[trigger] succeeded[i]) ==> held.after_all(
            requests,
            succeeded,
        ).refused == held.refused && held.after_all(requests, succeeded).wheel_refused
            == held.wheel_refused,
    decreases requests.len(),
{
    if requests.len() > 0 {
        let earlier = requests.drop_last();
        assert forall|i: int| 0 <= i < earlier.len() implies (#[trigger] earlier[i] == (
        ArmRequest::SetThumbwheel { divert: false }) || exists|cid: u16|
            earlier[i] == #[trigger] hand_back(cid)) by {
            assert(earlier[i] == requests[i]);
        }
        lemma_handed_back(held, earlier, succeeded);
        assert forall|r: ArmRequest| #[trigger] requests.contains(r) implies earlier.contains(r) || r
            == requests.last() by {
            if r != requests.last() {
                let i = choose|i: int| 0 <= i < requests.len() && requests[i] == r;
                assert(earlier[i] == r);
            }
        }
        assert(requests[requests.len() - 1] == requests.last());
        let before = held.after_all(earlier, succeeded);
        let after = held.after_all(requests, succeeded);
        assert forall|cid: u16| #[trigger] after.cids.contains(cid) implies held.cids.contains(cid)
            && (requests.contains(hand_back(cid)) ==> after.refused.contains(cid)) by {
            assert(before.cids.contains(cid));
            assert(requests.contains(hand_back(cid)) ==> earlier.contains(hand_back(cid))
                || hand_back(cid) == requests.last());
        }
    }
}

/// Disarming after a successful arming leaves diverted only what it failed to
/// hand back: nothing, where every request succeeded.
pub proof fn law_disarm_leaves_only_refused(
    settings: ArmSettings,
    replies: Seq<ArmReply>,
    controls: ArmedControls,
    succeeded: Seq<bool>,
)
    requires
        answers(settings, replies),
        arming_after(settings, replies).stage is Armed,
        describes(controls, arming_after(settings, replies)),
        succeeded.len() == disarm_spec(controls).len(),
    ensures
        ({
            let after = held_after(settings, replies).after_all(disarm_spec(controls), succeeded);
            &&& after.cids.subset_of(after.refused)
            &&& after.wheel ==> after.wheel_refused
            &&& (forall|i: int| 0 <= i < disarm_spec(controls).len() ==> #[trigger] succeeded[i])
                ==> after == Held::nothing()
        }),
{
    lemma_tracks(settings, replies);
    law_armed_controls_are_held(settings, replies, controls);
    let held = held_after(settings, replies);
    let armed = arming_after(settings, replies).armed;
    let requests = disarm_spec(controls);
    let wheel = ArmRequest::SetThumbwheel { divert: false };
    lemma_handed_back(held, requests, succeeded);
    let after = held.after_all(requests, succeeded);
    assert forall|cid: u16| #[trigger] after.cids.contains(cid) implies after.refused.contains(
        cid,
    ) by {
        assert(held.cids.contains(cid));
        assert(armed.len() > 0);
        if cid == GESTURE_BUTTON_CID {
            lemma_dpi_armed(armed, cid);
            assert(requests[0] == hand_back(cid));
        } else {
            let i = choose|i: int|
                0 <= i < controls.dpi_cids@.len() && controls.dpi_cids@[i] == cid;
            let first: int = if controls.gesture_diverted {
                1
            } else {
                0
            };
            assert(requests[first + i] == hand_back(cid));
        }
    }
    if held.wheel {
        assert(requests[requests.len() - 1] == wheel);
    }
    if forall|i: int| 0 <= i < requests.len() ==> #[trigger] succeeded[i] {
        assert(after.cids =~= Set::<u16>::empty());
        assert(after =~= Held::nothing());
    }
}

/// How far an arming is: it only moves to earlier of these, or stays.
pub open spec fn phase(state: ArmingView) -> nat {
    match state.stage {
        Stage::Open => 9,
        Stage::FindReprog => 8,
        Stage::Count => 7,
        Stage::Read { .. } => 6,
        Stage::Divert { .. } => 5,
        Stage::FindThumbwheel => 4,
        Stage::ReadThumbwheel => 3,
        Stage::DivertThumbwheel => 2,
        Stage::Rollback { .. } => 1,
        Stage::Armed => 0,
        Stage::Failed(_) => 0,
    }
}

/// How many requests a phase can still make.
pub open spec fn left_in_phase(state: ArmingView) -> int {
    match state.stage {
        Stage::Read { index, count } => count - index,
        Stage::Divert { next } => state.steps.len() - next,
        Stage::Rollback { next, .. } => state.rollback.len() - next,
        _ => 0,
    }
}

/// Arming ends: each reply brings it closer to its end.
pub proof fn law_arming_ends(state: ArmingView, reply: ArmReply)
    requires
        state.well_formed(),
        state.accepts(reply),
        state.steps.len() <= usize::MAX,
        state.rollback.len() <= usize::MAX,
    ensures
        state.next(reply).well_formed(),
        decreases_to!(
            phase(state), left_in_phase(state) =>
            phase(state.next(reply)), left_in_phase(state.next(reply))
        ),
{
}

/// An arming that is over makes no request, and one that is not over makes one.
pub proof fn law_requests_until_the_end(state: ArmingView)
    ensures
        state.request() is None <==> state.stage is Armed || state.stage is Failed,
        state.request() is None <==> forall|reply: ArmReply| !#[trigger] state.accepts(reply),
{
    assert(state.accepts(ArmReply::Failed(arbitrary())) || state.stage is Armed
        || state.stage is Failed);
}

/// Arming fails only when a request failed.
pub proof fn law_arming_without_failures_succeeds(settings: ArmSettings, replies: Seq<ArmReply>)
    requires
        answers(settings, replies),
        forall|i: int| 0 <= i < replies.len() ==> !(#[trigger] replies[i] is Failed),
    ensures
        !(arming_after(settings, replies).stage is Failed),
        !(arming_after(settings, replies).stage is Rollback),
    decreases replies.len(),
{
    if replies.len() > 0 {
        let earlier = replies.drop_last();
        assert forall|i: int| 0 <= i < earlier.len() implies !(#[trigger] earlier[i] is Failed) by {
            assert(earlier[i] == replies[i]);
        }
        law_arming_without_failures_succeeds(settings, earlier);
        assert(!(replies[replies.len() - 1] is Failed));
    }
}

/// How the diverts made so far relate to the plan, while nothing has failed.
spec fn follows_plan(settings: ArmSettings, state: ArmingView) -> bool {
    let plan = plan_spec(
        state.controls,
        settings.divert_gesture_button,
        settings.dpi_as_gesture,
    );
    &&& state.settings == settings
    &&& state.well_formed()
    &&& match state.stage {
        Stage::Open | Stage::FindReprog | Stage::Count | Stage::Read { .. } => {
            state.armed.len() == 0 && state.thumb_index is None
        },
        Stage::Divert { next } => {
            &&& state.reprog_index is Some
            &&& state.thumb_index is None
            &&& state.steps == plan
            &&& state.armed == armed_by(plan, next as int)
        },
        Stage::FindThumbwheel
        | Stage::ReadThumbwheel
        | Stage::DivertThumbwheel
        | Stage::Armed => {
            &&& state.reprog_index is Some ==> state.armed == armed_by(plan, plan.len() as int)
            &&& state.reprog_index is None ==> state.armed.len() == 0
            &&& state.thumb_index is Some ==> settings.capture_thumbwheel
            &&& !(state.stage is Armed) ==> settings.capture_thumbwheel
        },
        Stage::Rollback { .. } | Stage::Failed(_) => true,
    }
    &&& (state.stage is Open || state.stage is FindReprog) ==> state.reprog_index is None
    &&& (state.stage is Count || state.stage is Read) ==> state.reprog_index is Some
}

proof fn lemma_planned(settings: ArmSettings, state: ArmingView)
    requires
        state.settings == settings,
        state.armed.len() == 0,
        state.reprog_index is Some,
        state.thumb_index is None,
    ensures
        follows_plan(settings, state.table_read()),
{
    let plan = plan_spec(
        state.controls,
        settings.divert_gesture_button,
        settings.dpi_as_gesture,
    );
    assert(state.armed =~= armed_by(plan, 0));
}

proof fn lemma_follows_diverted(settings: ArmSettings, state: ArmingView, reply: ArmReply)
    requires
        follows_plan(settings, state),
        state.stage is Divert,
        reply is Done,
    ensures
        follows_plan(settings, state.next(reply)),
{
    lemma_filter_map_len(
        dpi_cids(),
        |cid: u16| dpi_step(state.controls, settings.dpi_as_gesture, cid),
    );
    assert(state.next(reply).armed =~= armed_by(state.steps, state.stage->Divert_next + 1));
}

proof fn lemma_follows_next(settings: ArmSettings, state: ArmingView, reply: ArmReply)
    requires
        follows_plan(settings, state),
        state.accepts(reply),
    ensures
        follows_plan(settings, state.next(reply)),
{
    match (state.stage, reply) {
        (Stage::Count, ArmReply::Count(_)) => {
            lemma_planned(settings, state);
        },
        (Stage::Read { .. }, ArmReply::Control(row)) => {
            lemma_planned(settings, ArmingView { controls: state.controls.push(row), ..state });
        },
        (Stage::Divert { .. }, ArmReply::Done) => {
            lemma_follows_diverted(settings, state, reply);
        },
        _ => {},
    }
}

proof fn lemma_follows_plan(settings: ArmSettings, replies: Seq<ArmReply>)
    requires
        answers(settings, replies),
    ensures
        follows_plan(settings, arming_after(settings, replies)),
    decreases replies.len(),
{
    if replies.len() > 0 {
        let earlier = replies.drop_last();
        lemma_follows_plan(settings, earlier);
        lemma_follows_next(settings, arming_after(settings, earlier), replies.last());
    }
}

/// An arming that succeeded carried out the whole plan of the control table it
/// read, and nothing else; without the feature there is nothing to carry out.
/// The thumb wheel is diverted only when it was wanted.
pub proof fn law_armed_controls_are_the_plan(settings: ArmSettings, replies: Seq<ArmReply>)
    requires
        answers(settings, replies),
        arming_after(settings, replies).stage is Armed,
    ensures
        ({
            let state = arming_after(settings, replies);
            let plan = plan_spec(
                state.controls,
                settings.divert_gesture_button,
                settings.dpi_as_gesture,
            );
            &&& held_after(settings, replies).cids == if state.reprog_index is Some {
                cids_of(plan)
            } else {
                Set::empty()
            }
            &&& held_after(settings, replies).wheel ==> settings.capture_thumbwheel
        }),
{
    lemma_tracks(settings, replies);
    lemma_follows_plan(settings, replies);
    let state = arming_after(settings, replies);
    let plan = plan_spec(
        state.controls,
        settings.divert_gesture_button,
        settings.dpi_as_gesture,
    );
    if state.reprog_index is Some {
        let armed = armed_by(plan, plan.len() as int);
        assert forall|cid: u16| #[trigger] armed_cids(armed).contains(cid) <==> cids_of(
            plan,
        ).contains(cid) by {
            if armed_cids(armed).contains(cid) {
                let i = choose|i: int| 0 <= i < armed.len() && (#[trigger] armed[i]).cid == cid;
                assert(plan[i].0 == cid);
            }
            if cids_of(plan).contains(cid) {
                let i = choose|i: int| 0 <= i < plan.len() && (#[trigger] plan[i]).0 == cid;
                assert(armed[i].cid == cid);
            }
        }
        assert(armed_cids(armed) =~= cids_of(plan));
    } else {
        assert(armed_cids(state.armed) =~= Set::<u16>::empty());
    }
}

/// The plan of a run: that of the rows read so far.
pub open spec fn plan_of(settings: ArmSettings, state: ArmingView) -> Seq<(u16, bool)> {
    plan_spec(state.controls, settings.divert_gesture_button, settings.dpi_as_gesture)
}

/// The controls of the first `n` steps of a plan, without the dedicated gesture
/// button.
spec fn dpi_of(plan: Seq<(u16, bool)>, n: int) -> Seq<u16> {
    let cids = plan.take(n).map_values(|step: (u16, bool)| step.0);
    if cids.len() > 0 && cids[0] == GESTURE_BUTTON_CID {
        cids.skip(1)
    } else {
        cids
    }
}

proof fn lemma_dpi_of_plan(
    controls: Seq<CtrlIdInfo>,
    divert_gesture_button: bool,
    dpi_as_gesture: bool,
    n: int,
)
    requires
        0 <= n <= plan_spec(controls, divert_gesture_button, dpi_as_gesture).len(),
    ensures
        dpi_armed(armed_by(plan_spec(controls, divert_gesture_button, dpi_as_gesture), n))
            == dpi_of(plan_spec(controls, divert_gesture_button, dpi_as_gesture), n),
    decreases n,
{
    let plan = plan_spec(controls, divert_gesture_button, dpi_as_gesture);
    let pick = |d: ArmedDivert|
        if d.cid != GESTURE_BUTTON_CID && dpi_cids().contains(d.cid) {
            Some(d.cid)
        } else {
            None
        };
    let armed = armed_by(plan, n);
    if n == 0 {
        reveal(Seq::filter_map);
        assert(dpi_armed(armed) =~= dpi_of(plan, 0));
    } else {
        lemma_dpi_of_plan(controls, divert_gesture_button, dpi_as_gesture, n - 1);
        law_plan_names_known_controls(controls, divert_gesture_button, dpi_as_gesture, n - 1);
        if n > 1 {
            law_plan_names_known_controls(controls, divert_gesture_button, dpi_as_gesture, 0);
        }
        armed.lemma_filter_map_take_succ(pick, n - 1);
        assert(armed.take(n) =~= armed);
        assert(armed.take(n - 1) =~= armed_by(plan, n - 1));
        assert(dpi_armed(armed) =~= dpi_of(plan, n));
    }
}

/// What is known of each step of a plan and of the divert it becomes.
proof fn lemma_step_of_plan(
    rows: Seq<CtrlIdInfo>,
    wanted: bool,
    gesturing: bool,
    i: int,
)
    requires
        0 <= i < plan_spec(rows, wanted, gesturing).len(),
    ensures
        ({
            let plan = plan_spec(rows, wanted, gesturing);
            let made = armed_by(plan, plan.len() as int)[i];
            &&& made == (ArmedDivert { cid: plan[i].0, raw_xy: plan[i].1 })
            &&& plan[i].0 == 0x00c3 || plan[i].0 == 0x00c4 || plan[i].0 == 0x00ed || plan[i].0
                == 0x00fd
            &&& plan[i].0 == 0x00c3 ==> i == 0 && plan[i].1 && wanted
            &&& plan[i].0 != 0x00c3 ==> dpi_cids().contains(plan[i].0)
            &&& plan[i].0 != 0x00c3 && plan[i].1 ==> gesturing
        }),
{
    law_plan_names_known_controls(rows, wanted, gesturing, i);
    assert(dpi_cids()[0] == 0x00c4 && dpi_cids()[1] == 0x00ed && dpi_cids()[2] == 0x00fd);
}

proof fn lemma_gesture_of_plan(rows: Seq<CtrlIdInfo>, wanted: bool, gesturing: bool)
    ensures
        ({
            let plan = plan_spec(rows, wanted, gesturing);
            let armed = armed_by(plan, plan.len() as int);
            let cids = plan.map_values(|step: (u16, bool)| step.0);
            &&& gesture_armed(armed) <==> plan.contains((0x00c3u16, true))
            &&& gesture_armed(armed) ==> cids == seq![0x00c3u16] + dpi_armed(armed) && wanted
            &&& !gesture_armed(armed) ==> cids == dpi_armed(armed)
        }),
{
    let plan = plan_spec(rows, wanted, gesturing);
    let n = plan.len() as int;
    let armed = armed_by(plan, n);
    let cids = plan.map_values(|step: (u16, bool)| step.0);
    lemma_dpi_of_plan(rows, wanted, gesturing, n);
    assert(plan.take(n) =~= plan);
    if gesture_armed(armed) {
        let i = choose|i: int|
            0 <= i < armed.len() && (#[trigger] armed[i]).cid == GESTURE_BUTTON_CID;
        lemma_step_of_plan(rows, wanted, gesturing, i);
        assert(plan[i] == (0x00c3u16, true));
        assert(cids[0] == GESTURE_BUTTON_CID);
        assert(cids =~= seq![0x00c3u16] + cids.skip(1));
    } else {
        if plan.contains((0x00c3u16, true)) {
            let i = choose|i: int| 0 <= i < plan.len() && plan[i] == (0x00c3u16, true);
            assert(armed[i].cid == GESTURE_BUTTON_CID);
        }
        if cids.len() > 0 {
            assert(armed[0].cid == cids[0]);
        }
    }
}

proof fn lemma_mode_of_plan(rows: Seq<CtrlIdInfo>, wanted: bool, gesturing: bool)
    ensures
        ({
            let plan = plan_spec(rows, wanted, gesturing);
            dpi_gesture_armed(armed_by(plan, plan.len() as int)) <==> gesturing && exists|cid: u16|
                (cid == 0x00c4 || cid == 0x00ed || cid == 0x00fd) && #[trigger] plan.contains(
                    (cid, true),
                )
        }),
{
    let plan = plan_spec(rows, wanted, gesturing);
    let armed = armed_by(plan, plan.len() as int);
    if dpi_gesture_armed(armed) {
        let i = choose|i: int|
            0 <= i < armed.len() && (#[trigger] armed[i]).cid != GESTURE_BUTTON_CID
                && dpi_cids().contains(armed[i].cid) && armed[i].raw_xy;
        lemma_step_of_plan(rows, wanted, gesturing, i);
        let cid = plan[i].0;
        assert(plan[i] == (cid, true));
        assert(plan.contains((cid, true)));
    }
    if exists|cid: u16|
        (cid == 0x00c4 || cid == 0x00ed || cid == 0x00fd) && #[trigger] plan.contains(
            (cid, true),
        ) {
        let cid = choose|cid: u16|
            (cid == 0x00c4 || cid == 0x00ed || cid == 0x00fd) && #[trigger] plan.contains(
                (cid, true),
            );
        let i = choose|i: int| 0 <= i < plan.len() && plan[i] == (cid, true);
        lemma_step_of_plan(rows, wanted, gesturing, i);
        assert(armed[i].raw_xy);
    }
}

/// What a successful arming reports, against its plan: the dedicated gesture
/// button is reported just when the plan names it; the other controls of the
/// plan are the reported DPI controls, in its order; and the DPI button is
/// reported as gesturing just when it was wanted for that and the plan asks for
/// raw movement on a DPI control.
pub proof fn law_report_follows_the_plan(
    settings: ArmSettings,
    replies: Seq<ArmReply>,
    controls: ArmedControls,
)
    requires
        answers(settings, replies),
        arming_after(settings, replies).stage is Armed,
        describes(controls, arming_after(settings, replies)),
    ensures
        ({
            let plan = plan_of(settings, arming_after(settings, replies));
            let cids = plan.map_values(|step: (u16, bool)| step.0);
            &&& controls.reprog_index is None ==> !controls.gesture_diverted
                && controls.dpi_cids@.len() == 0 && !controls.dpi_as_gesture
            &&& controls.reprog_index is Some ==> {
                &&& controls.gesture_diverted <==> plan.contains((0x00c3u16, true))
                &&& controls.gesture_diverted ==> cids == seq![0x00c3u16] + controls.dpi_cids@
                &&& !controls.gesture_diverted ==> cids == controls.dpi_cids@
                &&& controls.dpi_as_gesture <==> settings.dpi_as_gesture && exists|cid: u16|
                    (cid == 0x00c4 || cid == 0x00ed || cid == 0x00fd) && #[trigger] plan.contains(
                        (cid, true),
                    )
            }
            &&& !settings.dpi_as_gesture ==> !controls.dpi_as_gesture
            &&& !settings.divert_gesture_button ==> !controls.gesture_diverted
        }),
{
    lemma_follows_plan(settings, replies);
    let state = arming_after(settings, replies);
    let wanted = settings.divert_gesture_button;
    let gesturing = settings.dpi_as_gesture;
    lemma_gesture_of_plan(state.controls, wanted, gesturing);
    lemma_mode_of_plan(state.controls, wanted, gesturing);
    let plan = plan_of(settings, state);
    if state.reprog_index is Some {
        assert(state.armed == armed_by(plan, plan.len() as int));
        assert(controls.gesture_diverted <==> plan.contains((0x00c3u16, true)));
        assert(controls.gesture_diverted ==> plan.map_values(|step: (u16, bool)| step.0) =~= seq![
            0x00c3u16,
        ] + controls.dpi_cids@);
        assert(!controls.gesture_diverted ==> plan.map_values(|step: (u16, bool)| step.0)
            =~= controls.dpi_cids@);
    }
    if state.reprog_index is None {
        reveal(Seq::filter_map);
        assert(state.armed =~= Seq::<ArmedDivert>::empty());
        assert(dpi_armed(state.armed) =~= Seq::<u16>::empty());
    }
}

/// What a successful arming reports, against the control table it read: the
/// dedicated gesture button just when it was wanted and can report raw movement;
/// every DPI control that can be diverted; and the DPI button as gesturing just
/// when it was wanted for that and one of them can report raw movement.
pub proof fn law_report_follows_the_table(
    settings: ArmSettings,
    replies: Seq<ArmReply>,
    controls: ArmedControls,
    cid: u16,
)
    requires
        answers(settings, replies),
        arming_after(settings, replies).stage is Armed,
        describes(controls, arming_after(settings, replies)),
        controls.reprog_index is Some,
    ensures
        ({
            let rows = arming_after(settings, replies).controls;
            &&& controls.gesture_diverted <==> settings.divert_gesture_button && (row_of(
                rows,
                0x00c3,
            ) matches Some(row) && row.raw_xy)
            &&& controls.dpi_cids@.contains(cid) <==> (cid == 0x00c4 || cid == 0x00ed || cid
                == 0x00fd) && (row_of(rows, cid) matches Some(row) && row.divertable)
            &&& controls.dpi_as_gesture <==> settings.dpi_as_gesture && exists|dpi: u16|
                (dpi == 0x00c4 || dpi == 0x00ed || dpi == 0x00fd) && (#[trigger] row_of(
                    rows,
                    dpi,
                ) matches Some(row) && row.divertable && row.raw_xy)
        }),
{
    law_report_follows_the_plan(settings, replies, controls);
    let rows = arming_after(settings, replies).controls;
    let wanted = settings.divert_gesture_button;
    let gesturing = settings.dpi_as_gesture;
    let plan = plan_of(settings, arming_after(settings, replies));
    let cids = plan.map_values(|step: (u16, bool)| step.0);
    assert(dpi_cids()[0] == 0x00c4 && dpi_cids()[1] == 0x00ed && dpi_cids()[2] == 0x00fd);
    law_gesture_button_needs_raw_movement(rows, wanted, gesturing);
    assert(cids_of(plan).contains(0x00c3) <==> plan.contains((0x00c3u16, true))) by {
        if cids_of(plan).contains(0x00c3) {
            let i = choose|i: int| 0 <= i < plan.len() && (#[trigger] plan[i]).0 == 0x00c3;
            law_plan_names_known_controls(rows, wanted, gesturing, i);
            assert(plan[i] == (0x00c3u16, true));
        }
        if plan.contains((0x00c3u16, true)) {
            let i = choose|i: int| 0 <= i < plan.len() && plan[i] == (0x00c3u16, true);
            assert(plan[i].0 == 0x00c3);
        }
    }
    let dpi = controls.dpi_cids@;
    let first: int = if controls.gesture_diverted {
        1
    } else {
        0
    };
    assert(cids.len() == first + dpi.len());
    assert forall|k: int| 0 <= k < dpi.len() implies #[trigger] dpi[k] == plan[first + k].0 by {
        assert(cids[first + k] == dpi[k]);
    }
    if dpi.contains(cid) {
        let k = choose|k: int| 0 <= k < dpi.len() && dpi[k] == cid;
        law_plan_names_known_controls(rows, wanted, gesturing, first + k);
    }
    if dpi_cids().contains(cid) && (row_of(rows, cid) matches Some(row) && row.divertable) {
        law_dpi_is_always_diverted(rows, wanted, gesturing, cid);
        let step = (cid, gesturing && row_of(rows, cid)->0.raw_xy);
        let i = choose|i: int| 0 <= i < plan.len() && plan[i] == step;
        assert(cids[i] == cid);
        assert(i >= first);
        assert(dpi[i - first] == cid);
    }
    if controls.dpi_as_gesture {
        let which = choose|which: u16|
            (which == 0x00c4 || which == 0x00ed || which == 0x00fd) && #[trigger] plan.contains(
                (which, true),
            );
        let i = choose|i: int| 0 <= i < plan.len() && plan[i] == (which, true);
        law_plan_names_known_controls(rows, wanted, gesturing, i);
        assert(row_of(rows, which) is Some);
    }
    if settings.dpi_as_gesture && exists|which: u16|
        (which == 0x00c4 || which == 0x00ed || which == 0x00fd) && (#[trigger] row_of(
            rows,
            which,
        ) matches Some(row) && row.divertable && row.raw_xy) {
        let which = choose|which: u16|
            (which == 0x00c4 || which == 0x00ed || which == 0x00fd) && (#[trigger] row_of(
                rows,
                which,
            ) matches Some(row) && row.divertable && row.raw_xy);
        law_dpi_is_always_diverted(rows, wanted, gesturing, which);
        assert(plan.contains((which, true)));
    }
}

/// Once all diverts are made, what a failure hands back is the whole plan, in
/// its order; without the feature there is nothing to hand back.
pub proof fn law_restores_are_the_plan(settings: ArmSettings, replies: Seq<ArmReply>)
    requires
        answers(settings, replies),
        arming_after(settings, replies).stage is FindThumbwheel || arming_after(
            settings,
            replies,
        ).stage is DivertThumbwheel,
    ensures
        reprog_restores(arming_after(settings, replies).armed) == if arming_after(
            settings,
            replies,
        ).reprog_index is Some {
            plan_of(settings, arming_after(settings, replies)).map_values(
                |step: (u16, bool)| step.0,
            )
        } else {
            Seq::empty()
        },
{
    lemma_follows_plan(settings, replies);
    let state = arming_after(settings, replies);
    let plan = plan_of(settings, state);
    let cids = plan.map_values(|step: (u16, bool)| step.0);
    if state.reprog_index is Some {
        lemma_gesture_of_plan(
            state.controls,
            settings.divert_gesture_button,
            settings.dpi_as_gesture,
        );
        assert(reprog_restores(state.armed) =~= cids);
    } else {
        reveal(Seq::filter_map);
        assert(state.armed =~= Seq::<ArmedDivert>::empty());
        assert(reprog_restores(state.armed) =~= Seq::<u16>::empty());
    }
}

/// Disarming after a successful arming hands back every control of the plan, in
/// its order, then the thumb wheel if it was diverted, and nothing else.
pub proof fn law_disarm_hands_back_the_plan(
    settings: ArmSettings,
    replies: Seq<ArmReply>,
    controls: ArmedControls,
)
    requires
        answers(settings, replies),
        arming_after(settings, replies).stage is Armed,
        describes(controls, arming_after(settings, replies)),
    ensures
        ({
            let plan = plan_of(settings, arming_after(settings, replies));
            let requests = disarm_spec(controls);
            let back: int = if controls.reprog_index is Some {
                plan.len() as int
            } else {
                0
            };
            let wheel: int = if controls.thumb_index is Some {
                1
            } else {
                0
            };
            &&& requests.len() == back + wheel
            &&& forall|k: int|
                0 <= k < back ==> #[trigger] requests[k] == (ArmRequest::SetReporting {
                    cid: plan[k].0,
                    divert: false,
                    raw_xy: false,
                })
            &&& controls.thumb_index is Some ==> requests[back] == (ArmRequest::SetThumbwheel {
                divert: false,
            })
        }),
{
    law_report_follows_the_plan(settings, replies, controls);
    let plan = plan_of(settings, arming_after(settings, replies));
    let requests = disarm_spec(controls);
    let cids = plan.map_values(|step: (u16, bool)| step.0);
    if controls.reprog_index is Some {
        assert(cids.len() == plan.len());
        assert forall|k: int| 0 <= k < plan.len() implies #[trigger] requests[k] == hand_back(
            plan[k].0,
        ) by {
            assert(cids[k] == plan[k].0);
        }
    }
}

/// Each request is answered by a failure or by a reply of its own kind, and by
/// nothing else.
pub proof fn law_kinds_of_replies(state: ArmingView, reply: ArmReply)
    ensures
        match state.request() {
            None => !state.accepts(reply),
            Some(request) => state.accepts(reply) <==> reply is Failed || match request {
                ArmRequest::OpenDevice => reply is Done,
                ArmRequest::FindFeature(_) => reply is Feature,
                ArmRequest::CountControls => reply is Count,
                ArmRequest::ReadControl(_) => reply is Control,
                ArmRequest::SetReporting { .. } => reply is Done,
                ArmRequest::ReadThumbwheel => reply is Thumbwheel,
                ArmRequest::SetThumbwheel { .. } => reply is Done,
            },
        },
{
}

} // verus!
