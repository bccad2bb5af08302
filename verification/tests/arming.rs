use openlogi_gestures::arming::{
    ArmOutcome, ArmReply, ArmRequest, ArmSettings, ArmedControls, Arming, GestureError,
};
use openlogi_gestures::binding::ButtonId;
use openlogi_gestures::maps::ButtonSet;
use openlogi_gestures::wire::{CtrlIdInfo, REPROG_FEATURE_ID, THUMBWHEEL_FEATURE_ID};

/// A device with a control table, a thumb wheel, and requests that fail.
struct Mouse {
    controls: Vec<CtrlIdInfo>,
    reprog: Option<u8>,
    wheel: Option<u8>,
    single_tap: bool,
    failing: Vec<ArmRequest>,
    diverted: Vec<u16>,
    wheel_diverted: bool,
    asked: Vec<ArmRequest>,
}

fn mouse() -> Mouse {
    let row = |cid: u16| CtrlIdInfo {
        cid,
        divertable: true,
        raw_xy: true,
    };
    Mouse {
        controls: vec![row(0x00c4), row(0x0052), row(0x00c3), row(0x00ed)],
        reprog: Some(9),
        wheel: Some(12),
        single_tap: true,
        failing: vec![],
        diverted: vec![],
        wheel_diverted: false,
        asked: vec![],
    }
}

impl Mouse {
    fn ask(&mut self, request: ArmRequest) -> ArmReply {
        self.asked.push(request);
        if self.failing.contains(&request) {
            return ArmReply::Failed(format!("{request:?}"));
        }
        match request {
            ArmRequest::OpenDevice => ArmReply::Done,
            ArmRequest::FindFeature(REPROG_FEATURE_ID) => ArmReply::Feature(self.reprog),
            ArmRequest::FindFeature(THUMBWHEEL_FEATURE_ID) => ArmReply::Feature(self.wheel),
            ArmRequest::FindFeature(_) => ArmReply::Feature(None),
            ArmRequest::CountControls => ArmReply::Count(self.controls.len() as u8),
            ArmRequest::ReadControl(index) => ArmReply::Control(self.controls[index as usize]),
            ArmRequest::SetReporting { cid, divert, .. } => {
                self.diverted.retain(|held| *held != cid);
                if divert {
                    self.diverted.push(cid);
                }
                ArmReply::Done
            }
            ArmRequest::ReadThumbwheel => ArmReply::Thumbwheel {
                single_tap: self.single_tap,
            },
            ArmRequest::SetThumbwheel { divert } => {
                self.wheel_diverted = divert;
                ArmReply::Done
            }
        }
    }

    fn arm(&mut self, settings: ArmSettings) -> Result<ArmedControls, GestureError> {
        let mut arming = Arming::start(settings);
        while let Some(request) = arming.request() {
            let reply = self.ask(request);
            assert!(arming.accepts(&reply));
            arming = arming.reply(reply);
        }
        match arming.outcome() {
            ArmOutcome::Armed(controls) => Ok(controls),
            ArmOutcome::Failed(error) => Err(error),
            ArmOutcome::Pending(_) => unreachable!(),
        }
    }
}

fn settings(wheel: bool, buttons: &[ButtonId]) -> ArmSettings {
    let mut set = ButtonSet::new();
    for button in buttons {
        set.insert(*button);
    }
    ArmSettings::new(3, wheel, &set)
}

const BOTH: [ButtonId; 2] = [ButtonId::GestureButton, ButtonId::DpiToggle];

fn divert(cid: u16, raw_xy: bool) -> ArmRequest {
    ArmRequest::SetReporting {
        cid,
        divert: true,
        raw_xy,
    }
}

fn restore(cid: u16) -> ArmRequest {
    ArmRequest::SetReporting {
        cid,
        divert: false,
        raw_xy: false,
    }
}

#[test]
fn settings_ignore_other_buttons() {
    assert_eq!(
        settings(true, &[ButtonId::Back, ButtonId::DpiToggle]),
        ArmSettings {
            slot: 3,
            capture_thumbwheel: true,
            divert_gesture_button: false,
            dpi_as_gesture: true,
        }
    );
}

#[test]
fn everything_is_armed_in_order() {
    let mut device = mouse();
    let armed = device.arm(settings(true, &BOTH)).expect("arm");
    assert_eq!(
        device.asked,
        vec![
            ArmRequest::OpenDevice,
            ArmRequest::FindFeature(0x1b04),
            ArmRequest::CountControls,
            ArmRequest::ReadControl(0),
            ArmRequest::ReadControl(1),
            ArmRequest::ReadControl(2),
            ArmRequest::ReadControl(3),
            divert(0x00c3, true),
            divert(0x00c4, true),
            divert(0x00ed, true),
            ArmRequest::FindFeature(0x2150),
            ArmRequest::ReadThumbwheel,
            ArmRequest::SetThumbwheel { divert: true },
        ]
    );
    assert_eq!(
        armed,
        ArmedControls {
            reprog_index: Some(9),
            gesture_diverted: true,
            dpi_cids: vec![0x00c4, 0x00ed],
            dpi_as_gesture: true,
            thumb_index: Some(12),
        }
    );
    assert!(!armed.is_idle());
    let setup = armed.listener_setup(3);
    assert_eq!(setup.device_index, 3);
    assert_eq!(setup.reprog_index, Some(9));
    assert_eq!(setup.thumb_index, Some(12));
    assert_eq!(setup.dpi_cids, vec![0x00c4, 0x00ed]);
    assert!(setup.dpi_as_gesture);
}

#[test]
fn disarming_hands_everything_back() {
    let mut device = mouse();
    let armed = device.arm(settings(true, &BOTH)).expect("arm");
    assert_eq!(device.diverted, vec![0x00c3, 0x00c4, 0x00ed]);
    assert!(device.wheel_diverted);
    let requests = armed.disarm();
    assert_eq!(
        requests,
        vec![
            restore(0x00c3),
            restore(0x00c4),
            restore(0x00ed),
            ArmRequest::SetThumbwheel { divert: false },
        ]
    );
    for request in requests {
        assert_eq!(device.ask(request), ArmReply::Done);
    }
    assert!(device.diverted.is_empty());
    assert!(!device.wheel_diverted);
}

#[test]
fn dpi_is_diverted_plainly_when_it_does_not_gesture() {
    let mut device = mouse();
    let armed = device.arm(settings(false, &[])).expect("arm");
    assert!(!armed.gesture_diverted);
    assert_eq!(armed.dpi_cids, vec![0x00c4, 0x00ed]);
    assert!(!armed.dpi_as_gesture);
    assert_eq!(armed.thumb_index, None);
    assert!(device.asked.contains(&divert(0x00c4, false)));
}

#[test]
fn a_device_without_the_features_is_idle() {
    let mut device = mouse();
    device.reprog = None;
    device.wheel = None;
    let armed = device.arm(settings(true, &BOTH)).expect("arm");
    assert!(armed.is_idle());
    assert_eq!(armed.reprog_index, None);
    assert!(armed.disarm().is_empty());
}

#[test]
fn an_empty_control_table_arms_nothing() {
    let mut device = mouse();
    device.controls.clear();
    let armed = device.arm(settings(false, &BOTH)).expect("arm");
    assert!(armed.is_idle());
    assert_eq!(armed.reprog_index, Some(9));
}

#[test]
fn an_unreachable_device_is_an_error() {
    let mut device = mouse();
    device.failing = vec![ArmRequest::OpenDevice];
    assert_eq!(
        device.arm(settings(true, &BOTH)),
        Err(GestureError::DeviceUnreachable(3))
    );
}

#[test]
fn failures_before_the_first_divert_end_arming() {
    for request in [
        ArmRequest::FindFeature(REPROG_FEATURE_ID),
        ArmRequest::CountControls,
        ArmRequest::ReadControl(2),
    ] {
        let mut device = mouse();
        device.failing = vec![request];
        assert_eq!(
            device.arm(settings(true, &BOTH)),
            Err(GestureError::Hidpp(format!("{request:?}")))
        );
        assert_eq!(device.asked.last(), Some(&request));
    }
}

#[test]
fn a_failed_divert_rolls_back_last_first() {
    let mut device = mouse();
    device.failing = vec![divert(0x00ed, true)];
    assert!(device.arm(settings(true, &BOTH)).is_err());
    assert_eq!(
        device.asked[device.asked.len() - 3..].to_vec(),
        vec![divert(0x00ed, true), restore(0x00c4), restore(0x00c3)]
    );
    assert!(device.diverted.is_empty());
}

#[test]
fn a_failed_first_divert_needs_no_rollback() {
    let mut device = mouse();
    device.failing = vec![divert(0x00c3, true)];
    assert_eq!(
        device.arm(settings(true, &BOTH)),
        Err(GestureError::Hidpp(format!("{:?}", divert(0x00c3, true))))
    );
    assert_eq!(device.asked.last(), Some(&divert(0x00c3, true)));
}

#[test]
fn a_failure_at_the_wheel_rolls_back_every_divert() {
    for request in [
        ArmRequest::FindFeature(THUMBWHEEL_FEATURE_ID),
        ArmRequest::SetThumbwheel { divert: true },
    ] {
        let mut device = mouse();
        device.failing = vec![request];
        assert_eq!(
            device.arm(settings(true, &BOTH)),
            Err(GestureError::Hidpp(format!("{request:?}")))
        );
        assert_eq!(
            device.asked[device.asked.len() - 4..].to_vec(),
            vec![request, restore(0x00c3), restore(0x00c4), restore(0x00ed)]
        );
        assert!(device.diverted.is_empty());
        assert!(!device.wheel_diverted);
    }
}

#[test]
fn a_failed_restore_does_not_stop_the_arm_rollback() {
    let mut device = mouse();
    device.failing = vec![divert(0x00ed, true), restore(0x00c4)];
    assert_eq!(
        device.arm(settings(false, &BOTH)),
        Err(GestureError::Hidpp(format!("{:?}", divert(0x00ed, true))))
    );
    assert_eq!(device.asked.last(), Some(&restore(0x00c3)));
    assert_eq!(device.diverted, vec![0x00c4]);
}

#[test]
fn disarming_leaves_only_what_refuses() {
    let mut device = mouse();
    let armed = device.arm(settings(true, &BOTH)).expect("arm");
    device.failing = vec![restore(0x00c4)];
    for request in armed.disarm() {
        device.ask(request);
    }
    assert_eq!(device.diverted, vec![0x00c4]);
    assert!(!device.wheel_diverted);
}

#[test]
fn a_wheel_that_tells_no_taps_is_left_alone() {
    let mut device = mouse();
    device.single_tap = false;
    let armed = device.arm(settings(true, &BOTH)).expect("arm");
    assert_eq!(armed.thumb_index, None);
    assert!(!device.wheel_diverted);

    let mut device = mouse();
    device.failing = vec![ArmRequest::ReadThumbwheel];
    let armed = device.arm(settings(true, &BOTH)).expect("arm");
    assert_eq!(armed.thumb_index, None);
    assert!(armed.gesture_diverted);
}

#[test]
fn a_reply_of_another_kind_is_not_accepted() {
    let arming = Arming::start(settings(true, &BOTH));
    assert_eq!(arming.request(), Some(ArmRequest::OpenDevice));
    assert!(!arming.accepts(&ArmReply::Count(1)));
    assert!(arming.accepts(&ArmReply::Done));
    match arming.outcome() {
        ArmOutcome::Pending(arming) => {
            let failed = arming.reply(ArmReply::Failed("gone".to_string()));
            assert_eq!(failed.request(), None);
            assert!(!failed.accepts(&ArmReply::Done));
        }
        _ => panic!("arming has not begun"),
    }
}
