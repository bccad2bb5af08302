use openlogi_gestures::binding::{ButtonId, GestureDirection};
use openlogi_gestures::capture::{
    handle_report, handle_reprog, handle_wheel, CaptureAccum, CapturedInput, ListenerSetup,
};
use openlogi_gestures::swipe::{detect_swipe, SwipeAccumulator, MIN_HOLD_MS};
use openlogi_gestures::wire::{
    RawControlEvent, RawReport, ThumbwheelEvent, DPI_MODE_SHIFT_CIDS, GESTURE_BUTTON_CID,
};

fn press() -> RawControlEvent {
    RawControlEvent::DivertedButtons([GESTURE_BUTTON_CID, 0, 0, 0])
}

fn release() -> RawControlEvent {
    RawControlEvent::DivertedButtons([0, 0, 0, 0])
}

// Well past the time for which a button must be held before it can swipe.
const LATER: u64 = 10_000;

#[test]
fn quick_tap_is_a_click_even_while_the_cursor_moves() {
    let mut acc = CaptureAccum::default();
    let mut got = Vec::new();

    got.extend(handle_reprog(&mut acc, press(), &[], false, 0));
    got.extend(handle_reprog(
        &mut acc,
        RawControlEvent::RawXy { dx: 120, dy: 5 },
        &[],
        false,
        0,
    ));
    got.extend(handle_reprog(&mut acc, release(), &[], false, 0));

    assert_eq!(
        got,
        vec![CapturedInput::Gesture {
            button: ButtonId::GestureButton,
            direction: GestureDirection::Click,
        }],
        "a quick tap emits exactly one click"
    );
}

#[test]
fn a_held_gesture_commits_a_swipe_and_does_not_also_click() {
    let mut acc = CaptureAccum::default();

    assert!(handle_reprog(&mut acc, press(), &[], false, 0).is_empty());
    assert_eq!(
        handle_reprog(
            &mut acc,
            RawControlEvent::RawXy { dx: 120, dy: 5 },
            &[],
            false,
            LATER,
        ),
        vec![CapturedInput::Gesture {
            button: ButtonId::GestureButton,
            direction: GestureDirection::Right,
        }]
    );
    assert!(
        handle_reprog(&mut acc, release(), &[], false, LATER).is_empty(),
        "a committed swipe must not also click on release"
    );
}

#[test]
fn a_held_dpi_button_presses_once_on_the_rising_edge() {
    let mut acc = CaptureAccum::default();
    let dpi = DPI_MODE_SHIFT_CIDS[0];
    let down = RawControlEvent::DivertedButtons([dpi, 0, 0, 0]);
    let mut got = Vec::new();

    got.extend(handle_reprog(&mut acc, down, &[dpi], false, 0));
    got.extend(handle_reprog(&mut acc, down, &[dpi], false, 0));

    assert_eq!(
        got,
        vec![CapturedInput::ButtonPressed(ButtonId::DpiToggle)],
        "a held DPI button presses once"
    );
}

#[test]
fn a_dpi_button_re_presses_after_a_release() {
    // Rising-edge detection must re-arm: the release is what resets the edge.
    let mut acc = CaptureAccum::default();
    let dpi = DPI_MODE_SHIFT_CIDS[0];
    let down = RawControlEvent::DivertedButtons([dpi, 0, 0, 0]);
    let up = RawControlEvent::DivertedButtons([0, 0, 0, 0]);
    let mut got = Vec::new();

    got.extend(handle_reprog(&mut acc, down, &[dpi], false, 0));
    got.extend(handle_reprog(&mut acc, up, &[dpi], false, 0));
    got.extend(handle_reprog(&mut acc, down, &[dpi], false, 0));

    assert_eq!(
        got,
        vec![
            CapturedInput::ButtonPressed(ButtonId::DpiToggle),
            CapturedInput::ButtonPressed(ButtonId::DpiToggle),
        ],
        "a release re-arms the rising edge"
    );
}

#[test]
fn dpi_gesture_mode_swipes_independently_of_gesture_button() {
    let mut acc = CaptureAccum::default();
    let dpi = DPI_MODE_SHIFT_CIDS[0];
    let dpi_down = RawControlEvent::DivertedButtons([dpi, 0, 0, 0]);

    // DPI hold and swipe right: a DpiToggle gesture, not a plain press.
    assert!(
        handle_reprog(&mut acc, dpi_down, &[dpi], true, 0).is_empty(),
        "no plain press in gesture mode"
    );
    assert_eq!(
        handle_reprog(
            &mut acc,
            RawControlEvent::RawXy { dx: 120, dy: 5 },
            &[dpi],
            true,
            LATER,
        ),
        vec![CapturedInput::Gesture {
            button: ButtonId::DpiToggle,
            direction: GestureDirection::Right,
        }]
    );

    // Release after a committed swipe must not also click.
    assert!(handle_reprog(&mut acc, release(), &[dpi], true, LATER).is_empty());
}

#[test]
fn dpi_gesture_mode_quick_tap_is_a_click() {
    let mut acc = CaptureAccum::default();
    let dpi = DPI_MODE_SHIFT_CIDS[0];
    let dpi_down = RawControlEvent::DivertedButtons([dpi, 0, 0, 0]);
    let mut got = Vec::new();

    got.extend(handle_reprog(&mut acc, dpi_down, &[dpi], true, 0));
    got.extend(handle_reprog(&mut acc, release(), &[dpi], true, 0));

    assert_eq!(
        got,
        vec![CapturedInput::Gesture {
            button: ButtonId::DpiToggle,
            direction: GestureDirection::Click,
        }]
    );
}

#[test]
fn both_gesture_sources_can_commit_from_the_same_raw_xy_stream() {
    // When both controls are held, each swipe commits independently.
    let mut acc = CaptureAccum::default();
    let dpi = DPI_MODE_SHIFT_CIDS[0];
    let both = RawControlEvent::DivertedButtons([GESTURE_BUTTON_CID, dpi, 0, 0]);

    assert!(handle_reprog(&mut acc, both, &[dpi], true, 0).is_empty());
    let mut got = handle_reprog(
        &mut acc,
        RawControlEvent::RawXy { dx: 0, dy: -120 },
        &[dpi],
        true,
        LATER,
    );
    got.sort_by_key(|e| match e {
        CapturedInput::Gesture { button, .. } => *button,
        _ => ButtonId::LeftClick,
    });
    assert_eq!(
        got,
        vec![
            CapturedInput::Gesture {
                button: ButtonId::DpiToggle,
                direction: GestureDirection::Up,
            },
            CapturedInput::Gesture {
                button: ButtonId::GestureButton,
                direction: GestureDirection::Up,
            },
        ]
    );
}

#[test]
fn movement_without_a_hold_captures_nothing() {
    let mut acc = CaptureAccum::default();
    let out = handle_reprog(
        &mut acc,
        RawControlEvent::RawXy { dx: 500, dy: 0 },
        &DPI_MODE_SHIFT_CIDS,
        true,
        LATER,
    );
    assert!(out.is_empty());
    assert_eq!(acc, CaptureAccum::default());
}

#[test]
fn a_plain_dpi_button_never_swipes() {
    let mut acc = CaptureAccum::default();
    let dpi = DPI_MODE_SHIFT_CIDS[2];
    let down = RawControlEvent::DivertedButtons([0, 0, 0, dpi]);
    handle_reprog(&mut acc, down, &DPI_MODE_SHIFT_CIDS, false, 0);
    assert!(handle_reprog(
        &mut acc,
        RawControlEvent::RawXy { dx: 500, dy: 0 },
        &DPI_MODE_SHIFT_CIDS,
        false,
        LATER,
    )
    .is_empty());
}

#[test]
fn a_hold_commits_one_swipe_only() {
    let mut swipe = SwipeAccumulator::default();
    swipe.begin(0);
    assert!(swipe.is_holding());
    assert_eq!(
        swipe.accumulate(MIN_HOLD_MS, 0, 60),
        Some(GestureDirection::Down)
    );
    assert_eq!(swipe.accumulate(LATER, -500, 0), None);
    assert!(!swipe.end());
    assert!(!swipe.is_holding());
    assert!(!swipe.end());
}

#[test]
fn travel_before_the_gate_counts_once_it_opens() {
    let mut swipe = SwipeAccumulator::default();
    swipe.begin(1_000);
    assert_eq!(swipe.accumulate(1_000 + MIN_HOLD_MS - 1, 60, 0), None);
    assert_eq!(
        swipe.accumulate(1_000 + MIN_HOLD_MS, 0, 0),
        Some(GestureDirection::Right)
    );
}

#[test]
fn travel_saturates() {
    let mut swipe = SwipeAccumulator::default();
    swipe.begin(0);
    assert_eq!(swipe.accumulate(0, i32::MIN, 0), None);
    assert_eq!(
        swipe.accumulate(LATER, i32::MIN, 0),
        Some(GestureDirection::Left)
    );
}

#[test]
fn a_swipe_needs_distance_and_a_clean_axis() {
    assert_eq!(detect_swipe(50, 25), Some(GestureDirection::Right));
    assert_eq!(detect_swipe(-50, -25), Some(GestureDirection::Left));
    assert_eq!(detect_swipe(25, 50), Some(GestureDirection::Down));
    assert_eq!(detect_swipe(-25, -50), Some(GestureDirection::Up));
    assert_eq!(detect_swipe(49, 0), None);
    assert_eq!(detect_swipe(50, 26), None);
    assert_eq!(detect_swipe(i32::MIN, 0), Some(GestureDirection::Left));
}

#[test]
fn the_wheel_taps_before_it_scrolls() {
    assert_eq!(
        handle_wheel(ThumbwheelEvent {
            rotation: -3,
            single_tap: true
        }),
        vec![
            CapturedInput::ButtonPressed(ButtonId::Thumbwheel),
            CapturedInput::Scroll(-3),
        ]
    );
    assert!(handle_wheel(ThumbwheelEvent {
        rotation: 0,
        single_tap: false
    })
    .is_empty());
}

fn setup() -> ListenerSetup {
    ListenerSetup {
        device_index: 2,
        reprog_index: Some(8),
        thumb_index: Some(11),
        dpi_cids: vec![0x00c4],
        dpi_as_gesture: false,
    }
}

#[test]
fn a_control_report_is_captured() {
    let mut acc = CaptureAccum::default();
    let mut report = [0u8; 19];
    report[..5].copy_from_slice(&[2, 8, 0x00, 0x00, 0xc4]);
    assert_eq!(
        handle_report(&mut acc, &setup(), RawReport::Long(report), false, 0),
        vec![CapturedInput::ButtonPressed(ButtonId::DpiToggle)]
    );
    assert!(acc.dpi_down);
}

#[test]
fn a_wheel_report_is_captured() {
    let mut acc = CaptureAccum::default();
    let mut report = [0u8; 19];
    report[..9].copy_from_slice(&[2, 11, 0x00, 0xff, 0xfe, 0, 0, 0, 0x08]);
    assert_eq!(
        handle_report(&mut acc, &setup(), RawReport::Long(report), false, 0),
        vec![
            CapturedInput::ButtonPressed(ButtonId::Thumbwheel),
            CapturedInput::Scroll(-2),
        ]
    );
    assert_eq!(acc, CaptureAccum::default());
}

#[test]
fn answers_to_requests_are_not_captured() {
    let mut acc = CaptureAccum::default();
    let mut report = [0u8; 19];
    report[..5].copy_from_slice(&[2, 8, 0x00, 0x00, 0xc4]);
    assert!(handle_report(&mut acc, &setup(), RawReport::Long(report), true, 0).is_empty());
    assert_eq!(acc, CaptureAccum::default());
}

#[test]
fn reports_of_others_are_not_captured() {
    let mut acc = CaptureAccum::default();
    for head in [[3, 8, 0x00], [2, 9, 0x00], [2, 8, 0x01], [2, 8, 0x20]] {
        let mut report = [0u8; 19];
        report[..3].copy_from_slice(&head);
        report[4] = 0xc4;
        assert!(handle_report(&mut acc, &setup(), RawReport::Long(report), false, 0).is_empty());
    }
    let nothing = ListenerSetup {
        reprog_index: None,
        thumb_index: None,
        ..setup()
    };
    let short = RawReport::Short([2, 8, 0, 0, 0xc4, 0]);
    assert!(handle_report(&mut acc, &nothing, short, false, 0).is_empty());
    assert_eq!(acc, CaptureAccum::default());
}
