use openlogi_gestures::wire::{
    decode_event, decode_wheel_event, read_report, set_cid_reporting_params, CtrlIdInfo,
    MessageHeader, RawControlEvent, RawReport, ThumbwheelEvent, V20Message,
};

#[test]
fn a_short_report_splits_into_header_and_payload() {
    assert_eq!(
        read_report(RawReport::Short([0x01, 0x07, 0x3a, 1, 2, 3])),
        V20Message {
            header: MessageHeader {
                device_index: 0x01,
                feature_index: 0x07,
                function_id: 0x3,
                software_id: 0xa,
            },
            payload: vec![1, 2, 3],
        }
    );
}

#[test]
fn a_long_report_splits_into_header_and_payload() {
    let mut bytes = [0u8; 19];
    for (i, byte) in bytes.iter_mut().enumerate() {
        *byte = 0xf0 + (i as u8 % 16);
    }
    let message = read_report(RawReport::Long(bytes));
    assert_eq!(
        message.header,
        MessageHeader {
            device_index: 0xf0,
            feature_index: 0xf1,
            function_id: 0xf,
            software_id: 0x2,
        }
    );
    assert_eq!(message.payload, bytes[3..].to_vec());
}

fn message(function_id: u8, software_id: u8, payload: &[u8]) -> V20Message {
    V20Message {
        header: MessageHeader {
            device_index: 1,
            feature_index: 5,
            function_id,
            software_id,
        },
        payload: payload.to_vec(),
    }
}

#[test]
fn diverted_buttons_are_decoded() {
    let msg = message(0, 0, &[0x00, 0xc3, 0x00, 0xed, 0, 0, 0x12, 0x34, 0xff]);
    assert_eq!(
        decode_event(&msg, 1, 5),
        Some(RawControlEvent::DivertedButtons([0x00c3, 0x00ed, 0, 0x1234]))
    );
    // A short payload reads as if zeros followed.
    let msg = message(0, 0, &[0x00, 0xc3, 0x01]);
    assert_eq!(
        decode_event(&msg, 1, 5),
        Some(RawControlEvent::DivertedButtons([0x00c3, 0x0100, 0, 0]))
    );
}

#[test]
fn raw_movement_is_decoded() {
    let msg = message(1, 0, &[0x80, 0x00, 0x7f, 0xff]);
    assert_eq!(
        decode_event(&msg, 1, 5),
        Some(RawControlEvent::RawXy {
            dx: i16::MIN,
            dy: i16::MAX
        })
    );
}

#[test]
fn only_notifications_of_the_feature_are_decoded() {
    let msg = message(0, 0, &[0, 0, 0]);
    assert_eq!(decode_event(&msg, 2, 5), None);
    assert_eq!(decode_event(&msg, 1, 6), None);
    assert_eq!(decode_event(&message(0, 4, &[0, 0, 0]), 1, 5), None);
    assert_eq!(decode_event(&message(2, 0, &[0, 0, 0]), 1, 5), None);
    assert_eq!(decode_wheel_event(&message(1, 0, &[0, 0, 0]), 1, 5), None);
}

#[test]
fn wheel_events_are_decoded() {
    let msg = message(0, 0, &[0x01, 0x00, 0, 0, 0, 0x08]);
    assert_eq!(
        decode_wheel_event(&msg, 1, 5),
        Some(ThumbwheelEvent {
            rotation: 256,
            single_tap: true
        })
    );
    let msg = message(0, 0, &[0xff, 0xff, 0, 0, 0, 0xf7]);
    assert_eq!(
        decode_wheel_event(&msg, 1, 5),
        Some(ThumbwheelEvent {
            rotation: -1,
            single_tap: false
        })
    );
}

#[test]
fn a_control_row_is_decoded() {
    let row = CtrlIdInfo::decode(&[0x00, 0xc3, 0, 0, 0x20, 0, 0, 0, 0x01]);
    assert_eq!(
        row,
        CtrlIdInfo {
            cid: 0x00c3,
            divertable: true,
            raw_xy: true
        }
    );
    assert!(row.is_divertable() && row.supports_raw_xy());
    let row = CtrlIdInfo::decode(&[0x00, 0xc4, 0, 0, 0xdf, 0, 0, 0, 0xfe]);
    assert_eq!(
        row,
        CtrlIdInfo {
            cid: 0x00c4,
            divertable: false,
            raw_xy: false
        }
    );
}

#[test]
fn reporting_parameters_carry_value_and_change_bits() {
    assert_eq!(set_cid_reporting_params(0x00c3, true, true), [0x00, 0xc3, 0x33]);
    assert_eq!(set_cid_reporting_params(0x01c4, true, false), [0x01, 0xc4, 0x23]);
    assert_eq!(set_cid_reporting_params(0x00c4, false, false), [0x00, 0xc4, 0x22]);
}
