//! HID++ 2.0 reports of the captured features, as plain bytes.

use vstd::prelude::*;

use hidpp::channel::HidppMessage;
use hidpp::protocol::v20;

verus! {

/// The feature id of the reprogrammable controls.
pub const REPROG_FEATURE_ID: u16 = 0x1b04;

/// The feature id of the thumb wheel.
pub const THUMBWHEEL_FEATURE_ID: u16 = 0x2150;

/// The control id of the dedicated gesture button.
pub const GESTURE_BUTTON_CID: u16 = 0x00c3;

/// The control ids of DPI and mode-shift buttons.
pub const DPI_MODE_SHIFT_CIDS: [u16; 3] = [0x00c4, 0x00ed, 0x00fd];

/// The control ids of DPI and mode-shift buttons, as a sequence.
pub open spec fn dpi_cids() -> Seq<u16> {
    DPI_MODE_SHIFT_CIDS@
}

/// A report as it arrives, without its report id.
#[derive(Clone, Copy, Debug, PartialEq, Eq)]
pub enum RawReport {
    Short([u8; 6]),
    Long([u8; 19]),
}

impl RawReport {
    /// The bytes of the report.
    pub open spec fn bytes(self) -> Seq<u8> {
        match self {
            RawReport::Short(bytes) => bytes@,
            RawReport::Long(bytes) => bytes@,
        }
    }
}

/// Whom a HID++ 2.0 message is from and what it is about.
#[derive(Clone, Copy, Debug, PartialEq, Eq, Structural)]
pub struct MessageHeader {
    pub device_index: u8,
    pub feature_index: u8,
    pub function_id: u8,
    pub software_id: u8,
}

/// A HID++ 2.0 message.
#[derive(Debug, PartialEq, Eq)]
pub struct V20Message {
    pub header: MessageHeader,
    pub payload: Vec<u8>,
}

/// The header that the bytes of a report hold.
pub open spec fn header_of(bytes: Seq<u8>) -> MessageHeader {
    MessageHeader {
        device_index: bytes[0],
        feature_index: bytes[1],
        function_id: (bytes[2] / 16) as u8,
        software_id: (bytes[2] % 16) as u8,
    }
}

/// Split a report into header and payload.
///
/// Calls hidpp's `v20::Message::from`. Claimed of it: the first two bytes are
/// the device and the feature index, the high and the low half of the third
/// are the function and the software id, and the payload is what follows.
#[verifier::external_body]
fn split_report(raw: RawReport) -> (message: V20Message)
    ensures
        message.header == header_of(raw.bytes()),
        message.payload@ == raw.bytes().skip(3),
{
    let raw = match raw {
        RawReport::Short(bytes) => HidppMessage::Short(bytes),
        RawReport::Long(bytes) => HidppMessage::Long(bytes),
    };
    let (header, payload) = match v20::Message::from(raw) {
        v20::Message::Short(header, payload) => (header, payload.to_vec()),
        v20::Message::Long(header, payload) => (header, payload.to_vec()),
    };
    let header = MessageHeader {
        device_index: header.device_index,
        feature_index: header.feature_index,
        function_id: header.function_id.to_lo(),
        software_id: header.software_id.to_lo(),
    };
    V20Message { header, payload }
}

/// Read a report as a HID++ 2.0 message.
#[must_use]
pub fn read_report(raw: RawReport) -> (message: V20Message)
    ensures
        message.header == header_of(raw.bytes()),
        message.payload@ == raw.bytes().skip(3),
{
    split_report(raw)
}

/// A byte of a payload; short payloads read as if zeros followed.
pub open spec fn byte_of(payload: Seq<u8>, i: int) -> u8 {
    if 0 <= i < payload.len() {
        payload[i]
    } else {
        0
    }
}

/// The big-endian number at byte `i` of a payload.
pub open spec fn word_of(payload: Seq<u8>, i: int) -> u16 {
    (byte_of(payload, i) * 256 + byte_of(payload, i + 1)) as u16
}

/// The big-endian two's-complement number at byte `i` of a payload.
pub open spec fn signed_word_of(payload: Seq<u8>, i: int) -> i16 {
    (if word_of(payload, i) < 0x8000 {
        word_of(payload, i) as int
    } else {
        word_of(payload, i) - 0x1_0000
    }) as i16
}

fn byte_at(payload: &[u8], i: usize) -> (b: u8)
    ensures
        b == byte_of(payload@, i as int),
{
    if i < payload.len() {
        payload[i]
    } else {
        0
    }
}

fn word_at(payload: &[u8], i: usize) -> (w: u16)
    requires
        i < 16,
    ensures
        w == word_of(payload@, i as int),
{
    let high: u16 = byte_at(payload, i) as u16;
    let low: u16 = byte_at(payload, i + 1) as u16;
    high * 256 + low
}

fn signed_word_at(payload: &[u8], i: usize) -> (w: i16)
    requires
        i < 16,
    ensures
        w == signed_word_of(payload@, i as int),
{
    let w: i32 = word_at(payload, i) as i32;
    if w < 0x8000 {
        w as i16
    } else {
        (w - 0x1_0000) as i16
    }
}

/// An event of the reprogrammable controls.
#[derive(Clone, Copy, Debug, PartialEq, Eq)]
pub enum RawControlEvent {
    /// The diverted controls that are down now; unused places hold zero.
    DivertedButtons([u16; 4]),
    /// Raw movement while a control reports it.
    RawXy { dx: i16, dy: i16 },
}

/// A [`RawControlEvent`] with the controls as a sequence.
pub enum ControlEventView {
    DivertedButtons(Seq<u16>),
    RawXy { dx: i16, dy: i16 },
}

impl View for RawControlEvent {
    type V = ControlEventView;

    open spec fn view(&self) -> ControlEventView {
        match self {
            RawControlEvent::DivertedButtons(cids) => ControlEventView::DivertedButtons(cids@),
            RawControlEvent::RawXy { dx, dy } => ControlEventView::RawXy { dx: *dx, dy: *dy },
        }
    }
}

/// An event of the thumb wheel.
#[derive(Clone, Copy, Debug, PartialEq, Eq, Structural)]
pub struct ThumbwheelEvent {
    /// Rotation since the last event.
    pub rotation: i16,
    /// Whether the wheel was tapped.
    pub single_tap: bool,
}

/// Whether a message is a notification of one feature of one device.
pub open spec fn notification_of(
    header: MessageHeader,
    device_index: u8,
    feature_index: u8,
) -> bool {
    header.device_index == device_index && header.feature_index == feature_index
        && header.software_id == 0
}

/// What a message says of the reprogrammable controls, if it is about them.
pub open spec fn control_event(
    header: MessageHeader,
    payload: Seq<u8>,
    device_index: u8,
    feature_index: u8,
) -> Option<ControlEventView> {
    if !notification_of(header, device_index, feature_index) {
        None
    } else if header.function_id == 0 {
        Some(
            ControlEventView::DivertedButtons(
                seq![
                    word_of(payload, 0),
                    word_of(payload, 2),
                    word_of(payload, 4),
                    word_of(payload, 6),
                ],
            ),
        )
    } else if header.function_id == 1 {
        Some(
            ControlEventView::RawXy {
                dx: signed_word_of(payload, 0),
                dy: signed_word_of(payload, 2),
            },
        )
    } else {
        None
    }
}

/// What a message says of the thumb wheel, if it is about it.
pub open spec fn wheel_event(
    header: MessageHeader,
    payload: Seq<u8>,
    device_index: u8,
    feature_index: u8,
) -> Option<ThumbwheelEvent> {
    if notification_of(header, device_index, feature_index) && header.function_id == 0 {
        Some(
            ThumbwheelEvent {
                rotation: signed_word_of(payload, 0),
                single_tap: byte_of(payload, 5) / 8 % 2 == 1,
            },
        )
    } else {
        None
    }
}

fn is_notification(header: &MessageHeader, device_index: u8, feature_index: u8) -> (res: bool)
    ensures
        res == notification_of(*header, device_index, feature_index),
{
    header.device_index == device_index && header.feature_index == feature_index
        && header.software_id == 0
}

/// Decode an event of the reprogrammable controls at `feature_index`.
#[must_use]
pub fn decode_event(message: &V20Message, device_index: u8, feature_index: u8) -> (event: Option<
    RawControlEvent,
>)
    ensures
        match event {
            Some(event) => control_event(
                message.header,
                message.payload@,
                device_index,
                feature_index,
            ) == Some(event@),
            None => control_event(message.header, message.payload@, device_index, feature_index)
                is None,
        },
{
    if !is_notification(&message.header, device_index, feature_index) {
        return None;
    }
    let payload = message.payload.as_slice();
    if message.header.function_id == 0 {
        let cids = [
            word_at(payload, 0),
            word_at(payload, 2),
            word_at(payload, 4),
            word_at(payload, 6),
        ];
        assert(cids@ =~= seq![
            word_of(payload@, 0),
            word_of(payload@, 2),
            word_of(payload@, 4),
            word_of(payload@, 6),
        ]);
        Some(RawControlEvent::DivertedButtons(cids))
    } else if message.header.function_id == 1 {
        Some(
            RawControlEvent::RawXy {
                dx: signed_word_at(payload, 0),
                dy: signed_word_at(payload, 2),
            },
        )
    } else {
        None
    }
}

/// Decode an event of the thumb wheel at `feature_index`.
#[must_use]
pub fn decode_wheel_event(message: &V20Message, device_index: u8, feature_index: u8) -> (event:
    Option<ThumbwheelEvent>)
    ensures
        event == wheel_event(message.header, message.payload@, device_index, feature_index),
{
    if !is_notification(&message.header, device_index, feature_index) || message.header.function_id
        != 0 {
        return None;
    }
    let payload = message.payload.as_slice();
    Some(
        ThumbwheelEvent {
            rotation: signed_word_at(payload, 0),
            single_tap: byte_at(payload, 5) / 8 % 2 == 1,
        },
    )
}

/// What the control table says of one control.
#[derive(Clone, Copy, Debug, PartialEq, Eq, Structural)]
pub struct CtrlIdInfo {
    /// The control id.
    pub cid: u16,
    /// Whether its presses can be diverted to software.
    pub divertable: bool,
    /// Whether it can report raw movement while it is held.
    pub raw_xy: bool,
}

impl CtrlIdInfo {
    /// Whether the control's presses can be diverted to software.
    #[must_use]
    pub fn is_divertable(&self) -> (res: bool)
        ensures
            res == self.divertable,
    {
        self.divertable
    }

    /// Whether the control can report raw movement while it is held.
    #[must_use]
    pub fn supports_raw_xy(&self) -> (res: bool)
        ensures
            res == self.raw_xy,
    {
        self.raw_xy
    }

    /// Decode one row of the control table: the control id, then the flag byte
    /// with the divertable bit, then the extended flag byte with the raw
    /// movement bit.
    #[must_use]
    pub fn decode(payload: &[u8]) -> (info: CtrlIdInfo)
        ensures
            info == (CtrlIdInfo {
                cid: word_of(payload@, 0),
                divertable: byte_of(payload@, 4) / 32 % 2 == 1,
                raw_xy: byte_of(payload@, 8) % 2 == 1,
            }),
    {
        CtrlIdInfo {
            cid: word_at(payload, 0),
            divertable: byte_at(payload, 4) / 32 % 2 == 1,
            raw_xy: byte_at(payload, 8) % 2 == 1,
        }
    }
}

/// The parameters of a request that sets how a control reports: its id, then a
/// flag byte in which each of the two settings has a value and a change bit.
#[must_use]
pub fn set_cid_reporting_params(cid: u16, divert: bool, raw_xy: bool) -> (params: [u8; 3])
    ensures
        word_of(params@, 0) == cid,
        params@[2] == 0x22 + (if divert {
            0x01int
        } else {
            0
        }) + (if raw_xy {
            0x10int
        } else {
            0
        }),
{
    let divert_bit: u8 = if divert {
        0x01
    } else {
        0x00
    };
    let raw_xy_bit: u8 = if raw_xy {
        0x10
    } else {
        0x00
    };
    [(cid / 256) as u8, (cid % 256) as u8, 0x22 + divert_bit + raw_xy_bit]
}

/// A report carries an event of the reprogrammable controls exactly when it
/// comes from that device and feature, is no reply (software id zero) and is of
/// one of the two event functions; the third byte tells both apart.
pub proof fn law_control_reports(bytes: Seq<u8>, device_index: u8, feature_index: u8)
    requires
        bytes.len() >= 3,
    ensures
        ({
            let event = control_event(
                header_of(bytes),
                bytes.skip(3),
                device_index,
                feature_index,
            );
            let ours = bytes[0] == device_index && bytes[1] == feature_index;
            &&& (event is Some && event->0 is DivertedButtons) <==> ours && bytes[2] == 0x00
            &&& (event is Some && event->0 is RawXy) <==> ours && bytes[2] == 0x10
        }),
{
}

/// A frame of held controls holds four control ids, each two bytes long and
/// most significant byte first; what a short report does not hold is zero.
pub proof fn law_held_controls_are_big_endian(
    bytes: Seq<u8>,
    device_index: u8,
    feature_index: u8,
    cids: Seq<u16>,
    i: int,
)
    requires
        bytes.len() >= 3,
        control_event(header_of(bytes), bytes.skip(3), device_index, feature_index) == Some(
            ControlEventView::DivertedButtons(cids),
        ),
        0 <= i < 4,
    ensures
        cids.len() == 4,
        cids[i] == (if 3 + 2 * i < bytes.len() {
            256 * bytes[3 + 2 * i]
        } else {
            0
        }) + (if 4 + 2 * i < bytes.len() {
            bytes[4 + 2 * i] as int
        } else {
            0
        }),
{
    assert(i == 0 || i == 1 || i == 2 || i == 3);
}

/// A frame of movement holds two numbers of two bytes each, most significant
/// byte first and in two's complement.
pub proof fn law_movement_is_signed_big_endian(
    bytes: Seq<u8>,
    device_index: u8,
    feature_index: u8,
    dx: i16,
    dy: i16,
)
    requires
        bytes.len() >= 7,
        control_event(header_of(bytes), bytes.skip(3), device_index, feature_index) == Some(
            ControlEventView::RawXy { dx, dy },
        ),
    ensures
        (256 * bytes[3] + bytes[4] - dx) % 0x1_0000 == 0,
        (256 * bytes[5] + bytes[6] - dy) % 0x1_0000 == 0,
{
}

/// A report carries an event of the thumb wheel exactly when it comes from that
/// device and feature with both ids of its third byte zero. Its rotation is a
/// signed number in the first two bytes, its tap one bit of the sixth.
pub proof fn law_wheel_reports(bytes: Seq<u8>, device_index: u8, feature_index: u8)
    requires
        bytes.len() >= 9,
    ensures
        match wheel_event(header_of(bytes), bytes.skip(3), device_index, feature_index) {
            Some(event) => {
                &&& bytes[0] == device_index && bytes[1] == feature_index && bytes[2] == 0
                &&& (256 * bytes[3] + bytes[4] - event.rotation) % 0x1_0000 == 0
                &&& event.single_tap <==> bytes[8] & 0x08 != 0
            },
            None => !(bytes[0] == device_index && bytes[1] == feature_index && bytes[2] == 0),
        },
{
    let status = bytes[8];
    assert(status & 0x08 != 0 <==> status / 8 % 2 == 1) by (bit_vector);
}

/// The third byte of a report is made of the two ids.
pub proof fn law_header_keeps_every_bit(bytes: Seq<u8>)
    requires
        bytes.len() >= 3,
    ensures
        header_of(bytes).device_index == bytes[0],
        header_of(bytes).feature_index == bytes[1],
        16 * header_of(bytes).function_id + header_of(bytes).software_id == bytes[2],
        header_of(bytes).function_id < 16,
        header_of(bytes).software_id < 16,
{
}

} // verus!
