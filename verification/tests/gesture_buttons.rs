use openlogi_gestures::binding::ButtonId;
use openlogi_gestures::gesture_buttons::{
    deserialize_gesture_buttons_field, is_gesture_eligible, GestureButtons, GestureButtonsField,
    GestureButtonsToken,
};
use serde::ser::SerializeStruct;

#[test]
fn try_from_iter_filters_ineligible_and_empty_to_off() {
    assert!(GestureButtons::try_from_iter(&[]).is_off());
    assert!(GestureButtons::try_from_iter(&[ButtonId::LeftClick]).is_off());
    let dual = GestureButtons::try_from_iter(&[
        ButtonId::GestureButton,
        ButtonId::DpiToggle,
        ButtonId::LeftClick,
    ]);
    assert!(dual.contains(ButtonId::GestureButton));
    assert!(dual.contains(ButtonId::DpiToggle));
    assert!(!dual.contains(ButtonId::LeftClick));
    assert_eq!(dual.len(), 2);
}

#[test]
fn insert_remove_collapse_to_off() {
    let gb = GestureButtons::off().insert(ButtonId::Back);
    assert!(gb.contains(ButtonId::Back));
    let off = gb.remove(ButtonId::Back);
    assert!(off.is_off());
}

// TOML documents need a table root.
struct Wrap {
    gesture_buttons: GestureButtons,
}

impl serde::Serialize for Wrap {
    fn serialize<S: serde::Serializer>(&self, serializer: S) -> Result<S::Ok, S::Error> {
        let mut table = serializer.serialize_struct("Wrap", 1)?;
        match self.gesture_buttons.serialize() {
            GestureButtonsToken::Text(word) => table.serialize_field("gesture_buttons", &word)?,
            GestureButtonsToken::List(names) => table.serialize_field("gesture_buttons", &names)?,
        }
        table.end()
    }
}

#[test]
fn serialize_off_and_array() {
    let off = toml::to_string_pretty(&Wrap {
        gesture_buttons: GestureButtons::off(),
    })
    .expect("ser");
    assert!(off.contains("gesture_buttons = \"Off\""), "got: {off}");

    let set = GestureButtons::try_from_iter(&[ButtonId::GestureButton, ButtonId::DpiToggle]);
    let body = toml::to_string_pretty(&Wrap {
        gesture_buttons: set,
    })
    .expect("ser");
    assert!(
        body.contains("GestureButton") && body.contains("DpiToggle"),
        "got: {body}"
    );
    assert!(!body.contains("[]"), "empty array must never serialize");
}

fn names(list: &[&str]) -> Vec<String> {
    list.iter().map(|name| name.to_string()).collect()
}

#[test]
fn five_buttons_may_gesture() {
    let may: Vec<ButtonId> = ButtonId::all()
        .into_iter()
        .filter(|id| is_gesture_eligible(*id))
        .collect();
    assert_eq!(
        may,
        vec![
            ButtonId::MiddleClick,
            ButtonId::Back,
            ButtonId::Forward,
            ButtonId::DpiToggle,
            ButtonId::GestureButton,
        ]
    );
}

#[test]
fn ineligible_ids_are_never_inserted() {
    let set = GestureButtons::off().insert(ButtonId::Thumbwheel);
    assert!(set.is_off());
    assert!(set.is_empty());
    assert_eq!(set.len(), 0);
    let set = set.insert(ButtonId::Back).insert(ButtonId::RightClick);
    assert_eq!(set.iter(), vec![ButtonId::Back]);
    assert!(!set.is_empty());
}

#[test]
fn removing_what_is_not_there_changes_nothing() {
    let set = GestureButtons::off().insert(ButtonId::Back);
    assert_eq!(set.remove(ButtonId::Forward).iter(), vec![ButtonId::Back]);
    assert!(GestureButtons::off().remove(ButtonId::Back).is_off());
}

#[test]
fn live_ids_come_in_declaration_order() {
    let set = GestureButtons::try_from_iter(&[
        ButtonId::GestureButton,
        ButtonId::Forward,
        ButtonId::MiddleClick,
        ButtonId::Forward,
    ]);
    assert_eq!(
        set.iter(),
        vec![
            ButtonId::MiddleClick,
            ButtonId::Forward,
            ButtonId::GestureButton
        ]
    );
    assert_eq!(set.display(), "MiddleClick, Forward, GestureButton");
    assert_eq!(
        set.serialize(),
        GestureButtonsToken::List(names(&["MiddleClick", "Forward", "GestureButton"]))
    );
}

#[test]
fn off_is_the_default_and_shows_as_off() {
    assert!(GestureButtons::default().is_off());
    assert_eq!(GestureButtons::default().display(), "Off");
    assert_eq!(
        GestureButtons::off().serialize(),
        GestureButtonsToken::Text("Off".to_string())
    );
}

#[test]
fn words_are_read() {
    assert!(GestureButtons::from_word("Off").expect("off").is_off());
    let back = GestureButtons::from_word("Back").expect("a button");
    assert_eq!(back.iter(), vec![ButtonId::Back]);
    assert!(GestureButtons::from_word("LeftClick")
        .expect("a button")
        .is_off());
}

#[test]
fn an_unknown_word_is_an_error() {
    let error = GestureButtons::from_word("off").expect_err("wrong case");
    assert_eq!(error.name, "off");
    let error = deserialize_gesture_buttons_field(&GestureButtonsToken::Text("".to_string()))
        .expect_err("empty");
    assert_eq!(error.name, "");
}

#[test]
fn unknown_names_in_a_list_are_skipped() {
    let set = GestureButtons::from_names(&names(&["DpiToggle", "Warp", "LeftClick", "DpiToggle"]));
    assert_eq!(set.iter(), vec![ButtonId::DpiToggle]);
    assert!(GestureButtons::from_names(&names(&["Warp", "Off"])).is_off());
    assert!(GestureButtons::from_names(&[]).is_off());
}

#[test]
fn what_was_written_is_read_back() {
    for set in [
        GestureButtons::off(),
        GestureButtons::try_from_iter(&[ButtonId::Back]),
        GestureButtons::try_from_iter(&ButtonId::all()),
    ] {
        let field = deserialize_gesture_buttons_field(&set.serialize()).expect("written");
        match field {
            GestureButtonsField::Present(read) => assert_eq!(read.iter(), set.iter()),
            GestureButtonsField::Absent => panic!("a present value was read as absent"),
        }
    }
    assert!(matches!(
        GestureButtonsField::default(),
        GestureButtonsField::Absent
    ));
}

#[test]
fn names_and_buttons_match() {
    for button in ButtonId::all() {
        assert_eq!(ButtonId::from_name(button.name()), Some(button));
        assert_eq!(button.name(), format!("{button:?}"));
    }
    assert_eq!(ButtonId::from_name("back"), None);
}
