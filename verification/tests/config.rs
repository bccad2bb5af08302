use openlogi_gestures::binding::{
    default_binding_for, main_default_gesture_map, Action, Binding, ButtonId, GestureDirection,
};
use openlogi_gestures::config::{
    is_experimental_gesture_marker, preset_map, rejects_device_table, Config, DeviceConfig,
    GesturePreset, LoadError, EXPERIMENTAL_GESTURE_MARKERS, LIVE_SET_SCHEMA_VERSION,
};
use openlogi_gestures::gesture_buttons::{GestureButtons, GestureButtonsField};
use openlogi_gestures::live_set::GestureOwner;
use openlogi_gestures::maps::{ButtonMap, ButtonSet};
use openlogi_gestures::text::{same_text, TextMap};

#[test]
fn reserved_field_names_are_known() {
    assert_eq!(EXPERIMENTAL_GESTURE_MARKERS.len(), 5);
    for name in EXPERIMENTAL_GESTURE_MARKERS {
        assert!(is_experimental_gesture_marker(name));
    }
    assert!(is_experimental_gesture_marker("multi_gesture"));
    assert!(!is_experimental_gesture_marker("gesture_buttons"));
    assert!(!is_experimental_gesture_marker(""));
}

#[test]
fn reserved_field_names_reject_current_tables() {
    assert_eq!(LIVE_SET_SCHEMA_VERSION, 4);
    let with = vec!["bindings".to_string(), "gesture_owners".to_string()];
    let without = vec!["bindings".to_string(), "gesture_buttons".to_string()];
    assert!(rejects_device_table(4, &with));
    assert!(rejects_device_table(5, &with));
    assert!(!rejects_device_table(3, &with));
    assert!(!rejects_device_table(4, &without));
    assert!(!rejects_device_table(4, &[]));
}

#[test]
fn a_fresh_device_is_owned_by_the_gesture_button() {
    let cfg = Config::default();
    assert_eq!(cfg.gesture_owner("mouse"), Some(ButtonId::GestureButton));
    assert_eq!(
        cfg.gesture_buttons("mouse").iter(),
        vec![ButtonId::GestureButton]
    );
    assert_eq!(
        cfg.gesture_bindings_for("mouse"),
        main_default_gesture_map()
    );
    let bindings = cfg.effective_bindings("mouse", None);
    assert_eq!(bindings.len(), 1);
    assert_eq!(
        bindings.get(ButtonId::GestureButton),
        Some(default_binding_for(ButtonId::GestureButton))
    );
}

#[test]
fn a_loaded_device_is_migrated() {
    let mut cfg = Config::default();
    let mut stored = ButtonMap::new();
    stored.insert(
        ButtonId::Forward,
        Binding::Gesture(main_default_gesture_map()),
    );
    let fields = vec!["bindings".to_string()];
    let loaded = cfg.load_device(
        "mouse",
        4,
        &fields,
        &GestureButtonsField::Absent,
        Some(GestureOwner::Button(ButtonId::Forward)),
        stored,
    );
    assert_eq!(loaded, Ok(()));
    assert_eq!(cfg.gesture_owner("mouse"), Some(ButtonId::Forward));
    let loaded = cfg.load_device(
        "mouse",
        4,
        &fields,
        &GestureButtonsField::Present(GestureButtons::off()),
        None,
        stored,
    );
    assert_eq!(loaded, Ok(()));
    assert_eq!(cfg.gesture_owner("mouse"), None);
    assert!(cfg.gesture_bindings_for("mouse").is_empty());
    assert_eq!(cfg.gesture_owner("other"), Some(ButtonId::GestureButton));
}

#[test]
fn a_table_with_a_reserved_field_is_not_loaded() {
    let fields = vec!["gesture_buttons".to_string(), "gesture_sources".to_string()];
    let off = GestureButtonsField::Present(GestureButtons::off());
    let mut cfg = Config::default();
    assert_eq!(
        cfg.load_device("mouse", 4, &fields, &off, None, ButtonMap::new()),
        Err(LoadError::ExperimentalMarker)
    );
    assert_eq!(cfg.gesture_owner("mouse"), Some(ButtonId::GestureButton));
    assert!(DeviceConfig::load(7, &fields, &off, None, ButtonMap::new()).is_err());

    // An older table may hold it.
    assert_eq!(
        cfg.load_device("mouse", 3, &fields, &off, None, ButtonMap::new()),
        Ok(())
    );
    assert_eq!(cfg.gesture_owner("mouse"), None);
}

#[test]
fn an_ineligible_button_is_not_enabled() {
    let mut cfg = Config::default();
    cfg.enable_gesture_button("mouse", ButtonId::LeftClick);
    assert_eq!(
        cfg.gesture_buttons("mouse").iter(),
        vec![ButtonId::GestureButton]
    );
    assert!(!cfg
        .effective_bindings("mouse", None)
        .contains_key(ButtonId::LeftClick));
}

#[test]
fn presets_hold_five_directions() {
    let media = preset_map(GesturePreset::MediaControls);
    assert_eq!(media.get(GestureDirection::Down), Some(Action::VolumeDown));
    assert_eq!(media.get(GestureDirection::Right), Some(Action::NextTrack));
    assert_eq!(media.len(), 5);
    assert_eq!(preset_map(GesturePreset::Desktop), main_default_gesture_map());
    assert_eq!(
        main_default_gesture_map().get(GestureDirection::Up),
        Some(Action::MissionControl)
    );
}

#[test]
fn click_actions_project() {
    assert_eq!(Binding::from(Action::Copy).click_action(), Action::Copy);
    let mut map = main_default_gesture_map();
    assert_eq!(Binding::Gesture(map).click_action(), Action::AppExpose);
    map.click = None;
    assert_eq!(Binding::Gesture(map).click_action(), Action::Nothing);
    assert!(Binding::Gesture(map).is_gesture());
    assert_eq!(
        Binding::from(Action::Copy).direction_action(GestureDirection::Up),
        None
    );
}

#[test]
fn button_tables_hold_what_was_stored() {
    let mut map: ButtonMap<u8> = ButtonMap::new();
    assert!(map.is_empty());
    for (i, button) in ButtonId::all().into_iter().enumerate() {
        map.insert(button, i as u8);
    }
    assert_eq!(map.len(), 8);
    map.remove(ButtonId::Back);
    assert_eq!(map.get(ButtonId::Back), None);
    assert_eq!(map.get(ButtonId::GestureButton), Some(7));
    assert!(!map.keys().contains(ButtonId::Back));

    let mut set = ButtonSet::new();
    assert!(set.is_empty());
    set.insert(ButtonId::GestureButton);
    set.insert(ButtonId::RightClick);
    set.insert(ButtonId::RightClick);
    assert_eq!(
        set.to_vec(),
        vec![ButtonId::RightClick, ButtonId::GestureButton]
    );
    set.remove(ButtonId::RightClick);
    assert!(!set.contains(ButtonId::RightClick));
}

#[test]
fn text_tables_hold_what_was_stored() {
    let mut map: TextMap<u8> = TextMap::new();
    map.insert("a", 1);
    map.insert("b", 2);
    map.insert("a", 3);
    assert_eq!(map.get("a"), Some(&3));
    assert_eq!(map.get("c"), None);
    assert_eq!(map.remove("a"), Some(3));
    assert_eq!(map.remove("a"), None);
    assert_eq!(map.get("b"), Some(&2));
    assert!(same_text("gesture", "gesture"));
    assert!(!same_text("gesture", "gestures"));
    assert!(!same_text("gesture", "Gesture"));
}
