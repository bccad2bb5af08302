use openlogi_gestures::binding::{
    default_binding, default_gesture_binding, main_default_gesture_map, Action, Binding, ButtonId,
    GestureDirection,
};
use openlogi_gestures::bindings::{
    bindings_for, gesture_bindings_for, hidpp_gestures_for, oshook_gestures_for,
};
use openlogi_gestures::config::{Config, GesturePreset};
use openlogi_gestures::live_set::GestureButtonState;
use openlogi_gestures::maps::DirectionMap;

fn map_of(entries: &[(GestureDirection, Action)]) -> DirectionMap {
    let mut map = DirectionMap::new();
    for (direction, action) in entries {
        map.insert(*direction, *action);
    }
    map
}

#[test]
fn click_less_gesture_keeps_default_click_in_projection() {
    // A gesture binding with no explicit `Click` must not project to doing
    // nothing and silently disable the button: the default click survives.
    let mut cfg = Config::default();
    let mut map = DirectionMap::new();
    map.insert(GestureDirection::Up, Action::Copy);
    cfg.set_binding("2b042", ButtonId::GestureButton, Binding::Gesture(map));

    let projected = bindings_for(&cfg, Some("2b042"), None);
    assert_eq!(
        projected.get(ButtonId::GestureButton),
        Some(default_binding(ButtonId::GestureButton)),
        "a Click-less gesture must keep the default click, not None"
    );
}

#[test]
fn explicit_gesture_click_overrides_default_in_projection() {
    // A gesture binding that does define `Click` projects that action.
    let mut cfg = Config::default();
    let mut map = DirectionMap::new();
    map.insert(GestureDirection::Click, Action::Paste);
    cfg.set_binding("2b042", ButtonId::GestureButton, Binding::Gesture(map));

    let projected = bindings_for(&cfg, Some("2b042"), None);
    assert_eq!(projected.get(ButtonId::GestureButton), Some(Action::Paste));
}

#[test]
fn oshook_gestures_collects_only_os_hook_gesture_buttons() {
    let mut cfg = Config::default();
    // A gesture-mode Back: included, raw map preserved.
    cfg.set_binding(
        "2b042",
        ButtonId::Back,
        Binding::Gesture(map_of(&[(GestureDirection::Up, Action::Copy)])),
    );
    // A single-mode Middle: excluded.
    cfg.set_binding("2b042", ButtonId::MiddleClick, Action::MiddleClick.into());
    // The dedicated gesture button never reaches the OS hook: excluded.
    cfg.set_binding(
        "2b042",
        ButtonId::GestureButton,
        Binding::Gesture(map_of(&[(GestureDirection::Up, Action::MissionControl)])),
    );

    let oshook = oshook_gestures_for(&cfg, Some("2b042"), None);
    assert_eq!(oshook.len(), 1, "only the gesture-mode Back belongs here");
    assert_eq!(
        oshook.get(ButtonId::Back),
        Some(map_of(&[(GestureDirection::Up, Action::Copy)]))
    );
    assert!(!oshook.contains_key(ButtonId::MiddleClick));
    assert!(!oshook.contains_key(ButtonId::GestureButton));
}

#[test]
fn per_app_override_drops_the_owner_from_the_oshook_gesture_set() {
    // Back is the gesture owner globally...
    let mut cfg = Config::default();
    cfg.set_gesture_owner("2b042", ButtonId::Back);
    assert!(
        oshook_gestures_for(&cfg, Some("2b042"), None).contains_key(ButtonId::Back),
        "Back gestures globally"
    );

    // ...but a per-app override makes it a single action in that app.
    cfg.set_per_app_binding(
        "2b042",
        "com.apple.Safari",
        ButtonId::Back,
        Some(Action::NextTab),
    );
    assert!(
        oshook_gestures_for(&cfg, Some("2b042"), Some("com.apple.Safari")).is_empty(),
        "a per-app override of the owner removes it from the gesture set"
    );
    // Other apps are unaffected.
    assert!(
        oshook_gestures_for(&cfg, Some("2b042"), Some("com.other.App"))
            .contains_key(ButtonId::Back)
    );
}

#[test]
fn gesture_bindings_silent_when_hidpp_button_is_not_the_owner() {
    let mut cfg = Config::default();
    let defaults = gesture_bindings_for(&cfg, Some("2b042"));
    assert_eq!(
        defaults.get(GestureDirection::Up),
        Some(default_gesture_binding(GestureDirection::Up)),
        "the default gesture owner is the dedicated HID++ gesture button"
    );

    cfg.set_gesture_owner("2b042", ButtonId::Back);
    assert!(
        gesture_bindings_for(&cfg, Some("2b042")).is_empty(),
        "HID++ gesture button must dispatch nothing once another button owns gestures"
    );
}

#[test]
fn hidpp_gestures_includes_dpi_map_alongside_primary_owner() {
    let mut cfg = Config::default();
    cfg.enable_gesture_button("2b042", ButtonId::GestureButton);
    cfg.enable_gesture_button("2b042", ButtonId::DpiToggle);
    cfg.set_gesture_preset("2b042", ButtonId::DpiToggle, GesturePreset::MediaControls);

    let maps = hidpp_gestures_for(&cfg, Some("2b042"));
    assert!(
        maps.contains_key(ButtonId::GestureButton),
        "primary gesture button stays live"
    );
    assert_eq!(
        maps.get(ButtonId::DpiToggle)
            .and_then(|m| m.get(GestureDirection::Up)),
        Some(Action::VolumeUp),
        "DPI gesture map is an independent second source"
    );
}

#[test]
fn hidpp_gestures_omits_dpi_when_it_is_a_single_action() {
    let mut cfg = Config::default();
    cfg.enable_gesture_button("2b042", ButtonId::GestureButton);
    cfg.set_binding("2b042", ButtonId::DpiToggle, Action::CycleDpiPresets.into());

    let maps = hidpp_gestures_for(&cfg, Some("2b042"));
    assert!(maps.contains_key(ButtonId::GestureButton));
    assert!(
        !maps.contains_key(ButtonId::DpiToggle),
        "a single-action DPI button is not a gesture source"
    );
}

#[test]
fn hidpp_gestures_omits_preserved_not_live_dpi_map() {
    let mut cfg = Config::default();
    cfg.enable_gesture_button("2b042", ButtonId::GestureButton);
    cfg.enable_gesture_button("2b042", ButtonId::DpiToggle);
    cfg.set_gesture_preset("2b042", ButtonId::DpiToggle, GesturePreset::MediaControls);
    cfg.disable_gesture_button("2b042", ButtonId::DpiToggle);

    let maps = hidpp_gestures_for(&cfg, Some("2b042"));
    assert!(maps.contains_key(ButtonId::GestureButton));
    assert!(
        !maps.contains_key(ButtonId::DpiToggle),
        "demoted DPI must not arm even though its map is preserved"
    );
}

#[test]
fn oshook_gestures_uses_live_set_not_sole_owner_only() {
    let mut cfg = Config::default();
    cfg.enable_gesture_button("2b042", ButtonId::GestureButton);
    cfg.enable_gesture_button("2b042", ButtonId::Back);
    let oshook = oshook_gestures_for(&cfg, Some("2b042"), None);
    assert!(oshook.contains_key(ButtonId::Back));
    assert!(!oshook.contains_key(ButtonId::GestureButton));
}

#[test]
fn hidpp_gestures_defaults_for_unconfigured_device() {
    // No device table: the dedicated gesture button is live with the default
    // pack, so that a fresh agent still arms it.
    let cfg = Config::default();
    let maps = hidpp_gestures_for(&cfg, Some("never-seen"));
    assert!(maps.contains_key(ButtonId::GestureButton));
    assert_eq!(
        maps.get(ButtonId::GestureButton)
            .and_then(|m| m.get(GestureDirection::Up)),
        Some(default_gesture_binding(GestureDirection::Up))
    );
    assert!(!maps.contains_key(ButtonId::DpiToggle));
}

#[test]
fn without_a_device_only_the_defaults_are_left() {
    let mut cfg = Config::default();
    cfg.set_gesture_owner("2b042", ButtonId::Back);
    let projected = bindings_for(&cfg, None, Some("com.apple.Safari"));
    assert_eq!(projected.len(), 8);
    for button in ButtonId::all() {
        assert_eq!(projected.get(button), Some(default_binding(button)));
    }
    assert!(gesture_bindings_for(&cfg, None).is_empty());
    assert!(hidpp_gestures_for(&cfg, None).is_empty());
    assert!(oshook_gestures_for(&cfg, None, None).is_empty());
}

#[test]
fn a_disabled_button_stays_disabled() {
    let mut cfg = Config::default();
    cfg.set_binding("2b042", ButtonId::Forward, Binding::Single(Action::Nothing));
    let projected = bindings_for(&cfg, Some("2b042"), None);
    assert_eq!(projected.get(ButtonId::Forward), Some(Action::Nothing));
    assert_eq!(projected.get(ButtonId::Back), Some(Action::BrowserBack));
}

#[test]
fn unset_directions_of_the_gesture_button_keep_their_defaults() {
    let mut cfg = Config::default();
    cfg.set_binding(
        "2b042",
        ButtonId::GestureButton,
        Binding::Gesture(map_of(&[(GestureDirection::Left, Action::PreviousTab)])),
    );
    let swipes = gesture_bindings_for(&cfg, Some("2b042"));
    assert_eq!(swipes.get(GestureDirection::Left), Some(Action::PreviousTab));
    assert_eq!(
        swipes.get(GestureDirection::Right),
        Some(Action::NextDesktop)
    );
    assert_eq!(swipes.len(), 5);
    // The projection for arming does not fill the map up.
    let armed = hidpp_gestures_for(&cfg, Some("2b042"));
    assert_eq!(armed.get(ButtonId::GestureButton).map(|m| m.len()), Some(1));
}

#[test]
fn projections_agree_with_the_resolver() {
    let mut cfg = Config::default();
    cfg.enable_gesture_button("2b042", ButtonId::DpiToggle);
    cfg.enable_gesture_button("2b042", ButtonId::Forward);
    cfg.disable_gesture_button("2b042", ButtonId::GestureButton);
    let hidpp = hidpp_gestures_for(&cfg, Some("2b042"));
    let hook = oshook_gestures_for(&cfg, Some("2b042"), None);
    for button in ButtonId::all() {
        let state = cfg.resolve_gesture_button("2b042", button);
        let armed = hidpp.get(button).or(hook.get(button));
        match state {
            GestureButtonState::LiveMap { map } => assert_eq!(armed, Some(map)),
            _ => assert_eq!(armed, None),
        }
    }
    assert_eq!(
        cfg.resolve_gesture_button("2b042", ButtonId::GestureButton),
        GestureButtonState::NotLive {
            preserved: Some(main_default_gesture_map())
        }
    );
}

#[test]
fn an_override_is_local_and_can_be_cleared() {
    let mut cfg = Config::default();
    cfg.set_binding("2b042", ButtonId::Back, Action::Copy.into());
    cfg.set_per_app_binding("2b042", "editor", ButtonId::Back, Some(Action::Paste));
    assert_eq!(
        bindings_for(&cfg, Some("2b042"), Some("editor")).get(ButtonId::Back),
        Some(Action::Paste)
    );
    assert_eq!(
        bindings_for(&cfg, Some("2b042"), Some("browser")).get(ButtonId::Back),
        Some(Action::Copy)
    );
    cfg.set_per_app_binding("2b042", "editor", ButtonId::Back, None);
    assert_eq!(
        bindings_for(&cfg, Some("2b042"), Some("editor")).get(ButtonId::Back),
        Some(Action::Copy)
    );
}

#[test]
fn enabling_again_brings_a_demoted_map_back() {
    let mut cfg = Config::default();
    cfg.set_gesture_preset("2b042", ButtonId::DpiToggle, GesturePreset::MediaControls);
    cfg.enable_gesture_button("2b042", ButtonId::DpiToggle);
    let before = hidpp_gestures_for(&cfg, Some("2b042"));
    cfg.disable_gesture_button("2b042", ButtonId::DpiToggle);
    cfg.enable_gesture_button("2b042", ButtonId::DpiToggle);
    assert_eq!(hidpp_gestures_for(&cfg, Some("2b042")), before);
    assert_eq!(
        before
            .get(ButtonId::DpiToggle)
            .and_then(|m| m.get(GestureDirection::Click)),
        Some(Action::PlayPause)
    );
}
