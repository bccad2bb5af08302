use openlogi_gestures::binding::{
    default_binding_for, main_default_gesture_map, Action, Binding, ButtonId, GestureDirection,
};
use openlogi_gestures::gesture_buttons::{GestureButtons, GestureButtonsField};
use openlogi_gestures::live_set::{
    ensure_gesture_map_for_enable, is_gesture_map, master_infer_owner, migrate_live_set,
    normalize_live_set, resolve_gesture_button, GestureButtonState, GestureOwner,
};
use openlogi_gestures::maps::{ButtonMap, DirectionMap};

fn up(action: Action) -> Binding {
    let mut map = DirectionMap::new();
    map.insert(GestureDirection::Up, action);
    Binding::Gesture(map)
}

#[test]
fn master_infer_prefers_first_non_gb_gesture() {
    let mut bindings = ButtonMap::new();
    bindings.insert(
        ButtonId::GestureButton,
        Binding::Gesture(main_default_gesture_map()),
    );
    bindings.insert(ButtonId::DpiToggle, up(Action::VolumeUp));
    assert_eq!(
        master_infer_owner(&bindings),
        Some(ButtonId::DpiToggle),
        "DpiToggle is first non-GB Gesture in declaration order among configured"
    );

    bindings.insert(ButtonId::Back, up(Action::Copy));
    assert_eq!(master_infer_owner(&bindings), Some(ButtonId::Back));
}

#[test]
fn migrate_infer_dpi_only_is_singleton_dpi() {
    let mut bindings = ButtonMap::new();
    bindings.insert(ButtonId::DpiToggle, up(Action::VolumeUp));
    let live = migrate_live_set(&GestureButtonsField::Absent, None, &mut bindings);
    assert!(live.contains(ButtonId::DpiToggle));
    assert!(!live.contains(ButtonId::GestureButton));
}

#[test]
fn migrate_fold_owner_gb_plus_dpi_gesture_is_dual() {
    let mut bindings = ButtonMap::new();
    bindings.insert(ButtonId::DpiToggle, up(Action::VolumeUp));
    let live = migrate_live_set(
        &GestureButtonsField::Absent,
        Some(GestureOwner::Button(ButtonId::GestureButton)),
        &mut bindings,
    );
    assert!(live.contains(ButtonId::GestureButton));
    assert!(live.contains(ButtonId::DpiToggle));
    // The vacant gesture button got the default pack.
    assert!(matches!(
        bindings.get(ButtonId::GestureButton),
        Some(Binding::Gesture(_))
    ));
}

#[test]
fn migrate_explicit_buttons_sticky_no_promote() {
    let mut bindings = ButtonMap::new();
    bindings.insert(
        ButtonId::GestureButton,
        Binding::Gesture(main_default_gesture_map()),
    );
    bindings.insert(ButtonId::DpiToggle, up(Action::VolumeUp));
    let live = migrate_live_set(
        &GestureButtonsField::Present(GestureButtons::try_from_iter(&[ButtonId::GestureButton])),
        None,
        &mut bindings,
    );
    assert!(live.contains(ButtonId::GestureButton));
    assert!(
        !live.contains(ButtonId::DpiToggle),
        "ExplicitButtons must not K6a-promote"
    );
}

#[test]
fn migrate_infer_back_and_forward_unions() {
    let mut bindings = ButtonMap::new();
    bindings.insert(ButtonId::Back, up(Action::Copy));
    bindings.insert(ButtonId::Forward, up(Action::Paste));
    let live = migrate_live_set(&GestureButtonsField::Absent, None, &mut bindings);
    assert!(live.contains(ButtonId::Back));
    assert!(live.contains(ButtonId::Forward));
    assert!(!live.contains(ButtonId::GestureButton));
}

#[test]
fn migrate_normalize_drops_single_from_live_set() {
    let mut bindings = ButtonMap::new();
    bindings.insert(ButtonId::Back, Binding::Single(Action::BrowserBack));
    let live = migrate_live_set(
        &GestureButtonsField::Present(GestureButtons::try_from_iter(&[ButtonId::Back])),
        None,
        &mut bindings,
    );
    assert!(live.is_off());
    assert_eq!(
        bindings.get(ButtonId::Back),
        Some(Binding::Single(Action::BrowserBack))
    );
}

#[test]
fn owner_off_migrates_to_off() {
    let mut bindings = ButtonMap::new();
    bindings.insert(ButtonId::Back, up(Action::Copy));
    let live = migrate_live_set(
        &GestureButtonsField::Absent,
        Some(GestureOwner::Off),
        &mut bindings,
    );
    assert!(live.is_off());
    assert_eq!(bindings.get(ButtonId::Back), Some(up(Action::Copy)));
}

#[test]
fn ineligible_owner_migrates_to_off() {
    let mut bindings = ButtonMap::new();
    bindings.insert(ButtonId::Back, up(Action::Copy));
    let live = migrate_live_set(
        &GestureButtonsField::Absent,
        Some(GestureOwner::Button(ButtonId::LeftClick)),
        &mut bindings,
    );
    assert!(live.is_off());
}

#[test]
fn folded_hook_owner_does_not_pair_dpi() {
    let mut bindings = ButtonMap::new();
    bindings.insert(ButtonId::Back, up(Action::Copy));
    bindings.insert(ButtonId::MiddleClick, up(Action::Paste));
    bindings.insert(ButtonId::DpiToggle, up(Action::VolumeUp));
    let live = migrate_live_set(
        &GestureButtonsField::Absent,
        Some(GestureOwner::Button(ButtonId::Back)),
        &mut bindings,
    );
    assert_eq!(live.iter(), vec![ButtonId::MiddleClick, ButtonId::Back]);
}

#[test]
fn an_empty_table_infers_the_gesture_button() {
    let mut bindings = ButtonMap::new();
    assert_eq!(
        master_infer_owner(&bindings),
        Some(ButtonId::GestureButton)
    );
    let live = migrate_live_set(&GestureButtonsField::Absent, None, &mut bindings);
    assert_eq!(live.iter(), vec![ButtonId::GestureButton]);
    assert_eq!(
        bindings.get(ButtonId::GestureButton),
        Some(default_binding_for(ButtonId::GestureButton))
    );
}

#[test]
fn a_single_action_on_the_gesture_button_infers_nobody() {
    let mut bindings = ButtonMap::new();
    bindings.insert(ButtonId::GestureButton, Binding::Single(Action::Copy));
    assert_eq!(master_infer_owner(&bindings), None);
    let live = migrate_live_set(&GestureButtonsField::Absent, None, &mut bindings);
    assert!(live.is_off());
}

#[test]
fn an_ineligible_map_is_inferred_but_not_live() {
    let mut bindings = ButtonMap::new();
    bindings.insert(ButtonId::LeftClick, up(Action::Copy));
    bindings.insert(ButtonId::Forward, up(Action::Paste));
    assert_eq!(master_infer_owner(&bindings), Some(ButtonId::LeftClick));
    let live = migrate_live_set(&GestureButtonsField::Absent, None, &mut bindings);
    assert_eq!(live.iter(), vec![ButtonId::Forward]);
}

#[test]
fn migrating_twice_changes_nothing_more() {
    let mut bindings = ButtonMap::new();
    bindings.insert(ButtonId::DpiToggle, up(Action::VolumeUp));
    bindings.insert(ButtonId::Forward, Binding::Single(Action::Copy));
    let live = migrate_live_set(
        &GestureButtonsField::Absent,
        Some(GestureOwner::Button(ButtonId::GestureButton)),
        &mut bindings,
    );
    let after_once = bindings;
    let again = migrate_live_set(&GestureButtonsField::Present(live), None, &mut bindings);
    assert_eq!(again.iter(), live.iter());
    assert_eq!(bindings, after_once);
}

#[test]
fn normalizing_keeps_maps_and_drops_vacant_ids() {
    let mut bindings = ButtonMap::new();
    bindings.insert(ButtonId::Back, up(Action::Copy));
    let base = GestureButtons::try_from_iter(&[
        ButtonId::Back,
        ButtonId::Forward,
        ButtonId::GestureButton,
    ]);
    let live = normalize_live_set(&base, &mut bindings);
    assert_eq!(live.iter(), vec![ButtonId::Back, ButtonId::GestureButton]);
    assert!(!bindings.contains_key(ButtonId::Forward));
    assert!(is_gesture_map(&bindings, ButtonId::GestureButton));
    assert!(!is_gesture_map(&bindings, ButtonId::Forward));
}

#[test]
fn first_enable_fills_every_direction() {
    let mut bindings = ButtonMap::new();
    bindings.insert(ButtonId::Back, Binding::Single(Action::Copy));
    bindings.insert(ButtonId::Forward, up(Action::Paste));

    ensure_gesture_map_for_enable(&mut bindings, ButtonId::Back);
    let back = bindings.get(ButtonId::Back).expect("bound");
    assert_eq!(
        back.direction_action(GestureDirection::Click),
        Some(Action::Copy)
    );
    assert_eq!(
        back.direction_action(GestureDirection::Up),
        Some(Action::Nothing)
    );

    ensure_gesture_map_for_enable(&mut bindings, ButtonId::Forward);
    assert_eq!(bindings.get(ButtonId::Forward), Some(up(Action::Paste)));

    ensure_gesture_map_for_enable(&mut bindings, ButtonId::DpiToggle);
    let dpi = bindings.get(ButtonId::DpiToggle).expect("bound");
    for direction in GestureDirection::all() {
        assert_eq!(dpi.direction_action(direction), Some(Action::Nothing));
    }

    ensure_gesture_map_for_enable(&mut bindings, ButtonId::GestureButton);
    assert_eq!(
        bindings.get(ButtonId::GestureButton),
        Some(Binding::Gesture(main_default_gesture_map()))
    );

    let once = bindings;
    for button in ButtonId::all() {
        if once.contains_key(button) {
            ensure_gesture_map_for_enable(&mut bindings, button);
        }
    }
    assert_eq!(bindings, once);
}

#[test]
fn resolution_has_three_outcomes() {
    let mut bindings = ButtonMap::new();
    bindings.insert(ButtonId::Back, up(Action::Copy));
    bindings.insert(ButtonId::Forward, Binding::Single(Action::Paste));
    let live = GestureButtons::try_from_iter(&[
        ButtonId::Back,
        ButtonId::Forward,
        ButtonId::DpiToggle,
    ]);
    let map = match up(Action::Copy) {
        Binding::Gesture(map) => map,
        Binding::Single(_) => unreachable!(),
    };
    assert_eq!(
        resolve_gesture_button(&live, &bindings, ButtonId::Back),
        GestureButtonState::LiveMap { map }
    );
    assert_eq!(
        resolve_gesture_button(&live, &bindings, ButtonId::Forward),
        GestureButtonState::LiveButSingle {
            action: Action::Paste
        }
    );
    assert_eq!(
        resolve_gesture_button(&live, &bindings, ButtonId::DpiToggle),
        GestureButtonState::LiveButSingle {
            action: Action::Nothing
        }
    );
    assert_eq!(
        resolve_gesture_button(&GestureButtons::off(), &bindings, ButtonId::Back),
        GestureButtonState::NotLive {
            preserved: Some(map)
        }
    );
    assert_eq!(
        resolve_gesture_button(&GestureButtons::off(), &bindings, ButtonId::Forward),
        GestureButtonState::NotLive { preserved: None }
    );
}
