//! Binding-map construction: overlay the stored per-device (and per-app)
//! bindings on top of the built-in defaults.

use vstd::prelude::*;

use crate::binding::{
    all_buttons, all_directions, default_binding, default_binding_spec, default_gesture_binding,
    default_gesture_binding_spec, lemma_all_buttons_complete, lemma_all_directions_complete,
    main_default_spec, Action, Binding, ButtonId, GestureDirection,
};
use crate::config::{
    app_overrides, device_at, effective, fresh_device, law_fresh_device, law_owner_is_live, owner_of,
    Config, DeviceView,
};
use crate::gesture_buttons::eligible;
use crate::live_set::{enabled_binding, os_hook, resolved, stores_map, GestureButtonState};
use crate::maps::{
    lemma_ordered, lemma_take_contains, lookup, ordered, ButtonMap, DirectionMap,
};
use crate::text::text_of;

verus! {

/// The plain-press action of a button with this stored binding. A gesture
/// without an explicit `Click` has no opinion, so the default survives.
pub open spec fn projected(binding: Option<Binding>, button: ButtonId) -> Action {
    match binding {
        None => default_binding_spec(button),
        Some(binding) => if binding is Gesture && binding.direction_action_spec(
            GestureDirection::Click,
        ) is None {
            default_binding_spec(button)
        } else {
            binding.click_action_spec()
        },
    }
}

/// The stored bindings that apply to a device in front of an app; none without
/// a device.
pub open spec fn stored_bindings(
    config: Map<Seq<char>, DeviceView>,
    key: Option<Seq<char>>,
    app: Option<Seq<char>>,
) -> Map<ButtonId, Binding> {
    match key {
        Some(key) => effective(device_at(config, key), app),
        None => Map::empty(),
    }
}

/// Every button with its plain-press action.
pub open spec fn press_map(stored: Map<ButtonId, Binding>) -> Map<ButtonId, Action> {
    Map::total(|b: ButtonId| projected(lookup(stored, b), b))
}

/// What the dedicated gesture button stores for a direction on a device.
pub open spec fn stored_direction(device: DeviceView, direction: GestureDirection) -> Option<
    Action,
> {
    match lookup(device.bindings, ButtonId::GestureButton) {
        Some(binding) => binding.direction_action_spec(direction),
        None => None,
    }
}

/// The swipes of the dedicated gesture button: nothing unless it owns the
/// gesture role, else every direction, stored or default.
pub open spec fn swipe_map(device: DeviceView) -> Map<GestureDirection, Action> {
    if owner_of(device.live) == Some(ButtonId::GestureButton) {
        Map::total(
            |d: GestureDirection|
                match stored_direction(device, d) {
                    Some(action) => action,
                    None => default_gesture_binding_spec(d),
                },
        )
    } else {
        Map::empty()
    }
}

/// The direction maps of the live HID++ gesture controls.
pub open spec fn hidpp_maps(device: DeviceView) -> Map<ButtonId, DirectionMap> {
    Map::new(
        |b: ButtonId|
            (b == ButtonId::GestureButton || b == ButtonId::DpiToggle) && device.live.contains(b)
                && stores_map(device.bindings, b),
        |b: ButtonId| device.bindings[b]->Gesture_0,
    )
}

/// The direction maps of the live hook buttons in front of an app.
pub open spec fn hook_maps(device: DeviceView, app: Option<Seq<char>>) -> Map<
    ButtonId,
    DirectionMap,
> {
    Map::new(
        |b: ButtonId|
            os_hook(b) && device.live.contains(b) && stores_map(effective(device, app), b),
        |b: ButtonId| effective(device, app)[b]->Gesture_0,
    )
}

/// Effective per-button single-action map for the device `config_key`, with
/// `app_bundle`'s per-app overlay applied. Unset buttons fall back to
/// [`default_binding`].
///
/// This is the map the OS hook and the HID++ button-press path consume, so a
/// gesture is projected to its click action; swipes are dispatched through the
/// separate gesture maps.
#[must_use]
pub fn bindings_for(
    config: &Config,
    config_key: Option<&str>,
    app_bundle: Option<&str>,
) -> (bindings: ButtonMap<Action>)
    ensures
        bindings@ == press_map(stored_bindings(config@, text_of(config_key), text_of(app_bundle))),
{
    let stored = match config_key {
        Some(key) => config.effective_bindings(key, app_bundle),
        None => ButtonMap::new(),
    };
    let ghost goal = press_map(stored@);
    let mut bindings: ButtonMap<Action> = ButtonMap::new();
    let all = ButtonId::all();
    let mut i: usize = 0;
    while i < all.len()
        invariant
            i <= all@.len(),
            all@ == all_buttons(),
            goal == press_map(stored@),
            forall|b: ButtonId| #[trigger]
                bindings@.contains_key(b) <==> all_buttons().take(i as int).contains(b),
            forall|b: ButtonId| #[trigger] bindings@.contains_key(b) ==> bindings@[b] == goal[b],
        decreases all@.len() - i,
    {
        proof {
            lemma_take_contains(all_buttons(), i as int);
        }
        let button = all[i];
        bindings.insert(button, default_binding(button));
        if let Some(binding) = stored.get(button) {
            // A gesture without an explicit click leaves the default in place.
            let silent = binding.is_gesture() && binding.direction_action(
                GestureDirection::Click,
            ).is_none();
            if !silent {
                bindings.insert(button, binding.click_action());
            }
        }
        i = i + 1;
    }
    proof {
        lemma_all_buttons_complete();
        assert(all_buttons().take(8) =~= all_buttons());
        assert forall|b: ButtonId| #[trigger] bindings@.contains_key(b) by {
            assert(all_buttons()[b.rank()] == b);
        }
        assert(bindings@ =~= goal);
    }
    bindings
}

/// Effective gesture bindings of the dedicated gesture button for the device
/// `config_key`. Unset directions fall back to [`default_gesture_binding`].
///
/// The dedicated gesture button only gestures while it is the device's gesture
/// owner. When the role is with another button or gestures are off, the map is
/// empty, so that nothing is dispatched for it.
#[must_use]
pub fn gesture_bindings_for(config: &Config, config_key: Option<&str>) -> (bindings: DirectionMap)
    ensures
        bindings@ == match text_of(config_key) {
            Some(key) => swipe_map(device_at(config@, key)),
            None => Map::empty(),
        },
{
    let key = match config_key {
        Some(key) => key,
        None => return DirectionMap::new(),
    };
    let owned = match config.gesture_owner(key) {
        Some(owner) => owner == ButtonId::GestureButton,
        None => false,
    };
    if !owned {
        return DirectionMap::new();
    }
    let ghost goal = swipe_map(device_at(config@, key@));
    let stored = config.gesture_bindings_for(key);
    proof {
        assert forall|d: GestureDirection| #[trigger] stored.slot(d) == stored_direction(
            device_at(config@, key@),
            d,
        ) by {
            if stored.slot(d) is Some {
                assert(stored@.contains_key(d));
            }
        }
    }
    let mut bindings = DirectionMap::new();
    let directions = GestureDirection::all();
    let mut i: usize = 0;
    while i < directions.len()
        invariant
            i <= directions@.len(),
            directions@ == all_directions(),
            owner_of(device_at(config@, key@).live) == Some(ButtonId::GestureButton),
            goal == swipe_map(device_at(config@, key@)),
            forall|d: GestureDirection| #[trigger]
                stored.slot(d) == stored_direction(device_at(config@, key@), d),
            forall|d: GestureDirection| #[trigger]
                bindings@.contains_key(d) <==> all_directions().take(i as int).contains(d),
            forall|d: GestureDirection| #[trigger]
                bindings@.contains_key(d) ==> bindings@[d] == goal[d],
        decreases directions@.len() - i,
    {
        proof {
            lemma_take_contains(all_directions(), i as int);
        }
        let d = directions[i];
        match stored.get(d) {
            Some(action) => bindings.insert(d, action),
            None => bindings.insert(d, default_gesture_binding(d)),
        }
        i = i + 1;
    }
    proof {
        lemma_all_directions_complete();
        assert(all_directions().take(5) =~= all_directions());
        assert(bindings@ =~= goal);
    }
    bindings
}

/// Per-button direction maps for live HID++ gesture controls (the dedicated
/// gesture button and the DPI button).
///
/// A button is in it only when it is in the live set and stores a direction
/// map. The stored map is used as it is: no default is added to it.
#[must_use]
pub fn hidpp_gestures_for(config: &Config, config_key: Option<&str>) -> (out: ButtonMap<
    DirectionMap,
>)
    ensures
        out@ == match text_of(config_key) {
            Some(key) => hidpp_maps(device_at(config@, key)),
            None => Map::empty(),
        },
{
    let key = match config_key {
        Some(key) => key,
        None => return ButtonMap::new(),
    };
    let mut out: ButtonMap<DirectionMap> = ButtonMap::new();
    if let GestureButtonState::LiveMap { map } = config.resolve_gesture_button(
        key,
        ButtonId::GestureButton,
    ) {
        out.insert(ButtonId::GestureButton, map);
    }
    if let GestureButtonState::LiveMap { map } = config.resolve_gesture_button(
        key,
        ButtonId::DpiToggle,
    ) {
        out.insert(ButtonId::DpiToggle, map);
    }
    assert(out@ =~= hidpp_maps(device_at(config@, key@)));
    out
}

/// Per-direction maps for live OS-hook gesture buttons (middle, back, forward)
/// on `config_key`, with `app_bundle`'s per-app overlay applied.
///
/// Holds every hook button that is live and still a direction map after the
/// overlay: a per-app single action demotes that button for the app in front
/// only. Maps are used as they are stored.
#[must_use]
pub fn oshook_gestures_for(
    config: &Config,
    config_key: Option<&str>,
    app_bundle: Option<&str>,
) -> (out: ButtonMap<DirectionMap>)
    ensures
        out@ == match text_of(config_key) {
            Some(key) => hook_maps(device_at(config@, key), text_of(app_bundle)),
            None => Map::empty(),
        },
{
    let key = match config_key {
        Some(key) => key,
        None => return ButtonMap::new(),
    };
    let live = config.gesture_buttons(key);
    let stored = config.effective_bindings(key, app_bundle);
    let ghost goal = hook_maps(device_at(config@, key@), text_of(app_bundle));
    let mut out: ButtonMap<DirectionMap> = ButtonMap::new();
    let hooks = [ButtonId::MiddleClick, ButtonId::Back, ButtonId::Forward];
    let mut i: usize = 0;
    while i < hooks.len()
        invariant
            i <= hooks@.len(),
            hooks@ == seq![ButtonId::MiddleClick, ButtonId::Back, ButtonId::Forward],
            live@ == device_at(config@, key@).live,
            stored@ == effective(device_at(config@, key@), text_of(app_bundle)),
            goal == hook_maps(device_at(config@, key@), text_of(app_bundle)),
            forall|b: ButtonId| #[trigger]
                lookup(out@, b) == if hooks@.take(i as int).contains(b) {
                    lookup(goal, b)
                } else {
                    None
                },
        decreases hooks@.len() - i,
    {
        let id = hooks[i];
        let ghost before = out@;
        if live.contains(id) {
            if let Some(Binding::Gesture(map)) = stored.get(id) {
                out.insert(id, map);
            }
        }
        proof {
            lemma_take_contains(hooks@, i as int);
            assert forall|b: ButtonId| #[trigger] lookup(out@, b) == if hooks@.take(i + 1).contains(
                b,
            ) {
                lookup(goal, b)
            } else {
                None
            } by {
                assert(lookup(before, b) == if hooks@.take(i as int).contains(b) {
                    lookup(goal, b)
                } else {
                    None
                });
            }
        }
        i = i + 1;
    }
    proof {
        assert(hooks@.take(3) =~= hooks@);
        assert(hooks@[0] == ButtonId::MiddleClick);
        assert(hooks@[1] == ButtonId::Back);
        assert(hooks@[2] == ButtonId::Forward);
        assert forall|b: ButtonId| #[trigger] out@.contains_key(b) <==> goal.contains_key(b) by {
            assert(lookup(out@, b) == if hooks@.contains(b) {
                lookup(goal, b)
            } else {
                None
            });
        }
        assert forall|b: ButtonId| #[trigger] out@.contains_key(b) implies out@[b] == goal[b] by {
            assert(lookup(out@, b) == if hooks@.contains(b) {
                lookup(goal, b)
            } else {
                None
            });
        }
        assert(out@ =~= goal);
    }
    out
}

/// Dispatch agrees with the resolver: away from per-app overrides a button has
/// a gesture map, in one of the two projections and in no other, exactly when
/// the resolver says that it is live with that map.
pub proof fn law_projections_agree_with_resolver(device: DeviceView, id: ButtonId, map: DirectionMap)
    requires
        device.live.contains(id) ==> eligible(id),
    ensures
        resolved(device.live.contains(id), lookup(device.bindings, id)) == (
        GestureButtonState::LiveMap { map }) <==> (lookup(hidpp_maps(device), id) == Some(map)
            || lookup(hook_maps(device, None), id) == Some(map)),
        !(hidpp_maps(device).contains_key(id) && hook_maps(device, None).contains_key(id)),
{
    assert(effective(device, None) =~= device.bindings);
}

/// Every button always has a plain-press action, and one that stores nothing
/// has its default.
pub proof fn law_every_button_has_an_action(stored: Map<ButtonId, Binding>, id: ButtonId)
    ensures
        press_map(stored).contains_key(id),
        !stored.contains_key(id) ==> press_map(stored)[id] == default_binding_spec(id),
{
}

/// A gesture without an explicit click leaves the default plain press in
/// place; one with a click replaces it.
pub proof fn law_click_less_gesture_keeps_the_default(
    stored: Map<ButtonId, Binding>,
    id: ButtonId,
    map: DirectionMap,
)
    requires
        lookup(stored, id) == Some(Binding::Gesture(map)),
    ensures
        press_map(stored)[id] == match map.slot(GestureDirection::Click) {
            Some(action) => action,
            None => default_binding_spec(id),
        },
{
}

/// A stored single action is what a plain press runs, even when it does
/// nothing.
pub proof fn law_single_action_wins(stored: Map<ButtonId, Binding>, id: ButtonId, action: Action)
    requires
        lookup(stored, id) == Some(Binding::Single(action)),
    ensures
        press_map(stored)[id] == action,
{
}

/// A per-app single action takes a hook button out of the gestures of that app
/// and leaves every other app, and the map itself, alone.
pub proof fn law_per_app_override_is_local(
    device: DeviceView,
    app: Seq<char>,
    id: ButtonId,
    action: Action,
    other: Option<Seq<char>>,
)
    requires
        other != Some(app),
    ensures
        ({
            let changed = device.overridden(app, id, Some(action));
            &&& !hook_maps(changed, Some(app)).contains_key(id)
            &&& press_map(effective(changed, Some(app)))[id] == action
            &&& hook_maps(changed, other) == hook_maps(device, other)
            &&& effective(changed, other) == effective(device, other)
            &&& changed.bindings == device.bindings
        }),
{
    let changed = device.overridden(app, id, Some(action));
    assert(effective(changed, other) =~= effective(device, other));
    assert(hook_maps(changed, other) =~= hook_maps(device, other));
    assert(effective(changed, Some(app))[id] == Binding::Single(action));
}

/// Clearing a per-app override gives back what was effective before it was
/// set, if nothing was overridden then.
pub proof fn law_clearing_an_override_undoes_it(
    device: DeviceView,
    app: Seq<char>,
    id: ButtonId,
    action: Action,
)
    requires
        !app_overrides(device, Some(app)).contains_key(id),
    ensures
        effective(device.overridden(app, id, Some(action)).overridden(app, id, None), Some(app))
            == effective(device, Some(app)),
{
    let back = device.overridden(app, id, Some(action)).overridden(app, id, None);
    assert(app_overrides(back, Some(app)) =~= app_overrides(device, Some(app)));
    assert(effective(back, Some(app)) =~= effective(device, Some(app)));
}

/// A demoted button is in no gesture map although its binding is kept, and
/// enabling it again restores exactly the map it had.
pub proof fn law_demotion_is_non_destructive(
    device: DeviceView,
    id: ButtonId,
    app: Option<Seq<char>>,
    map: DirectionMap,
)
    requires
        eligible(id),
        lookup(device.bindings, id) == Some(Binding::Gesture(map)),
    ensures
        !hidpp_maps(device.disabled(id)).contains_key(id),
        !hook_maps(device.disabled(id), app).contains_key(id),
        device.disabled(id).bindings == device.bindings,
        lookup(device.disabled(id).enabled(id).bindings, id) == Some(Binding::Gesture(map)),
        device.disabled(id).enabled(id).live.contains(id),
        device.live.contains(id) ==> device.disabled(id).enabled(id) == device,
{
    let again = device.disabled(id).enabled(id);
    assert(again.bindings =~= device.bindings);
    if device.live.contains(id) {
        assert(again.live =~= device.live);
        assert(again =~= device);
    }
}

/// Enabling a button arms it beside the others: it gets a map in the
/// projection of its kind, and the maps of all other buttons stay.
pub proof fn law_enable_arms_beside_the_others(
    device: DeviceView,
    id: ButtonId,
    other: ButtonId,
)
    requires
        eligible(id),
        other != id,
    ensures
        ({
            let armed = device.enabled(id);
            &&& hidpp_maps(armed).contains_key(id) || hook_maps(armed, None).contains_key(id)
            &&& lookup(hidpp_maps(armed), other) == lookup(hidpp_maps(device), other)
            &&& lookup(hook_maps(armed, None), other) == lookup(hook_maps(device, None), other)
        }),
{
    let armed = device.enabled(id);
    assert(effective(armed, None) =~= armed.bindings);
    assert(effective(device, None) =~= device.bindings);
    assert(enabled_binding(lookup(device.bindings, id), id) is Gesture);
}

/// Handing the gesture role to another button silences the dedicated gesture
/// button.
pub proof fn law_moved_role_silences_the_gesture_button(device: DeviceView, id: ButtonId)
    requires
        id != ButtonId::GestureButton,
    ensures
        swipe_map(device.owned_by(id)) == Map::<GestureDirection, Action>::empty(),
        !hidpp_maps(device.owned_by(id)).contains_key(ButtonId::GestureButton),
{
    let live = device.owned_by(id).live;
    lemma_ordered(live);
    if ordered(live).len() > 0 {
        assert(ordered(live).contains(ordered(live)[0]));
    }
}

/// A device that was never configured arms the dedicated gesture button with
/// the default five-pack and nothing else.
pub proof fn law_unconfigured_device_arms_the_default(
    config: Map<Seq<char>, DeviceView>,
    key: Seq<char>,
    app: Option<Seq<char>>,
)
    requires
        !config.contains_key(key),
    ensures
        hidpp_maps(device_at(config, key)) == Map::<ButtonId, DirectionMap>::empty().insert(
            ButtonId::GestureButton,
            main_default_spec(),
        ),
        hook_maps(device_at(config, key), app) == Map::<ButtonId, DirectionMap>::empty(),
{
    law_fresh_device();
    assert(hidpp_maps(fresh_device()) =~= Map::<ButtonId, DirectionMap>::empty().insert(
        ButtonId::GestureButton,
        main_default_spec(),
    ));
    assert(hook_maps(fresh_device(), app) =~= Map::<ButtonId, DirectionMap>::empty());
}

/// What a plain press runs, in this order: the override of the app in front, the
/// stored single action, the click of the stored direction map, the default.
pub proof fn law_plain_press_order(device: DeviceView, app: Seq<char>, button: ButtonId)
    ensures
        press_map(effective(device, Some(app)))[button] == (if device.per_app.contains_key(app)
            && device.per_app[app].contains_key(button) {
            device.per_app[app][button]
        } else {
            press_map(device.bindings)[button]
        }),
        press_map(effective(device, None))[button] == press_map(device.bindings)[button],
        device.bindings.contains_key(button) ==> press_map(device.bindings)[button]
            == match device.bindings[button] {
            Binding::Single(action) => action,
            Binding::Gesture(map) => match map.click {
                Some(action) => action,
                None => default_binding_spec(button),
            },
        },
        !device.bindings.contains_key(button) ==> press_map(device.bindings)[button]
            == default_binding_spec(button),
{
}

/// Without a device every button runs its default; with one, what counts is
/// what is in effect on that device in front of the app.
pub proof fn law_presses_without_a_device(
    config: Map<Seq<char>, DeviceView>,
    key: Seq<char>,
    app: Option<Seq<char>>,
    button: ButtonId,
)
    ensures
        press_map(stored_bindings(config, None, app))[button] == default_binding_spec(button),
        stored_bindings(config, Some(key), app) == effective(device_at(config, key), app),
{
}

/// Storing a single action for a button is what its plain press runs from then
/// on, and the plain presses of all other buttons stay.
pub proof fn law_bound_press_is_run(
    device: DeviceView,
    button: ButtonId,
    action: Action,
    other: ButtonId,
)
    ensures
        press_map(effective(device.bound(button, Binding::Single(action)), None))[button] == action,
        other != button ==> press_map(
            effective(device.bound(button, Binding::Single(action)), None),
        )[other] == press_map(effective(device, None))[other],
{
}

/// The dedicated gesture button swipes just while it is live, then in every
/// direction: by what it stores for the direction, else by the default of it.
pub proof fn law_swipes_of_the_gesture_button(device: DeviceView, direction: GestureDirection)
    ensures
        swipe_map(device).contains_key(direction) <==> device.live.contains(
            ButtonId::GestureButton,
        ),
        device.live.contains(ButtonId::GestureButton) ==> swipe_map(device)[direction] == match (
        lookup(device.bindings, ButtonId::GestureButton)) {
            Some(Binding::Gesture(map)) => if map@.contains_key(direction) {
                map@[direction]
            } else {
                default_gesture_binding_spec(direction)
            },
            _ => default_gesture_binding_spec(direction),
        },
{
    law_owner_is_live(device.live);
}

/// A HID++ control has a map exactly when it is the dedicated gesture button or
/// the DPI button, is live and stores one; that is the map it has, as it is.
pub proof fn law_hidpp_maps_are_the_stored_ones(device: DeviceView, button: ButtonId)
    ensures
        lookup(hidpp_maps(device), button) == match lookup(device.bindings, button) {
            Some(Binding::Gesture(map)) => if device.live.contains(button) && (button
                == ButtonId::GestureButton || button == ButtonId::DpiToggle) {
                Some(map)
            } else {
                None
            },
            _ => None,
        },
{
}

/// A hook button has a map in front of an app exactly when it is live, stores
/// one and the app does not override it; that is the map it has, as it is.
pub proof fn law_hook_maps_are_the_stored_ones(
    device: DeviceView,
    app: Seq<char>,
    button: ButtonId,
)
    ensures
        lookup(hook_maps(device, None), button) == match lookup(device.bindings, button) {
            Some(Binding::Gesture(map)) => if device.live.contains(button) && (button
                == ButtonId::MiddleClick || button == ButtonId::Back || button
                == ButtonId::Forward) {
                Some(map)
            } else {
                None
            },
            _ => None,
        },
        lookup(hook_maps(device, Some(app)), button) == if device.per_app.contains_key(app)
            && device.per_app[app].contains_key(button) {
            None
        } else {
            lookup(hook_maps(device, None), button)
        },
{
}

} // verus!
