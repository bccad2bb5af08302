//! Per-device settings: bindings, the live gesture set, per-app overrides.
//!
//! A device that was never configured reads as a freshly inferred one: the
//! dedicated gesture button is live and bound to the default five-pack.

use vstd::prelude::*;

use crate::binding::{
    all_buttons, default_binding_for_spec, default_gesture_binding_spec, lemma_all_buttons_complete,
    main_default_gesture_map, main_default_spec, Action, Binding, ButtonId, GestureDirection,
};
use crate::gesture_buttons::{
    eligible, is_gesture_eligible, GestureButtons, GestureButtonsField,
};
use crate::live_set::{
    enabled_binding, ensure_gesture_map_for_enable, migrate_live_set, migrated_bindings,
    migrated_live, other_maps, present_set, resolve_gesture_button, resolved, GestureButtonState,
    GestureOwner,
};
use crate::maps::{
    lemma_ordered, lemma_take_contains, lookup, ordered, ButtonMap, DirectionMap,
};
use crate::text::{same_text, text_of, texts, TextMap};

verus! {

/// Reserved experimental multi-gesture field names. When any of these appears
/// on a device table of a current schema, the table is rejected, so that an
/// unknown multi-gesture layout is never accepted and discarded.
pub const EXPERIMENTAL_GESTURE_MARKERS: [&'static str; 5] = [
    "gesture_owners",
    "gesture_sources",
    "gesture_buttons_v2",
    "multi_gesture",
    "extra_gesture_buttons",
];

/// The reserved field names, as texts.
pub open spec fn experimental_markers() -> Seq<Seq<char>> {
    EXPERIMENTAL_GESTURE_MARKERS@.map_values(|name: &'static str| name@)
}

/// The first schema version whose device tables store a live set.
pub const LIVE_SET_SCHEMA_VERSION: u32 = 4;

/// Whether `name` is a reserved experimental multi-gesture field name.
#[must_use]
pub fn is_experimental_gesture_marker(name: &str) -> (res: bool)
    ensures
        res == experimental_markers().contains(name@),
{
    let markers = EXPERIMENTAL_GESTURE_MARKERS;
    let mut i: usize = 0;
    while i < markers.len()
        invariant
            i <= markers@.len(),
            markers == EXPERIMENTAL_GESTURE_MARKERS,
            forall|j: int| 0 <= j < i ==> #[trigger] experimental_markers()[j] != name@,
        decreases markers@.len() - i,
    {
        assert(experimental_markers()[i as int] == markers@[i as int]@);
        if same_text(name, markers[i]) {
            return true;
        }
        i = i + 1;
    }
    false
}

/// Whether a device table of this schema with these field names is rejected.
pub open spec fn rejected(schema_version: u32, fields: Seq<Seq<char>>) -> bool {
    schema_version >= LIVE_SET_SCHEMA_VERSION && exists|i: int|
        0 <= i < fields.len() && experimental_markers().contains(#[trigger] fields[i])
}

/// Why a device table was not loaded.
#[derive(Clone, Copy, Debug, PartialEq, Eq, Structural)]
pub enum LoadError {
    /// It holds a reserved experimental field.
    ExperimentalMarker,
}

/// Whether a device table with these field names is rejected on load.
#[must_use]
pub fn rejects_device_table(schema_version: u32, fields: &[String]) -> (res: bool)
    ensures
        res == rejected(schema_version, texts(fields@)),
{
    if schema_version < LIVE_SET_SCHEMA_VERSION {
        return false;
    }
    let mut i: usize = 0;
    while i < fields.len()
        invariant
            i <= fields@.len(),
            schema_version >= LIVE_SET_SCHEMA_VERSION,
            forall|j: int|
                0 <= j < i ==> !experimental_markers().contains(#[trigger] texts(fields@)[j]),
        decreases fields@.len() - i,
    {
        assert(texts(fields@)[i as int] == fields@[i as int]@);
        if is_experimental_gesture_marker(fields[i].as_str()) {
            return true;
        }
        i = i + 1;
    }
    false
}

/// A ready-made direction map.
#[derive(Clone, Copy, Debug, PartialEq, Eq, Structural)]
pub enum GesturePreset {
    /// The main default five-pack.
    Desktop,
    /// Volume, tracks and playback.
    MediaControls,
}

/// The direction map of a preset.
pub open spec fn preset_spec(preset: GesturePreset) -> DirectionMap {
    match preset {
        GesturePreset::Desktop => main_default_spec(),
        GesturePreset::MediaControls => DirectionMap {
            up: Some(Action::VolumeUp),
            down: Some(Action::VolumeDown),
            left: Some(Action::PreviousTrack),
            right: Some(Action::NextTrack),
            click: Some(Action::PlayPause),
        },
    }
}

/// The direction map of `preset`.
#[must_use]
pub fn preset_map(preset: GesturePreset) -> (map: DirectionMap)
    ensures
        map == preset_spec(preset),
{
    match preset {
        GesturePreset::Desktop => main_default_gesture_map(),
        GesturePreset::MediaControls => DirectionMap {
            up: Some(Action::VolumeUp),
            down: Some(Action::VolumeDown),
            left: Some(Action::PreviousTrack),
            right: Some(Action::NextTrack),
            click: Some(Action::PlayPause),
        },
    }
}

/// The settings of one device.
#[derive(Debug)]
pub struct DeviceConfig {
    bindings: ButtonMap<Binding>,
    gesture_buttons: GestureButtons,
    per_app: TextMap<ButtonMap<Action>>,
}

/// The settings of one device, as mathematical values.
#[verifier::ext_equal]
pub struct DeviceView {
    /// What is bound to each configured button.
    pub bindings: Map<ButtonId, Binding>,
    /// The live gesture buttons.
    pub live: Set<ButtonId>,
    /// Single actions that replace a binding while an app is in front.
    pub per_app: Map<Seq<char>, Map<ButtonId, Action>>,
}

impl View for DeviceConfig {
    type V = DeviceView;

    closed spec fn view(&self) -> DeviceView {
        DeviceView {
            bindings: self.bindings@,
            live: self.gesture_buttons@,
            per_app: self.per_app@.map_values(|m: ButtonMap<Action>| m@),
        }
    }
}

/// The settings that migration makes of a stored table.
pub open spec fn migrated_device(
    present: Option<Set<ButtonId>>,
    owner: Option<GestureOwner>,
    bindings: Map<ButtonId, Binding>,
) -> DeviceView {
    DeviceView {
        bindings: migrated_bindings(present, owner, bindings),
        live: migrated_live(present, owner, bindings),
        per_app: Map::empty(),
    }
}

/// A table with nothing stored, after migration.
pub open spec fn fresh_device() -> DeviceView {
    migrated_device(None, None, Map::empty())
}

/// The overrides of one app, empty when it has none.
pub open spec fn app_overrides(device: DeviceView, app: Option<Seq<char>>) -> Map<
    ButtonId,
    Action,
> {
    match app {
        Some(app) => if device.per_app.contains_key(app) {
            device.per_app[app]
        } else {
            Map::empty()
        },
        None => Map::empty(),
    }
}

/// The stored bindings with the overrides of one app on top.
pub open spec fn effective(device: DeviceView, app: Option<Seq<char>>) -> Map<ButtonId, Binding> {
    device.bindings.union_prefer_right(
        app_overrides(device, app).map_values(|a: Action| Binding::Single(a)),
    )
}

/// The button that counts as the device's gesture owner: the dedicated gesture
/// button when it is live, else the first live button.
pub open spec fn owner_of(live: Set<ButtonId>) -> Option<ButtonId> {
    if live.contains(ButtonId::GestureButton) {
        Some(ButtonId::GestureButton)
    } else if ordered(live).len() > 0 {
        Some(ordered(live)[0])
    } else {
        None
    }
}

impl DeviceView {
    /// After storing `binding` for `button`; a direction map on an eligible
    /// button makes it live.
    pub open spec fn bound(self, button: ButtonId, binding: Binding) -> DeviceView {
        DeviceView {
            bindings: self.bindings.insert(button, binding),
            live: if binding is Gesture && eligible(button) {
                self.live.insert(button)
            } else {
                self.live
            },
            per_app: self.per_app,
        }
    }

    /// After making `button` gesture beside the live ones.
    pub open spec fn enabled(self, button: ButtonId) -> DeviceView {
        if eligible(button) {
            DeviceView {
                bindings: self.bindings.insert(
                    button,
                    enabled_binding(lookup(self.bindings, button), button),
                ),
                live: self.live.insert(button),
                per_app: self.per_app,
            }
        } else {
            self
        }
    }

    /// After demoting `button`; its binding stays.
    pub open spec fn disabled(self, button: ButtonId) -> DeviceView {
        DeviceView { live: self.live.remove(button), ..self }
    }

    /// After handing the gesture role to `button` alone.
    pub open spec fn owned_by(self, button: ButtonId) -> DeviceView {
        DeviceView { live: Set::empty(), ..self }.enabled(button)
    }

    /// After storing the map of a preset for `button`.
    pub open spec fn with_preset(self, button: ButtonId, preset: GesturePreset) -> DeviceView {
        DeviceView {
            bindings: self.bindings.insert(button, Binding::Gesture(preset_spec(preset))),
            ..self
        }
    }

    /// After setting or clearing what `button` does while `app` is in front.
    pub open spec fn overridden(
        self,
        app: Seq<char>,
        button: ButtonId,
        action: Option<Action>,
    ) -> DeviceView {
        let current = app_overrides(self, Some(app));
        DeviceView {
            per_app: self.per_app.insert(
                app,
                match action {
                    Some(action) => current.insert(button, action),
                    None => current.remove(button),
                },
            ),
            ..self
        }
    }
}

impl DeviceConfig {
    fn migrated(
        field: &GestureButtonsField,
        owner: Option<GestureOwner>,
        bindings: ButtonMap<Binding>,
    ) -> (device: DeviceConfig)
        ensures
            device@ == migrated_device(present_set(*field), owner, bindings@),
    {
        let mut bindings = bindings;
        let gesture_buttons = migrate_live_set(field, owner, &mut bindings);
        let device = DeviceConfig { bindings, gesture_buttons, per_app: TextMap::new() };
        assert(device@.per_app =~= Map::<Seq<char>, Map<ButtonId, Action>>::empty());
        device
    }

    /// Load a stored table: `fields` are the names of all its fields. A table
    /// of a current schema with a reserved experimental field is rejected, any
    /// other one is migrated.
    pub fn load(
        schema_version: u32,
        fields: &[String],
        field: &GestureButtonsField,
        owner: Option<GestureOwner>,
        bindings: ButtonMap<Binding>,
    ) -> (res: Result<DeviceConfig, LoadError>)
        ensures
            match res {
                Err(LoadError::ExperimentalMarker) => rejected(schema_version, texts(fields@)),
                Ok(device) => {
                    &&& !rejected(schema_version, texts(fields@))
                    &&& device@ == migrated_device(present_set(*field), owner, bindings@)
                },
            },
    {
        if rejects_device_table(schema_version, fields) {
            Err(LoadError::ExperimentalMarker)
        } else {
            Ok(Self::migrated(field, owner, bindings))
        }
    }

    /// A table with nothing stored.
    #[must_use]
    pub fn fresh() -> (device: DeviceConfig)
        ensures
            device@ == fresh_device(),
    {
        Self::migrated(&GestureButtonsField::Absent, None, ButtonMap::new())
    }

    /// What is bound to each button, with the overrides of `app` on top.
    #[must_use]
    pub fn effective_bindings(&self, app: Option<&str>) -> (bindings: ButtonMap<Binding>)
        ensures
            bindings@ == effective(self@, text_of(app)),
    {
        let ghost app_name = text_of(app);
        let overrides = match app {
            Some(app) => match self.per_app.get(app) {
                Some(overrides) => *overrides,
                None => ButtonMap::new(),
            },
            None => ButtonMap::new(),
        };
        assert(overrides@ =~= app_overrides(self@, app_name));
        let mut bindings = self.bindings;
        let all = ButtonId::all();
        let mut i: usize = 0;
        let ghost top = overrides@.map_values(|a: Action| Binding::Single(a));
        proof {
            lemma_all_buttons_complete();
        }
        while i < all.len()
            invariant
                i <= all@.len(),
                all@ == all_buttons(),
                top == overrides@.map_values(|a: Action| Binding::Single(a)),
                forall|b: ButtonId| #[trigger]
                    lookup(bindings@, b) == if all_buttons().take(i as int).contains(b)
                        && overrides@.contains_key(b) {
                        Some(top[b])
                    } else {
                        lookup(self.bindings@, b)
                    },
            decreases all@.len() - i,
        {
            proof {
                lemma_take_contains(all_buttons(), i as int);
            }
            let ghost before = bindings@;
            if let Some(action) = overrides.get(all[i]) {
                bindings.insert(all[i], Binding::Single(action));
            }
            proof {
                assert forall|b: ButtonId| #[trigger] lookup(bindings@, b) == if all_buttons().take(
                    i + 1,
                ).contains(b) && overrides@.contains_key(b) {
                    Some(top[b])
                } else {
                    lookup(self.bindings@, b)
                } by {
                    assert(lookup(before, b) == if all_buttons().take(i as int).contains(b)
                        && overrides@.contains_key(b) {
                        Some(top[b])
                    } else {
                        lookup(self.bindings@, b)
                    });
                    assert(all_buttons().take(i + 1).contains(b) <==> all_buttons().take(
                        i as int,
                    ).contains(b) || b == all_buttons()[i as int]);
                }
            }
            i = i + 1;
        }
        proof {
            lemma_all_buttons_complete();
            assert(all_buttons().take(8) =~= all_buttons());
            let goal = self.bindings@.union_prefer_right(top);
            assert forall|b: ButtonId| #[trigger] lookup(bindings@, b) == lookup(goal, b) by {
                assert(all_buttons()[b.rank()] == b);
            }
            assert forall|b: ButtonId| #[trigger] bindings@.contains_key(b) <==> goal.contains_key(
                b,
            ) by {
                assert(lookup(bindings@, b) == lookup(goal, b));
            }
            assert forall|b: ButtonId| #[trigger] bindings@.contains_key(b) implies bindings@[b]
                == goal[b] by {
                assert(lookup(bindings@, b) == lookup(goal, b));
            }
            assert(bindings@ =~= goal);
        }
        bindings
    }

    /// The live gesture buttons.
    #[must_use]
    pub fn gesture_buttons(&self) -> (live: GestureButtons)
        ensures
            live@ == self@.live,
    {
        self.gesture_buttons
    }

    /// The button that counts as the gesture owner.
    #[must_use]
    pub fn gesture_owner(&self) -> (owner: Option<ButtonId>)
        ensures
            owner == owner_of(self@.live),
    {
        if self.gesture_buttons.contains(ButtonId::GestureButton) {
            return Some(ButtonId::GestureButton);
        }
        let ids = self.gesture_buttons.iter();
        if ids.len() > 0 {
            Some(ids[0])
        } else {
            None
        }
    }

    /// The stored direction map of the dedicated gesture button; empty when a
    /// single action or nothing is bound to it.
    #[must_use]
    pub fn gesture_bindings(&self) -> (map: DirectionMap)
        ensures
            match lookup(self@.bindings, ButtonId::GestureButton) {
                Some(Binding::Gesture(stored)) => map == stored,
                _ => map@ == Map::<GestureDirection, Action>::empty(),
            },
    {
        match self.bindings.get(ButtonId::GestureButton) {
            Some(Binding::Gesture(map)) => map,
            _ => DirectionMap::new(),
        }
    }

    /// The resolved state of `button`.
    #[must_use]
    pub fn resolve_gesture_button(&self, button: ButtonId) -> (state: GestureButtonState)
        ensures
            state == resolved(self@.live.contains(button), lookup(self@.bindings, button)),
    {
        resolve_gesture_button(&self.gesture_buttons, &self.bindings, button)
    }

    /// Store `binding`; a direction map on an eligible button makes it live.
    pub fn set_binding(&mut self, button: ButtonId, binding: Binding)
        ensures
            final(self)@ == old(self)@.bound(button, binding),
    {
        self.bindings.insert(button, binding);
        if binding.is_gesture() {
            self.gesture_buttons = self.gesture_buttons.insert(button);
        }
    }

    /// Make `button` gesture beside the live ones. An ineligible button is
    /// ignored.
    pub fn enable_gesture_button(&mut self, button: ButtonId)
        ensures
            final(self)@ == old(self)@.enabled(button),
    {
        if is_gesture_eligible(button) {
            ensure_gesture_map_for_enable(&mut self.bindings, button);
            self.gesture_buttons = self.gesture_buttons.insert(button);
        }
    }

    /// Demote `button`; its binding is preserved.
    pub fn disable_gesture_button(&mut self, button: ButtonId)
        ensures
            final(self)@ == old(self)@.disabled(button),
    {
        self.gesture_buttons = self.gesture_buttons.remove(button);
    }

    /// Hand the gesture role to `button` alone. An ineligible button turns
    /// gestures off.
    pub fn set_gesture_owner(&mut self, button: ButtonId)
        ensures
            final(self)@ == old(self)@.owned_by(button),
    {
        self.gesture_buttons = GestureButtons::off();
        self.enable_gesture_button(button);
    }

    /// Store the map of `preset` for `button`.
    pub fn set_gesture_preset(&mut self, button: ButtonId, preset: GesturePreset)
        ensures
            final(self)@ == old(self)@.with_preset(button, preset),
    {
        self.bindings.insert(button, Binding::Gesture(preset_map(preset)));
    }

    /// Set or clear what `button` does while `app` is in front.
    pub fn set_per_app_binding(&mut self, app: &str, button: ButtonId, action: Option<Action>)
        ensures
            final(self)@ == old(self)@.overridden(app@, button, action),
    {
        let mut overrides = match self.per_app.get(app) {
            Some(overrides) => *overrides,
            None => ButtonMap::new(),
        };
        assert(overrides@ =~= app_overrides(self@, Some(app@)));
        match action {
            Some(action) => overrides.insert(button, action),
            None => overrides.remove(button),
        }
        self.per_app.insert(app, overrides);
        assert(self@.per_app =~= old(self)@.overridden(app@, button, action).per_app);
    }
}

/// The settings of every configured device.
#[derive(Debug)]
pub struct Config {
    devices: TextMap<DeviceConfig>,
}

impl View for Config {
    type V = Map<Seq<char>, DeviceView>;

    closed spec fn view(&self) -> Map<Seq<char>, DeviceView> {
        self.devices@.map_values(|d: DeviceConfig| d@)
    }
}

/// The settings a device reads as: its own, or those of a fresh one.
pub open spec fn device_at(config: Map<Seq<char>, DeviceView>, key: Seq<char>) -> DeviceView {
    if config.contains_key(key) {
        config[key]
    } else {
        fresh_device()
    }
}

impl Default for Config {
    fn default() -> (config: Config)
        ensures
            config@ == Map::<Seq<char>, DeviceView>::empty(),
    {
        let config = Config { devices: TextMap::new() };
        assert(config@ =~= Map::<Seq<char>, DeviceView>::empty());
        config
    }
}

impl Config {
    fn take_device(&mut self, key: &str) -> (device: DeviceConfig)
        ensures
            device@ == device_at(old(self)@, key@),
            final(self)@ == old(self)@.remove(key@),
    {
        let taken = self.devices.remove(key);
        assert(self@ =~= old(self)@.remove(key@));
        match taken {
            Some(device) => device,
            None => DeviceConfig::fresh(),
        }
    }

    fn put_device(&mut self, key: &str, device: DeviceConfig)
        ensures
            final(self)@ == old(self)@.insert(key@, device@),
    {
        self.devices.insert(key, device);
        assert(self@ =~= old(self)@.insert(key@, device@));
    }

    /// Load a stored table of a device and keep it as migration leaves it. A
    /// rejected table changes nothing.
    pub fn load_device(
        &mut self,
        key: &str,
        schema_version: u32,
        fields: &[String],
        field: &GestureButtonsField,
        owner: Option<GestureOwner>,
        bindings: ButtonMap<Binding>,
    ) -> (res: Result<(), LoadError>)
        ensures
            match res {
                Err(LoadError::ExperimentalMarker) => {
                    &&& rejected(schema_version, texts(fields@))
                    &&& final(self)@ == old(self)@
                },
                Ok(_) => {
                    &&& !rejected(schema_version, texts(fields@))
                    &&& final(self)@ == old(self)@.insert(
                        key@,
                        migrated_device(present_set(*field), owner, bindings@),
                    )
                },
            },
    {
        match DeviceConfig::load(schema_version, fields, field, owner, bindings) {
            Ok(device) => {
                self.put_device(key, device);
                Ok(())
            },
            Err(error) => Err(error),
        }
    }

    /// What is bound to each button of a device, with the overrides of
    /// `app_bundle` on top.
    #[must_use]
    pub fn effective_bindings(&self, key: &str, app_bundle: Option<&str>) -> (bindings: ButtonMap<
        Binding,
    >)
        ensures
            bindings@ == effective(device_at(self@, key@), text_of(app_bundle)),
    {
        match self.devices.get(key) {
            Some(device) => device.effective_bindings(app_bundle),
            None => DeviceConfig::fresh().effective_bindings(app_bundle),
        }
    }

    /// The live gesture buttons of a device.
    #[must_use]
    pub fn gesture_buttons(&self, key: &str) -> (live: GestureButtons)
        ensures
            live@ == device_at(self@, key@).live,
    {
        match self.devices.get(key) {
            Some(device) => device.gesture_buttons(),
            None => DeviceConfig::fresh().gesture_buttons(),
        }
    }

    /// The button that counts as a device's gesture owner.
    #[must_use]
    pub fn gesture_owner(&self, key: &str) -> (owner: Option<ButtonId>)
        ensures
            owner == owner_of(device_at(self@, key@).live),
    {
        match self.devices.get(key) {
            Some(device) => device.gesture_owner(),
            None => DeviceConfig::fresh().gesture_owner(),
        }
    }

    /// The stored direction map of a device's dedicated gesture button; empty
    /// when a single action or nothing is bound to it.
    #[must_use]
    pub fn gesture_bindings_for(&self, key: &str) -> (map: DirectionMap)
        ensures
            match lookup(device_at(self@, key@).bindings, ButtonId::GestureButton) {
                Some(Binding::Gesture(stored)) => map == stored,
                _ => map@ == Map::<GestureDirection, Action>::empty(),
            },
    {
        match self.devices.get(key) {
            Some(device) => device.gesture_bindings(),
            None => DeviceConfig::fresh().gesture_bindings(),
        }
    }

    /// The resolved state of one button of a device.
    #[must_use]
    pub fn resolve_gesture_button(&self, key: &str, button: ButtonId) -> (state: GestureButtonState)
        ensures
            state == resolved(
                device_at(self@, key@).live.contains(button),
                lookup(device_at(self@, key@).bindings, button),
            ),
    {
        match self.devices.get(key) {
            Some(device) => device.resolve_gesture_button(button),
            None => DeviceConfig::fresh().resolve_gesture_button(button),
        }
    }

    /// Store `binding` on a device.
    pub fn set_binding(&mut self, key: &str, button: ButtonId, binding: Binding)
        ensures
            final(self)@ == old(self)@.insert(
                key@,
                device_at(old(self)@, key@).bound(button, binding),
            ),
    {
        let mut device = self.take_device(key);
        device.set_binding(button, binding);
        self.put_device(key, device);
        assert(self@ =~= old(self)@.insert(key@, device@));
    }

    /// Make a button of a device gesture beside the live ones.
    pub fn enable_gesture_button(&mut self, key: &str, button: ButtonId)
        ensures
            final(self)@ == old(self)@.insert(key@, device_at(old(self)@, key@).enabled(button)),
    {
        let mut device = self.take_device(key);
        device.enable_gesture_button(button);
        self.put_device(key, device);
        assert(self@ =~= old(self)@.insert(key@, device@));
    }

    /// Demote a button of a device; its binding is preserved.
    pub fn disable_gesture_button(&mut self, key: &str, button: ButtonId)
        ensures
            final(self)@ == old(self)@.insert(key@, device_at(old(self)@, key@).disabled(button)),
    {
        let mut device = self.take_device(key);
        device.disable_gesture_button(button);
        self.put_device(key, device);
        assert(self@ =~= old(self)@.insert(key@, device@));
    }

    /// Hand a device's gesture role to `button` alone.
    pub fn set_gesture_owner(&mut self, key: &str, button: ButtonId)
        ensures
            final(self)@ == old(self)@.insert(key@, device_at(old(self)@, key@).owned_by(button)),
    {
        let mut device = self.take_device(key);
        device.set_gesture_owner(button);
        self.put_device(key, device);
        assert(self@ =~= old(self)@.insert(key@, device@));
    }

    /// Store the map of `preset` for a button of a device.
    pub fn set_gesture_preset(&mut self, key: &str, button: ButtonId, preset: GesturePreset)
        ensures
            final(self)@ == old(self)@.insert(
                key@,
                device_at(old(self)@, key@).with_preset(button, preset),
            ),
    {
        let mut device = self.take_device(key);
        device.set_gesture_preset(button, preset);
        self.put_device(key, device);
        assert(self@ =~= old(self)@.insert(key@, device@));
    }

    /// Set or clear what a button of a device does while `app` is in front.
    pub fn set_per_app_binding(
        &mut self,
        key: &str,
        app: &str,
        button: ButtonId,
        action: Option<Action>,
    )
        ensures
            final(self)@ == old(self)@.insert(
                key@,
                device_at(old(self)@, key@).overridden(app@, button, action),
            ),
    {
        let mut device = self.take_device(key);
        device.set_per_app_binding(app, button, action);
        self.put_device(key, device);
        assert(self@ =~= old(self)@.insert(key@, device@));
    }
}

/// A fresh device has exactly the dedicated gesture button live, bound to the
/// default five-pack, and nothing else stored.
pub proof fn law_fresh_device()
    ensures
        fresh_device().live == Set::<ButtonId>::empty().insert(ButtonId::GestureButton),
        fresh_device().bindings == Map::<ButtonId, Binding>::empty().insert(
            ButtonId::GestureButton,
            default_binding_for_spec(ButtonId::GestureButton),
        ),
{
    let none = Map::<ButtonId, Binding>::empty();
    lemma_ordered(other_maps(none));
    assert(other_maps(none) =~= Set::<ButtonId>::empty());
    assert(fresh_device().live =~= Set::<ButtonId>::empty().insert(ButtonId::GestureButton));
}

/// The overlay of an app works button by button: where the app has an override
/// for a button, that single action is in effect, and where it has none, the
/// stored binding of the button is, whatever the app overrides elsewhere.
/// Without an app nothing is overridden.
pub proof fn law_overlay_is_per_button(device: DeviceView, app: Seq<char>, button: ButtonId)
    ensures
        ({
            let covered = device.per_app.contains_key(app) && device.per_app[app].contains_key(
                button,
            );
            &&& covered ==> lookup(effective(device, Some(app)), button) == Some(
                Binding::Single(device.per_app[app][button]),
            )
            &&& !covered ==> lookup(effective(device, Some(app)), button) == lookup(
                device.bindings,
                button,
            )
            &&& lookup(effective(device, None), button) == lookup(device.bindings, button)
        }),
{
}

/// Setting or clearing an override touches one button of one app: every other
/// button and every other app keeps what it had, and so do the stored bindings
/// and the live set.
pub proof fn law_override_touches_one_button(
    device: DeviceView,
    app: Seq<char>,
    button: ButtonId,
    action: Option<Action>,
    other_app: Seq<char>,
    other: ButtonId,
)
    ensures
        ({
            let after = device.overridden(app, button, action);
            &&& lookup(app_overrides(after, Some(app)), button) == action
            &&& other != button || other_app != app ==> lookup(
                app_overrides(after, Some(other_app)),
                other,
            ) == lookup(app_overrides(device, Some(other_app)), other)
            &&& after.bindings == device.bindings
            &&& after.live == device.live
        }),
{
}

/// Storing a binding replaces that of one button and of no other. A direction
/// map makes a button live that may gesture, and nothing else changes who is
/// live.
pub proof fn law_binding_touches_one_button(
    device: DeviceView,
    button: ButtonId,
    binding: Binding,
    other: ButtonId,
)
    ensures
        ({
            let after = device.bound(button, binding);
            &&& lookup(after.bindings, button) == Some(binding)
            &&& other != button ==> lookup(after.bindings, other) == lookup(device.bindings, other)
            &&& after.live.contains(other) <==> device.live.contains(other) || (other == button
                && binding is Gesture && eligible(button))
            &&& after.per_app == device.per_app
        }),
{
}

/// Enabling makes one button live that may gesture, with a direction map, and
/// leaves all other buttons alone; a button that may not gesture is left alone
/// itself.
pub proof fn law_enable_touches_one_button(
    device: DeviceView,
    button: ButtonId,
    other: ButtonId,
)
    ensures
        ({
            let after = device.enabled(button);
            &&& after.live.contains(other) <==> device.live.contains(other) || (other == button
                && eligible(button))
            &&& eligible(button) ==> (lookup(after.bindings, button) matches Some(binding)
                && binding is Gesture)
            &&& other != button || !eligible(button) ==> lookup(after.bindings, other) == lookup(
                device.bindings,
                other,
            )
            &&& lookup(device.bindings, other) matches Some(Binding::Gesture(map)) ==> lookup(
                after.bindings,
                other,
            ) == Some(Binding::Gesture(map))
            &&& after.per_app == device.per_app
        }),
{
}

/// Demoting takes one button out of the live set and changes nothing else.
pub proof fn law_disable_touches_one_button(device: DeviceView, button: ButtonId, other: ButtonId)
    ensures
        device.disabled(button).live.contains(other) <==> device.live.contains(other) && other
            != button,
        device.disabled(button).bindings == device.bindings,
        device.disabled(button).per_app == device.per_app,
{
}

/// Handing the gesture role over makes that button the only live one and the
/// owner, if it may gesture, and nobody if it may not. What other buttons store
/// is kept, and so is a direction map of its own.
pub proof fn law_owner_is_the_only_live_button(
    device: DeviceView,
    button: ButtonId,
    other: ButtonId,
)
    ensures
        ({
            let after = device.owned_by(button);
            &&& after.live.contains(other) <==> other == button && eligible(button)
            &&& owner_of(after.live) == if eligible(button) {
                Some(button)
            } else {
                None
            }
            &&& other != button ==> lookup(after.bindings, other) == lookup(device.bindings, other)
            &&& lookup(device.bindings, button) matches Some(Binding::Gesture(map)) ==> lookup(
                after.bindings,
                button,
            ) == Some(Binding::Gesture(map))
            &&& eligible(button) ==> (lookup(after.bindings, button) matches Some(binding)
                && binding is Gesture)
            &&& after.per_app == device.per_app
        }),
{
    let live = device.owned_by(button).live;
    lemma_ordered(live);
    if ordered(live).len() > 0 {
        assert(ordered(live).contains(ordered(live)[0]));
    }
    if eligible(button) {
        assert(live.contains(button));
        assert(ordered(live).contains(button));
    }
}

/// The owner is a live button, there is one just when some button is live, and
/// a live dedicated gesture button always is the owner.
pub proof fn law_owner_is_live(live: Set<ButtonId>)
    ensures
        owner_of(live) matches Some(owner) ==> live.contains(owner),
        owner_of(live) is None ==> forall|id: ButtonId| !#[trigger] live.contains(id),
        live.contains(ButtonId::GestureButton) <==> owner_of(live) == Some(
            ButtonId::GestureButton,
        ),
        !live.contains(ButtonId::GestureButton) ==> (owner_of(live) matches Some(owner)
            ==> forall|id: ButtonId|
            live.contains(id) ==> owner.rank() <= #[trigger] id.rank()),
{
    let list = ordered(live);
    lemma_ordered(live);
    if list.len() > 0 {
        assert(list.contains(list[0]));
        assert forall|id: ButtonId| live.contains(id) implies list[0].rank()
            <= #[trigger] id.rank() by {
            assert(list.contains(id));
            let k = choose|k: int| 0 <= k < list.len() && list[k] == id;
            if k > 0 {
                assert(list[0].rank() < list[k].rank());
            }
        }
    } else {
        assert forall|id: ButtonId| !#[trigger] live.contains(id) by {
            if live.contains(id) {
                assert(list.contains(id));
            }
        }
    }
}

/// Storing a preset replaces the binding of one button by the map of the preset
/// and leaves who is live, and all else, alone. The desktop preset is the
/// default of each direction.
pub proof fn law_preset_touches_one_binding(
    device: DeviceView,
    button: ButtonId,
    preset: GesturePreset,
    other: ButtonId,
    direction: GestureDirection,
)
    ensures
        ({
            let after = device.with_preset(button, preset);
            &&& lookup(after.bindings, button) == Some(Binding::Gesture(preset_spec(preset)))
            &&& other != button ==> lookup(after.bindings, other) == lookup(device.bindings, other)
            &&& after.live == device.live
            &&& after.per_app == device.per_app
            &&& preset_spec(preset)@.contains_key(direction)
            &&& preset == GesturePreset::Desktop ==> preset_spec(preset)@[direction]
                == default_gesture_binding_spec(direction)
        }),
{
}

/// A table is rejected just when its schema is current and one of its fields
/// has a reserved name: adding a field never makes a rejected table accepted,
/// and older schemas reject nothing.
pub proof fn law_reserved_fields_are_rejected(
    schema_version: u32,
    fields: Seq<Seq<char>>,
    field: Seq<char>,
)
    ensures
        schema_version < 4 ==> !rejected(schema_version, fields),
        schema_version >= 4 ==> (rejected(schema_version, fields.push(field)) <==> rejected(
            schema_version,
            fields,
        ) || field == "gesture_owners"@ || field == "gesture_sources"@ || field
            == "gesture_buttons_v2"@ || field == "multi_gesture"@ || field
            == "extra_gesture_buttons"@),
        !rejected(schema_version, Seq::empty()),
{
    let all = experimental_markers();
    assert(all[0] == "gesture_owners"@);
    assert(all[1] == "gesture_sources"@);
    assert(all[2] == "gesture_buttons_v2"@);
    assert(all[3] == "multi_gesture"@);
    assert(all[4] == "extra_gesture_buttons"@);
    let longer = fields.push(field);
    assert(longer[fields.len() as int] == field);
    if rejected(schema_version, fields) {
        let i = choose|i: int| 0 <= i < fields.len() && all.contains(#[trigger] fields[i]);
        assert(longer[i] == fields[i]);
    }
    if rejected(schema_version, longer) {
        let i = choose|i: int| 0 <= i < longer.len() && all.contains(#[trigger] longer[i]);
        if i < fields.len() {
            assert(longer[i] == fields[i]);
        }
    }
}

/// A loaded device has what migration makes of its table, and no overrides.
pub proof fn law_loaded_device(
    present: Option<Set<ButtonId>>,
    owner: Option<GestureOwner>,
    bindings: Map<ButtonId, Binding>,
    app: Seq<char>,
    button: ButtonId,
)
    ensures
        migrated_device(present, owner, bindings).live == migrated_live(present, owner, bindings),
        lookup(effective(migrated_device(present, owner, bindings), Some(app)), button) == lookup(
            migrated_bindings(present, owner, bindings),
            button,
        ),
{
}

/// What is stored for one device is read back for it and for no other one; a
/// device of which nothing is stored is a fresh one.
pub proof fn law_devices_are_separate(
    config: Map<Seq<char>, DeviceView>,
    key: Seq<char>,
    other: Seq<char>,
    device: DeviceView,
)
    ensures
        device_at(config.insert(key, device), key) == device,
        other != key ==> device_at(config.insert(key, device), other) == device_at(config, other),
        !config.contains_key(key) ==> device_at(config, key) == fresh_device(),
{
}

} // verus!
