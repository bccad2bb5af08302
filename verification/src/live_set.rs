//! Which buttons gesture: migration of stored tables into a live set, first
//! enable of a button, and the canonical per-button resolver.

use vstd::prelude::*;

use crate::binding::{
    all_buttons, all_directions, default_binding_for, default_binding_for_spec,
    default_gesture_binding_spec, lemma_all_buttons_complete, lemma_all_directions_complete,
    main_default_spec, Action, Binding, ButtonId, GestureDirection,
};
use crate::gesture_buttons::{
    eligible, is_gesture_eligible, GestureButtons, GestureButtonsField,
};
use crate::maps::{
    lemma_ordered, lemma_take_contains, lookup, ordered, ButtonMap, DirectionMap,
};

verus! {

/// The stored choice of a sole gesture button.
#[derive(Clone, Copy, Debug, PartialEq, Eq, Structural)]
pub enum GestureOwner {
    /// No button gestures.
    Off,
    /// This button gestures.
    Button(ButtonId),
}

/// Whether `bindings` store a direction map for `id`.
pub open spec fn stores_map(bindings: Map<ButtonId, Binding>, id: ButtonId) -> bool {
    bindings.contains_key(id) && bindings[id] is Gesture
}

/// The buttons other than the dedicated gesture button that store a direction
/// map.
pub open spec fn other_maps(bindings: Map<ButtonId, Binding>) -> Set<ButtonId> {
    Set::new(|b: ButtonId| b != ButtonId::GestureButton && stores_map(bindings, b))
}

/// The sole owner that stored bindings imply: the first other button with a
/// direction map in declaration order; failing that the dedicated gesture
/// button, unless a single action is bound to it.
pub open spec fn inferred_owner(bindings: Map<ButtonId, Binding>) -> Option<ButtonId> {
    if ordered(other_maps(bindings)).len() > 0 {
        Some(ordered(other_maps(bindings))[0])
    } else if bindings.contains_key(ButtonId::GestureButton)
        && bindings[ButtonId::GestureButton] is Single {
        None
    } else {
        Some(ButtonId::GestureButton)
    }
}

/// The buttons whose presses reach the operating-system hook.
pub open spec fn os_hook(id: ButtonId) -> bool {
    id == ButtonId::MiddleClick || id == ButtonId::Back || id == ButtonId::Forward
}

/// `base` together with the hook buttons that store a direction map.
pub open spec fn with_hook_maps(base: Set<ButtonId>, bindings: Map<ButtonId, Binding>) -> Set<
    ButtonId,
> {
    base.union(Set::new(|b: ButtonId| os_hook(b) && stores_map(bindings, b)))
}

/// The ids of `base` that stay live: those with a direction map, and a vacant
/// dedicated gesture button.
pub open spec fn normalized_live(base: Set<ButtonId>, bindings: Map<ButtonId, Binding>) -> Set<
    ButtonId,
> {
    Set::new(
        |b: ButtonId|
            base.contains(b) && (stores_map(bindings, b) || (b == ButtonId::GestureButton
                && !bindings.contains_key(b))),
    )
}

/// The bindings after normalization: a vacant dedicated gesture button of
/// `base` gets the default five-pack, everything else stays.
pub open spec fn normalized_bindings(base: Set<ButtonId>, bindings: Map<ButtonId, Binding>) -> Map<
    ButtonId,
    Binding,
> {
    if base.contains(ButtonId::GestureButton) && !bindings.contains_key(ButtonId::GestureButton) {
        bindings.insert(
            ButtonId::GestureButton,
            default_binding_for_spec(ButtonId::GestureButton),
        )
    } else {
        bindings
    }
}

/// The eligible part of a single id.
pub open spec fn eligible_one(id: ButtonId) -> Set<ButtonId> {
    if eligible(id) {
        Set::empty().insert(id)
    } else {
        Set::empty()
    }
}

/// The candidates for the live set before normalization.
pub open spec fn candidates(
    present: Option<Set<ButtonId>>,
    owner: Option<GestureOwner>,
    bindings: Map<ButtonId, Binding>,
) -> Set<ButtonId> {
    match (present, owner) {
        // The stored set is trusted as it is.
        (Some(live), _) => live,
        (None, Some(GestureOwner::Off)) => Set::empty(),
        // The stored owner, joined by hook maps; the DPI button joins only a
        // dedicated gesture button.
        (None, Some(GestureOwner::Button(id))) => if !eligible(id) {
            Set::empty()
        } else if id == ButtonId::GestureButton && stores_map(bindings, ButtonId::DpiToggle) {
            with_hook_maps(eligible_one(id), bindings).insert(ButtonId::DpiToggle)
        } else {
            with_hook_maps(eligible_one(id), bindings)
        },
        // Nothing stored: the inferred owner, joined by hook maps.
        (None, None) => with_hook_maps(
            match inferred_owner(bindings) {
                None => Set::empty(),
                Some(id) => eligible_one(id),
            },
            bindings,
        ),
    }
}

/// What a presence field says of the live set.
pub open spec fn present_set(field: GestureButtonsField) -> Option<Set<ButtonId>> {
    match field {
        GestureButtonsField::Absent => None,
        GestureButtonsField::Present(live) => Some(live@),
    }
}

/// The live set that migration arrives at.
pub open spec fn migrated_live(
    present: Option<Set<ButtonId>>,
    owner: Option<GestureOwner>,
    bindings: Map<ButtonId, Binding>,
) -> Set<ButtonId> {
    normalized_live(candidates(present, owner, bindings), bindings)
}

/// The bindings that migration leaves behind.
pub open spec fn migrated_bindings(
    present: Option<Set<ButtonId>>,
    owner: Option<GestureOwner>,
    bindings: Map<ButtonId, Binding>,
) -> Map<ButtonId, Binding> {
    normalized_bindings(candidates(present, owner, bindings), bindings)
}

/// The binding a button has once it is enabled for gestures.
pub open spec fn enabled_binding(current: Option<Binding>, button: ButtonId) -> Binding {
    match current {
        Some(Binding::Gesture(map)) => Binding::Gesture(map),
        Some(Binding::Single(action)) => Binding::Gesture(
            DirectionMap::of(
                |d: GestureDirection|
                    Some(
                        if d == GestureDirection::Click {
                            action
                        } else {
                            Action::Nothing
                        },
                    ),
            ),
        ),
        None => if button == ButtonId::GestureButton {
            default_binding_for_spec(ButtonId::GestureButton)
        } else {
            Binding::Gesture(DirectionMap::of(|d: GestureDirection| Some(Action::Nothing)))
        },
    }
}

/// Resolved state of one button for dispatch and display.
#[derive(Clone, Copy, Debug, PartialEq, Eq, Structural)]
pub enum GestureButtonState {
    /// Not in the live set; may still store a preserved direction map.
    NotLive {
        /// The preserved map when the binding is still a gesture.
        preserved: Option<DirectionMap>,
    },
    /// In the live set but bound to a single action, or to nothing.
    LiveButSingle {
        /// The single action ([`Action::Nothing`] when absent).
        action: Action,
    },
    /// In the live set with a (possibly sparse) direction map.
    LiveMap {
        /// Stored direction map; missing keys are no-ops.
        map: DirectionMap,
    },
}

/// The state of a button, given whether it is live and what is bound to it.
pub open spec fn resolved(live: bool, binding: Option<Binding>) -> GestureButtonState {
    match (live, binding) {
        (true, Some(Binding::Gesture(map))) => GestureButtonState::LiveMap { map },
        (true, Some(Binding::Single(action))) => GestureButtonState::LiveButSingle { action },
        (true, None) => GestureButtonState::LiveButSingle { action: Action::Nothing },
        (false, Some(Binding::Gesture(map))) => GestureButtonState::NotLive {
            preserved: Some(map),
        },
        (false, _) => GestureButtonState::NotLive { preserved: None },
    }
}

/// The state of button `id` on a device with this live set and these bindings.
#[must_use]
pub fn resolve_gesture_button(
    live: &GestureButtons,
    bindings: &ButtonMap<Binding>,
    id: ButtonId,
) -> (state: GestureButtonState)
    ensures
        state == resolved(live@.contains(id), lookup(bindings@, id)),
{
    if live.contains(id) {
        match bindings.get(id) {
            Some(Binding::Gesture(map)) => GestureButtonState::LiveMap { map },
            Some(Binding::Single(action)) => GestureButtonState::LiveButSingle { action },
            None => GestureButtonState::LiveButSingle { action: Action::Nothing },
        }
    } else {
        match bindings.get(id) {
            Some(Binding::Gesture(map)) => GestureButtonState::NotLive { preserved: Some(map) },
            _ => GestureButtonState::NotLive { preserved: None },
        }
    }
}

/// Whether `bindings` store a direction map for `id`.
#[must_use]
pub fn is_gesture_map(bindings: &ButtonMap<Binding>, id: ButtonId) -> (res: bool)
    ensures
        res == stores_map(bindings@, id),
{
    match bindings.get(id) {
        Some(binding) => binding.is_gesture(),
        None => false,
    }
}

/// The sole owner that stored bindings imply: the first button other than the
/// dedicated gesture button with a direction map, in declaration order; then
/// nobody when the dedicated gesture button is bound to a single action; then
/// the dedicated gesture button.
#[must_use]
pub fn master_infer_owner(bindings: &ButtonMap<Binding>) -> (owner: Option<ButtonId>)
    ensures
        owner == inferred_owner(bindings@),
{
    let ghost others = other_maps(bindings@);
    proof {
        lemma_ordered(others);
        lemma_all_buttons_complete();
    }
    let all = ButtonId::all();
    let mut i: usize = 0;
    while i < all.len()
        invariant
            i <= all@.len(),
            all@ == all_buttons(),
            others == other_maps(bindings@),
            forall|j: int| 0 <= j < i ==> !others.contains(#[trigger] all_buttons()[j]),
        decreases all@.len() - i,
    {
        let id = all[i];
        if id != ButtonId::GestureButton && is_gesture_map(bindings, id) {
            proof {
                lemma_ordered(others);
                lemma_all_buttons_complete();
                lemma_first_is_least(others, id, i as int);
            }
            return Some(id);
        }
        i = i + 1;
    }
    proof {
        if ordered(others).len() > 0 {
            let b = ordered(others)[0];
            assert(ordered(others).contains(b));
            assert(all_buttons()[b.rank()] == b);
        }
    }
    if let Some(Binding::Single(_)) = bindings.get(ButtonId::GestureButton) {
        return None;
    }
    Some(ButtonId::GestureButton)
}

/// The only element of a set at or below a rank heads its ordered list.
proof fn lemma_first_is_least(s: Set<ButtonId>, id: ButtonId, i: int)
    requires
        0 <= i < 8,
        all_buttons()[i] == id,
        s.contains(id),
        forall|j: int| 0 <= j < i ==> !s.contains(#[trigger] all_buttons()[j]),
    ensures
        ordered(s).len() > 0,
        ordered(s)[0] == id,
{
    lemma_ordered(s);
    lemma_all_buttons_complete();
    assert(ordered(s).contains(id));
    let k = choose|k: int| 0 <= k < ordered(s).len() && ordered(s)[k] == id;
    let head = ordered(s)[0];
    assert(ordered(s).contains(head));
    assert(all_buttons()[head.rank()] == head);
    if k > 0 {
        assert(head.rank() < id.rank());
        assert(id.rank() == i);
    }
}

/// Add every hook button that stores a direction map.
fn multi_union_oshook(base: GestureButtons, bindings: &ButtonMap<Binding>) -> (res: GestureButtons)
    ensures
        res@ == with_hook_maps(base@, bindings@),
{
    let mut out = base;
    let hooks = [ButtonId::MiddleClick, ButtonId::Back, ButtonId::Forward];
    let mut i: usize = 0;
    assert(out@ =~= base@.union(
        Set::new(|b: ButtonId| hooks@.take(0).contains(b) && stores_map(bindings@, b)),
    ));
    while i < hooks.len()
        invariant
            i <= hooks@.len(),
            hooks@ == seq![ButtonId::MiddleClick, ButtonId::Back, ButtonId::Forward],
            out@ == base@.union(
                Set::new(
                    |b: ButtonId| hooks@.take(i as int).contains(b) && stores_map(bindings@, b),
                ),
            ),
        decreases hooks@.len() - i,
    {
        proof {
            lemma_take_contains(hooks@, i as int);
        }
        if is_gesture_map(bindings, hooks[i]) {
            out = out.insert(hooks[i]);
        }
        assert(out@ =~= base@.union(
            Set::new(|b: ButtonId| hooks@.take(i + 1).contains(b) && stores_map(bindings@, b)),
        ));
        i = i + 1;
    }
    proof {
        assert(hooks@.take(3) =~= hooks@);
        assert(hooks@[0] == ButtonId::MiddleClick);
        assert(hooks@[1] == ButtonId::Back);
        assert(hooks@[2] == ButtonId::Forward);
        assert forall|b: ButtonId| #[trigger] hooks@.contains(b) <==> os_hook(b) by {}
        assert(out@ =~= with_hook_maps(base@, bindings@));
    }
    out
}

/// Load normalize: drop live ids whose binding is a single action or absent,
/// except a vacant dedicated gesture button, which gets the default five-pack.
/// A single action stays in storage; no other vacant id gets a map.
pub fn normalize_live_set(base: &GestureButtons, bindings: &mut ButtonMap<Binding>) -> (live:
    GestureButtons)
    ensures
        live@ == normalized_live(base@, old(bindings)@),
        final(bindings)@ == normalized_bindings(base@, old(bindings)@),
{
    let ghost before = bindings@;
    let mut out = GestureButtons::off();
    let ids = base.iter();
    let mut i: usize = 0;
    proof {
        lemma_ordered(base@);
        assert(ids@.take(0).to_set() =~= Set::<ButtonId>::empty());
        assert(out@ =~= normalized_live(ids@.take(0).to_set(), before));
    }
    while i < ids.len()
        invariant
            i <= ids@.len(),
            ids@ == ordered(base@),
            forall|k: int| 0 <= k < ids@.len() ==> eligible(#[trigger] ids@[k]),
            forall|k: int, j: int|
                0 <= k < j < ids@.len() ==> (#[trigger] ids@[k]).rank() < (#[trigger] ids@[j]).rank(),
            out@ == normalized_live(ids@.take(i as int).to_set(), before),
            bindings@ == normalized_bindings(ids@.take(i as int).to_set(), before),
        decreases ids@.len() - i,
    {
        let id = ids[i];
        proof {
            lemma_take_contains(ids@, i as int);
            assert forall|b: ButtonId| #[trigger] ids@.take(i + 1).to_set().contains(b)
                <==> ids@.take(i as int).to_set().contains(b) || b == id by {
                assert(ids@.take(i + 1).contains(b) <==> ids@.take(i as int).contains(b) || b
                    == id);
            }
            assert(!ids@.take(i as int).to_set().contains(id)) by {
                if ids@.take(i as int).contains(id) {
                    let prefix = ids@.take(i as int);
                    let k = choose|k: int| 0 <= k < prefix.len() && prefix[k] == id;
                    assert(ids@[k].rank() < ids@[i as int].rank());
                }
            }
        }
        match bindings.get(id) {
            Some(Binding::Gesture(_)) => {
                out = out.insert(id);
            },
            None => {
                if id == ButtonId::GestureButton {
                    bindings.insert(
                        ButtonId::GestureButton,
                        default_binding_for(ButtonId::GestureButton),
                    );
                    out = out.insert(id);
                }
            },
            Some(Binding::Single(_)) => {},
        }
        proof {
            assert(out@ =~= normalized_live(ids@.take(i + 1).to_set(), before));
            assert(bindings@ =~= normalized_bindings(ids@.take(i + 1).to_set(), before));
        }
        i = i + 1;
    }
    proof {
        assert(ids@.take(i as int) =~= ids@);
        lemma_ordered(base@);
    }
    out
}

/// Migrate a stored table to a live set: trust an explicit set, else fold the
/// stored owner, else infer from the bindings; then normalize.
pub fn migrate_live_set(
    source: &GestureButtonsField,
    gesture_owner: Option<GestureOwner>,
    bindings: &mut ButtonMap<Binding>,
) -> (live: GestureButtons)
    ensures
        live@ == migrated_live(present_set(*source), gesture_owner, old(bindings)@),
        final(bindings)@ == migrated_bindings(present_set(*source), gesture_owner, old(bindings)@),
{
    proof {
        let none = Set::<ButtonId>::empty();
        assert(normalized_live(none, bindings@) =~= none);
        assert(normalized_bindings(none, bindings@) == bindings@);
    }
    match source {
        GestureButtonsField::Present(present) => {
            // An explicit set is trusted: nothing is promoted into it.
            normalize_live_set(present, bindings)
        },
        GestureButtonsField::Absent => match gesture_owner {
            Some(GestureOwner::Off) => GestureButtons::off(),
            Some(GestureOwner::Button(id)) => {
                if !is_gesture_eligible(id) {
                    return GestureButtons::off();
                }
                let mut base = GestureButtons::off().insert(id);
                base = multi_union_oshook(base, bindings);
                // The DPI button joins only a folded dedicated gesture button.
                if id == ButtonId::GestureButton && is_gesture_map(bindings, ButtonId::DpiToggle) {
                    base = base.insert(ButtonId::DpiToggle);
                }
                normalize_live_set(&base, bindings)
            },
            None => {
                let owner = master_infer_owner(bindings);
                let mut base = match owner {
                    None => GestureButtons::off(),
                    Some(id) => GestureButtons::off().insert(id),
                };
                base = multi_union_oshook(base, bindings);
                // A stored DPI map is itself an owner candidate, so the
                // dedicated gesture button is never inferred beside it.
                normalize_live_set(&base, bindings)
            },
        },
    }
}

/// First-enable map for a vacant or single-action button.
///
/// * Vacant dedicated gesture button: the default five-pack.
/// * Other vacant button: every direction, each doing nothing.
/// * Prior single action: `Click` runs that action, the rest do nothing.
/// * Existing direction map: left unchanged.
pub fn ensure_gesture_map_for_enable(bindings: &mut ButtonMap<Binding>, button: ButtonId)
    ensures
        final(bindings)@ == old(bindings)@.insert(
            button,
            enabled_binding(lookup(old(bindings)@, button), button),
        ),
{
    let ghost before = bindings@;
    match bindings.get(button) {
        Some(Binding::Gesture(_)) => {},
        Some(Binding::Single(action)) => {
            let map = fill_directions(action, Action::Nothing);
            bindings.insert(button, Binding::Gesture(map));
        },
        None => {
            if button == ButtonId::GestureButton {
                bindings.insert(button, default_binding_for(ButtonId::GestureButton));
            } else {
                let map = fill_directions(Action::Nothing, Action::Nothing);
                proof {
                    map.lemma_ext(
                        DirectionMap::of(|d: GestureDirection| Some(Action::Nothing)),
                    );
                }
                bindings.insert(button, Binding::Gesture(map));
            }
        },
    }
    assert(bindings@ =~= before.insert(button, enabled_binding(lookup(before, button), button)));
}

/// The map with `click` under `Click` and `swipe` under every other direction.
fn fill_directions(click: Action, swipe: Action) -> (map: DirectionMap)
    ensures
        map == DirectionMap::of(
            |d: GestureDirection|
                Some(
                    if d == GestureDirection::Click {
                        click
                    } else {
                        swipe
                    },
                ),
        ),
{
    let directions = GestureDirection::all();
    let mut map = DirectionMap::new();
    let mut i: usize = 0;
    while i < directions.len()
        invariant
            i <= directions@.len(),
            directions@ == all_directions(),
            forall|d: GestureDirection| #[trigger]
                map.slot(d) == if all_directions().take(i as int).contains(d) {
                    Some(
                        if d == GestureDirection::Click {
                            click
                        } else {
                            swipe
                        },
                    )
                } else {
                    None
                },
        decreases directions@.len() - i,
    {
        let d = directions[i];
        let action = if d == GestureDirection::Click {
            click
        } else {
            swipe
        };
        map.insert(d, action);
        proof {
            lemma_take_contains(all_directions(), i as int);
        }
        i = i + 1;
    }
    proof {
        lemma_all_directions_complete();
        assert(all_directions().take(5) =~= all_directions());
        map.lemma_ext(
            DirectionMap::of(
                |d: GestureDirection|
                    Some(
                        if d == GestureDirection::Click {
                            click
                        } else {
                            swipe
                        },
                    ),
            ),
        );
    }
    map
}

/// After migration every live id stores a direction map.
pub proof fn law_migrated_ids_store_maps(
    present: Option<Set<ButtonId>>,
    owner: Option<GestureOwner>,
    bindings: Map<ButtonId, Binding>,
)
    ensures
        forall|id: ButtonId| #[trigger]
            migrated_live(present, owner, bindings).contains(id) ==> stores_map(
                migrated_bindings(present, owner, bindings),
                id,
            ),
{
}

/// Migration never overwrites or drops a stored binding; the only binding it
/// may add is that of the dedicated gesture button.
pub proof fn law_migration_keeps_bindings(
    present: Option<Set<ButtonId>>,
    owner: Option<GestureOwner>,
    bindings: Map<ButtonId, Binding>,
    id: ButtonId,
)
    ensures
        bindings.contains_key(id) ==> lookup(migrated_bindings(present, owner, bindings), id)
            == Some(bindings[id]),
        !bindings.contains_key(id) && id != ButtonId::GestureButton ==> !migrated_bindings(
            present,
            owner,
            bindings,
        ).contains_key(id),
{
}

/// Migrating what migration arrived at, as an explicit set, changes nothing:
/// a demotion stays a demotion and nothing is promoted.
pub proof fn law_migration_is_stable(
    present: Option<Set<ButtonId>>,
    owner: Option<GestureOwner>,
    bindings: Map<ButtonId, Binding>,
    later_owner: Option<GestureOwner>,
)
    ensures
        ({
            let live = migrated_live(present, owner, bindings);
            let kept = migrated_bindings(present, owner, bindings);
            &&& migrated_live(Some(live), later_owner, kept) == live
            &&& migrated_bindings(Some(live), later_owner, kept) == kept
        }),
{
    let live = migrated_live(present, owner, bindings);
    let kept = migrated_bindings(present, owner, bindings);
    assert(migrated_live(Some(live), later_owner, kept) =~= live);
}

/// An explicit set is never added to.
pub proof fn law_explicit_set_never_grows(
    live: Set<ButtonId>,
    owner: Option<GestureOwner>,
    bindings: Map<ButtonId, Binding>,
)
    ensures
        migrated_live(Some(live), owner, bindings).subset_of(live),
{
}

/// Every id that migration makes live may gesture.
pub proof fn law_migrated_ids_are_eligible(
    present: Option<Set<ButtonId>>,
    owner: Option<GestureOwner>,
    bindings: Map<ButtonId, Binding>,
)
    requires
        present is Some ==> forall|id: ButtonId| #[trigger]
            present->0.contains(id) ==> eligible(id),
    ensures
        forall|id: ButtonId| #[trigger]
            migrated_live(present, owner, bindings).contains(id) ==> eligible(id),
{
}

/// Inference never makes the dedicated gesture button and the DPI button live
/// together: a stored DPI map is itself an owner candidate.
pub proof fn law_inference_never_pairs_dpi(bindings: Map<ButtonId, Binding>)
    ensures
        !(migrated_live(None, None, bindings).contains(ButtonId::GestureButton) && migrated_live(
            None,
            None,
            bindings,
        ).contains(ButtonId::DpiToggle)),
{
    let others = other_maps(bindings);
    lemma_ordered(others);
    if stores_map(bindings, ButtonId::DpiToggle) {
        assert(others.contains(ButtonId::DpiToggle));
        assert(ordered(others).contains(ButtonId::DpiToggle));
        assert(ordered(others).contains(ordered(others)[0]));
    }
}

/// Folding a stored owner other than the DPI button itself makes the DPI button
/// live exactly when that owner is the dedicated gesture button and the DPI
/// button stores a direction map.
pub proof fn law_folded_owner_pairs_dpi(owner: ButtonId, bindings: Map<ButtonId, Binding>)
    requires
        owner != ButtonId::DpiToggle,
    ensures
        migrated_live(None, Some(GestureOwner::Button(owner)), bindings).contains(
            ButtonId::DpiToggle,
        ) <==> owner == ButtonId::GestureButton && stores_map(bindings, ButtonId::DpiToggle),
{
}

/// Every hook button with a direction map is live after folding an eligible
/// owner and after inference.
pub proof fn law_hook_maps_are_live(
    owner: Option<ButtonId>,
    bindings: Map<ButtonId, Binding>,
    id: ButtonId,
)
    requires
        os_hook(id),
        stores_map(bindings, id),
        owner is Some ==> eligible(owner->0),
    ensures
        migrated_live(
            None,
            match owner {
                None => None,
                Some(button) => Some(GestureOwner::Button(button)),
            },
            bindings,
        ).contains(id),
{
}

/// A first enable always leaves a direction map, and a second one changes
/// nothing.
pub proof fn law_enable_is_idempotent(current: Option<Binding>, button: ButtonId)
    ensures
        enabled_binding(current, button) is Gesture,
        enabled_binding(Some(enabled_binding(current, button)), button) == enabled_binding(
            current,
            button,
        ),
{
}

/// A first enable keeps what a plain press does: the prior single action stays
/// the click action.
pub proof fn law_enable_keeps_the_click(action: Action, button: ButtonId)
    ensures
        enabled_binding(Some(Binding::Single(action)), button).click_action_spec() == action,
{
}

/// A button arms with a map exactly when it is live and stores that map; a
/// demoted button keeps its map and gives it back when it is live again.
pub proof fn law_resolution(live: bool, binding: Option<Binding>, map: DirectionMap)
    ensures
        resolved(live, binding) == (GestureButtonState::LiveMap { map }) <==> live && binding == Some(
            Binding::Gesture(map),
        ),
        resolved(true, binding) == (GestureButtonState::LiveMap { map }) <==> resolved(false, binding)
            == (GestureButtonState::NotLive { preserved: Some(map) }),
{
}

/// With an explicit set, an id is live after migration exactly when it was
/// listed and stores a direction map, or is the dedicated gesture button and
/// stores nothing.
pub proof fn law_explicit_set_is_kept(
    listed: Set<ButtonId>,
    owner: Option<GestureOwner>,
    bindings: Map<ButtonId, Binding>,
    id: ButtonId,
)
    ensures
        migrated_live(Some(listed), owner, bindings).contains(id) <==> listed.contains(id) && (
        lookup(bindings, id) matches Some(Binding::Gesture(_)) || (lookup(bindings, id) is None
            && id == ButtonId::GestureButton)),
{
}

/// Whether an id that was made live stays so: it stores a direction map, or is
/// the dedicated gesture button and stores nothing.
pub open spec fn can_stay_live(bindings: Map<ButtonId, Binding>, id: ButtonId) -> bool {
    match lookup(bindings, id) {
        Some(binding) => binding is Gesture,
        None => id == ButtonId::GestureButton,
    }
}

/// With no explicit set, an eligible stored owner is live after migration
/// exactly when it stores a direction map, or is the dedicated gesture button
/// and stores nothing.
pub proof fn law_stored_owner_is_live(owner: ButtonId, bindings: Map<ButtonId, Binding>)
    requires
        owner != ButtonId::LeftClick,
        owner != ButtonId::RightClick,
        owner != ButtonId::Thumbwheel,
    ensures
        migrated_live(None, Some(GestureOwner::Button(owner)), bindings).contains(owner)
            <==> (bindings.contains_key(owner) && bindings[owner] is Gesture) || (owner
            == ButtonId::GestureButton && !bindings.contains_key(owner)),
{
}

/// Beside a stored owner, migration makes live the hook buttons that store a
/// direction map, and the DPI button when it stores one and the owner is the
/// dedicated gesture button; nothing else.
pub proof fn law_who_joins_a_stored_owner(
    owner: ButtonId,
    bindings: Map<ButtonId, Binding>,
    id: ButtonId,
)
    requires
        owner != ButtonId::LeftClick,
        owner != ButtonId::RightClick,
        owner != ButtonId::Thumbwheel,
        id != owner,
    ensures
        migrated_live(None, Some(GestureOwner::Button(owner)), bindings).contains(id)
            <==> bindings.contains_key(id) && bindings[id] is Gesture && (id
            == ButtonId::MiddleClick || id == ButtonId::Back || id == ButtonId::Forward || (id
            == ButtonId::DpiToggle && owner == ButtonId::GestureButton)),
{
}

/// A stored choice of off, and a stored owner that may not gesture, migrate to
/// off and leave every binding as it is.
pub proof fn law_off_stays_off(owner: GestureOwner, bindings: Map<ButtonId, Binding>)
    requires
        owner == GestureOwner::Off || owner == GestureOwner::Button(ButtonId::LeftClick) || owner
            == GestureOwner::Button(ButtonId::RightClick) || owner == GestureOwner::Button(
            ButtonId::Thumbwheel,
        ),
    ensures
        migrated_live(None, Some(owner), bindings) == Set::<ButtonId>::empty(),
        migrated_bindings(None, Some(owner), bindings) == bindings,
{
    assert(migrated_live(None, Some(owner), bindings) =~= Set::<ButtonId>::empty());
}

/// The inferred owner is the first button with a direction map other than the
/// dedicated gesture button. Where there is none, it is the dedicated gesture
/// button, unless a single action is bound to that.
pub proof fn law_inferred_owner_comes_first(bindings: Map<ButtonId, Binding>, id: ButtonId)
    ensures
        ({
            let alone = forall|b: ButtonId| #[trigger]
                bindings.contains_key(b) && b != ButtonId::GestureButton ==> bindings[b] is Single;
            &&& id != ButtonId::GestureButton ==> (inferred_owner(bindings) == Some(id)
                <==> bindings.contains_key(id) && bindings[id] is Gesture && forall|b: ButtonId|
                #[trigger] bindings.contains_key(b) && b.rank() < id.rank() ==> bindings[b]
                    is Single)
            &&& inferred_owner(bindings) == Some(ButtonId::GestureButton) <==> alone && !(
            lookup(bindings, ButtonId::GestureButton) matches Some(Binding::Single(_)))
            &&& inferred_owner(bindings) is None <==> alone && (lookup(
                bindings,
                ButtonId::GestureButton,
            ) matches Some(Binding::Single(_)))
        }),
{
    let others = other_maps(bindings);
    let list = ordered(others);
    lemma_ordered(others);
    lemma_all_buttons_complete();
    if list.len() > 0 {
        let head = list[0];
        assert(list.contains(head));
        assert(others.contains(head));
        assert forall|b: ButtonId| others.contains(b) implies head.rank() <= #[trigger] b.rank() by {
            assert(list.contains(b));
            let k = choose|k: int| 0 <= k < list.len() && list[k] == b;
            if k > 0 {
                assert(list[0].rank() < list[k].rank());
            }
        }
        assert forall|b: ButtonId| #[trigger]
            bindings.contains_key(b) && b.rank() < head.rank() implies bindings[b] is Single by {
            assert(!others.contains(b));
            if b == ButtonId::GestureButton {
                assert(head.rank() <= 7);
            }
        }
        if id != ButtonId::GestureButton && id != head && others.contains(id) {
            assert(head.rank() <= id.rank());
            assert(all_buttons()[head.rank()] != all_buttons()[id.rank()]);
            assert(bindings.contains_key(head) && head.rank() < id.rank());
        }
        if id != ButtonId::GestureButton && !others.contains(id) {
            assert(!(bindings.contains_key(id) && bindings[id] is Gesture));
        }
        assert(bindings.contains_key(head) && head != ButtonId::GestureButton);
    } else {
        assert forall|b: ButtonId| #[trigger]
            bindings.contains_key(b) && b != ButtonId::GestureButton implies bindings[b]
            is Single by {
            if bindings[b] is Gesture {
                assert(others.contains(b));
                assert(list.contains(b));
            }
        }
    }
}

/// With nothing stored about gestures, migration makes live the inferred owner,
/// if it may gesture, and the hook buttons that store a direction map; nothing
/// else.
pub proof fn law_who_is_inferred(bindings: Map<ButtonId, Binding>, id: ButtonId)
    ensures
        migrated_live(None, None, bindings).contains(id) <==> can_stay_live(bindings, id) && ((
        inferred_owner(bindings) == Some(id) && id != ButtonId::LeftClick && id
            != ButtonId::RightClick && id != ButtonId::Thumbwheel) || id == ButtonId::MiddleClick
            || id == ButtonId::Back || id == ButtonId::Forward),
{
}

/// The one thing that migration stores is the default five-pack, and that just
/// for a dedicated gesture button that it makes live and that stored nothing.
pub proof fn law_migration_stores_only_the_five_pack(
    present: Option<Set<ButtonId>>,
    owner: Option<GestureOwner>,
    bindings: Map<ButtonId, Binding>,
    id: ButtonId,
)
    ensures
        lookup(migrated_bindings(present, owner, bindings), id) == if id
            == ButtonId::GestureButton && !bindings.contains_key(id) && migrated_live(
            present,
            owner,
            bindings,
        ).contains(id) {
            Some(Binding::Gesture(main_default_spec()))
        } else {
            lookup(bindings, id)
        },
{
}

/// What enabling makes of a binding: a direction map stays, a single action
/// becomes the click of a map that does nothing else, and a button that stores
/// nothing gets the default of each direction if it is the dedicated gesture
/// button, and a map of all directions that does nothing if it is another one.
pub proof fn law_first_enable_map(
    current: Option<Binding>,
    button: ButtonId,
    direction: GestureDirection,
)
    ensures
        enabled_binding(current, button) matches Binding::Gesture(map) && match current {
            Some(Binding::Gesture(stored)) => map == stored,
            Some(Binding::Single(action)) => map@.contains_key(direction) && map@[direction] == (
            if direction == GestureDirection::Click {
                action
            } else {
                Action::Nothing
            }),
            None => map@.contains_key(direction) && map@[direction] == (if button
                == ButtonId::GestureButton {
                default_gesture_binding_spec(direction)
            } else {
                Action::Nothing
            }),
        },
{
}

/// A button that is not live gestures never, and a live one without a direction
/// map runs its single action, or nothing where none is bound.
pub proof fn law_resolution_without_a_map(live: bool, binding: Option<Binding>, action: Action)
    ensures
        resolved(live, binding) is NotLive <==> !live,
        resolved(live, binding) is LiveButSingle <==> live && !(binding matches Some(
            Binding::Gesture(_),
        )),
        resolved(true, Some(Binding::Single(action))) == (GestureButtonState::LiveButSingle {
            action,
        }),
        resolved(true, None) == (GestureButtonState::LiveButSingle { action: Action::Nothing }),
        resolved(false, Some(Binding::Single(action))) == (GestureButtonState::NotLive {
            preserved: None,
        }),
        resolved(false, None) == (GestureButtonState::NotLive { preserved: None }),
{
}

/// A field that is there says what its set says, also when that is off; one
/// that is not there says nothing.
pub proof fn law_presence_is_told_apart(live: GestureButtons)
    ensures
        present_set(GestureButtonsField::Present(live)) == Some(live@),
        present_set(GestureButtonsField::Absent) is None,
{
}

} // verus!
