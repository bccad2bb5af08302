//! Buttons, swipe directions, actions and the built-in defaults.

use vstd::prelude::*;

use crate::maps::DirectionMap;
use crate::text::same_text;

verus! {

/// A physical control on the mouse, in declaration order.
#[derive(Clone, Copy, Debug, PartialEq, Eq, PartialOrd, Ord, Hash, Structural)]
pub enum ButtonId {
    LeftClick,
    RightClick,
    MiddleClick,
    Back,
    Forward,
    DpiToggle,
    Thumbwheel,
    GestureButton,
}

/// Every button, in declaration order.
pub open spec fn all_buttons() -> Seq<ButtonId> {
    seq![
        ButtonId::LeftClick,
        ButtonId::RightClick,
        ButtonId::MiddleClick,
        ButtonId::Back,
        ButtonId::Forward,
        ButtonId::DpiToggle,
        ButtonId::Thumbwheel,
        ButtonId::GestureButton,
    ]
}

impl ButtonId {
    /// The position of the button in declaration order.
    pub open spec fn rank(self) -> int {
        match self {
            ButtonId::LeftClick => 0,
            ButtonId::RightClick => 1,
            ButtonId::MiddleClick => 2,
            ButtonId::Back => 3,
            ButtonId::Forward => 4,
            ButtonId::DpiToggle => 5,
            ButtonId::Thumbwheel => 6,
            ButtonId::GestureButton => 7,
        }
    }

    /// Every button, in declaration order.
    pub fn all() -> (buttons: [ButtonId; 8])
        ensures
            buttons@ == all_buttons(),
    {
        let buttons = [
            ButtonId::LeftClick,
            ButtonId::RightClick,
            ButtonId::MiddleClick,
            ButtonId::Back,
            ButtonId::Forward,
            ButtonId::DpiToggle,
            ButtonId::Thumbwheel,
            ButtonId::GestureButton,
        ];
        assert(buttons@ =~= all_buttons());
        buttons
    }
}

/// The name of a button, as it is written in text.
pub open spec fn button_name(button: ButtonId) -> Seq<char> {
    match button {
        ButtonId::LeftClick => "LeftClick"@,
        ButtonId::RightClick => "RightClick"@,
        ButtonId::MiddleClick => "MiddleClick"@,
        ButtonId::Back => "Back"@,
        ButtonId::Forward => "Forward"@,
        ButtonId::DpiToggle => "DpiToggle"@,
        ButtonId::Thumbwheel => "Thumbwheel"@,
        ButtonId::GestureButton => "GestureButton"@,
    }
}

/// The button that a text names, if it names one.
pub open spec fn named_button(text: Seq<char>) -> Option<ButtonId> {
    if exists|b: ButtonId| #[trigger] button_name(b) == text {
        Some(choose|b: ButtonId| #[trigger] button_name(b) == text)
    } else {
        None
    }
}

/// Distinct buttons have distinct names, and a button's name names it.
pub proof fn lemma_button_names_distinct()
    ensures
        forall|a: ButtonId, b: ButtonId| #[trigger] button_name(a) == #[trigger] button_name(b) ==> a
            == b,
        forall|b: ButtonId| named_button(#[trigger] button_name(b)) == Some(b),
        forall|b: ButtonId| #[trigger] button_name(b) != "Off"@,
{
    reveal_strlit("LeftClick");
    reveal_strlit("RightClick");
    reveal_strlit("MiddleClick");
    reveal_strlit("Back");
    reveal_strlit("Forward");
    reveal_strlit("DpiToggle");
    reveal_strlit("Thumbwheel");
    reveal_strlit("GestureButton");
    reveal_strlit("Off");
    assert forall|a: ButtonId, b: ButtonId| #[trigger] button_name(a) == #[trigger] button_name(
        b,
    ) implies a == b by {
        assert(button_name(a).len() == button_name(b).len());
        assert(button_name(a)[0] == button_name(b)[0]);
    }
    assert forall|b: ButtonId| #[trigger] button_name(b) != "Off"@ by {
        assert(button_name(b).len() != "Off"@.len());
    }
}

impl ButtonId {
    /// The name of the button.
    #[must_use]
    pub fn name(self) -> (text: &'static str)
        ensures
            text@ == button_name(self),
    {
        match self {
            ButtonId::LeftClick => "LeftClick",
            ButtonId::RightClick => "RightClick",
            ButtonId::MiddleClick => "MiddleClick",
            ButtonId::Back => "Back",
            ButtonId::Forward => "Forward",
            ButtonId::DpiToggle => "DpiToggle",
            ButtonId::Thumbwheel => "Thumbwheel",
            ButtonId::GestureButton => "GestureButton",
        }
    }

    /// The button that `text` names, if it names one.
    #[must_use]
    pub fn from_name(text: &str) -> (res: Option<ButtonId>)
        ensures
            res == named_button(text@),
            res is None <==> forall|b: ButtonId| text@ != #[trigger] button_name(b),
            res is Some ==> button_name(res->0) == text@,
    {
        proof {
            lemma_button_names_distinct();
            lemma_all_buttons_complete();
        }
        let all = ButtonId::all();
        let mut i: usize = 0;
        while i < all.len()
            invariant
                i <= all@.len(),
                all@ == all_buttons(),
                forall|a: ButtonId, b: ButtonId| #[trigger]
                    button_name(a) == #[trigger] button_name(b) ==> a == b,
                forall|j: int| 0 <= j < i ==> text@ != button_name(#[trigger] all_buttons()[j]),
            decreases all@.len() - i,
        {
            if same_text(text, all[i].name()) {
                return Some(all[i]);
            }
            i = i + 1;
        }
        assert forall|b: ButtonId| text@ != #[trigger] button_name(b) by {
            assert(all_buttons()[b.rank()] == b);
        }
        None
    }
}

/// What a hold on a gesture button resolved to: a swipe, or a plain click.
#[derive(Clone, Copy, Debug, PartialEq, Eq, PartialOrd, Ord, Hash, Structural)]
pub enum GestureDirection {
    Up,
    Down,
    Left,
    Right,
    Click,
}

/// Every direction, in declaration order.
pub open spec fn all_directions() -> Seq<GestureDirection> {
    seq![
        GestureDirection::Up,
        GestureDirection::Down,
        GestureDirection::Left,
        GestureDirection::Right,
        GestureDirection::Click,
    ]
}

impl GestureDirection {
    /// Every direction, in declaration order.
    pub fn all() -> (directions: [GestureDirection; 5])
        ensures
            directions@ == all_directions(),
    {
        let directions = [
            GestureDirection::Up,
            GestureDirection::Down,
            GestureDirection::Left,
            GestureDirection::Right,
            GestureDirection::Click,
        ];
        assert(directions@ =~= all_directions());
        directions
    }
}

/// Something a button press or a swipe can run.
#[derive(Clone, Copy, Debug, PartialEq, Eq, Hash, Structural)]
pub enum Action {
    Nothing,
    LeftClick,
    RightClick,
    MiddleClick,
    BrowserBack,
    BrowserForward,
    Copy,
    Paste,
    NextTab,
    PreviousTab,
    VolumeUp,
    VolumeDown,
    PlayPause,
    NextTrack,
    PreviousTrack,
    MissionControl,
    AppExpose,
    ShowDesktop,
    PreviousDesktop,
    NextDesktop,
    CycleDpiPresets,
}

/// What is bound to one button.
#[derive(Clone, Copy, Debug, PartialEq, Eq, Structural)]
pub enum Binding {
    /// One action on a plain press.
    Single(Action),
    /// A per-direction map; directions it does not hold are no-ops.
    Gesture(DirectionMap),
}

/// The action that a plain press of `button` runs when nothing is configured.
pub open spec fn default_binding_spec(button: ButtonId) -> Action {
    match button {
        ButtonId::LeftClick => Action::LeftClick,
        ButtonId::RightClick => Action::RightClick,
        ButtonId::MiddleClick => Action::MiddleClick,
        ButtonId::Back => Action::BrowserBack,
        ButtonId::Forward => Action::BrowserForward,
        ButtonId::DpiToggle => Action::CycleDpiPresets,
        ButtonId::Thumbwheel => Action::AppExpose,
        ButtonId::GestureButton => Action::AppExpose,
    }
}

/// The action that a swipe of the dedicated gesture button runs when nothing
/// is configured.
pub open spec fn default_gesture_binding_spec(direction: GestureDirection) -> Action {
    match direction {
        GestureDirection::Up => Action::MissionControl,
        GestureDirection::Down => Action::ShowDesktop,
        GestureDirection::Left => Action::PreviousDesktop,
        GestureDirection::Right => Action::NextDesktop,
        GestureDirection::Click => Action::AppExpose,
    }
}

/// The main default five-pack: a default for every direction.
pub open spec fn main_default_spec() -> DirectionMap {
    DirectionMap::of(|d: GestureDirection| Some(default_gesture_binding_spec(d)))
}

/// The binding of a button that is being configured for the first time.
pub open spec fn default_binding_for_spec(button: ButtonId) -> Binding {
    if button == ButtonId::GestureButton {
        Binding::Gesture(main_default_spec())
    } else {
        Binding::Single(default_binding_spec(button))
    }
}

impl Binding {
    /// The action of one direction, when the binding is a gesture that has it.
    pub open spec fn direction_action_spec(self, direction: GestureDirection) -> Option<Action> {
        match self {
            Binding::Single(_) => None,
            Binding::Gesture(map) => map.slot(direction),
        }
    }

    /// The action of a plain press.
    pub open spec fn click_action_spec(self) -> Action {
        match self {
            Binding::Single(action) => action,
            Binding::Gesture(map) => match map.slot(GestureDirection::Click) {
                Some(action) => action,
                None => Action::Nothing,
            },
        }
    }

    /// Whether the binding is a direction map.
    #[must_use]
    pub fn is_gesture(&self) -> (res: bool)
        ensures
            res == (*self is Gesture),
    {
        match self {
            Binding::Single(_) => false,
            Binding::Gesture(_) => true,
        }
    }

    /// The action a gesture binding stores for `direction`; `None` for a
    /// single action and for a direction the map does not hold.
    #[must_use]
    pub fn direction_action(&self, direction: GestureDirection) -> (res: Option<Action>)
        ensures
            res == self.direction_action_spec(direction),
    {
        match self {
            Binding::Single(_) => None,
            Binding::Gesture(map) => map.get(direction),
        }
    }

    /// The action of a plain press: the single action, or the map's `Click`
    /// (and [`Action::Nothing`] when the map has none).
    #[must_use]
    pub fn click_action(&self) -> (res: Action)
        ensures
            res == self.click_action_spec(),
    {
        match self {
            Binding::Single(action) => *action,
            Binding::Gesture(map) => match map.get(GestureDirection::Click) {
                Some(action) => action,
                None => Action::Nothing,
            },
        }
    }
}

impl From<Action> for Binding {
    fn from(action: Action) -> (binding: Binding) {
        Binding::Single(action)
    }
}

impl vstd::std_specs::convert::FromSpecImpl<Action> for Binding {
    open spec fn obeys_from_spec() -> bool {
        true
    }

    open spec fn from_spec(action: Action) -> Binding {
        Binding::Single(action)
    }
}

/// The default plain-press action of `button`.
#[must_use]
pub fn default_binding(button: ButtonId) -> (action: Action)
    ensures
        action == default_binding_spec(button),
{
    match button {
        ButtonId::LeftClick => Action::LeftClick,
        ButtonId::RightClick => Action::RightClick,
        ButtonId::MiddleClick => Action::MiddleClick,
        ButtonId::Back => Action::BrowserBack,
        ButtonId::Forward => Action::BrowserForward,
        ButtonId::DpiToggle => Action::CycleDpiPresets,
        ButtonId::Thumbwheel => Action::AppExpose,
        ButtonId::GestureButton => Action::AppExpose,
    }
}

/// The default action of one direction of the dedicated gesture button.
#[must_use]
pub fn default_gesture_binding(direction: GestureDirection) -> (action: Action)
    ensures
        action == default_gesture_binding_spec(direction),
{
    match direction {
        GestureDirection::Up => Action::MissionControl,
        GestureDirection::Down => Action::ShowDesktop,
        GestureDirection::Left => Action::PreviousDesktop,
        GestureDirection::Right => Action::NextDesktop,
        GestureDirection::Click => Action::AppExpose,
    }
}

/// The default binding of `button`: the five-pack for the dedicated gesture
/// button, the default single action for every other one.
#[must_use]
pub fn default_binding_for(button: ButtonId) -> (binding: Binding)
    ensures
        binding == default_binding_for_spec(button),
{
    if button == ButtonId::GestureButton {
        Binding::Gesture(main_default_gesture_map())
    } else {
        Binding::Single(default_binding(button))
    }
}

/// Materialize the main default five-pack: [`default_gesture_binding`] for
/// every direction.
#[must_use]
pub fn main_default_gesture_map() -> (map: DirectionMap)
    ensures
        map == main_default_spec(),
        map@.dom() == Set::<GestureDirection>::full(),
        forall|d: GestureDirection| #[trigger] map@[d] == default_gesture_binding_spec(d),
{
    let mut map = DirectionMap::new();
    let directions = GestureDirection::all();
    let mut i: usize = 0;
    while i < directions.len()
        invariant
            i <= directions@.len(),
            directions@ == all_directions(),
            forall|d: GestureDirection| #[trigger]
                map.slot(d) == if all_directions().take(i as int).contains(d) {
                    Some(default_gesture_binding_spec(d))
                } else {
                    None
                },
        decreases directions@.len() - i,
    {
        let d = directions[i];
        map.insert(d, default_gesture_binding(d));
        proof {
            crate::maps::lemma_take_contains(all_directions(), i as int);
        }
        i = i + 1;
    }
    proof {
        lemma_all_directions_complete();
        assert(all_directions().take(5) =~= all_directions());
        map.lemma_ext(main_default_spec());
    }
    map
}

/// `all_buttons` lists every button.
pub proof fn lemma_all_buttons_complete()
    ensures
        all_buttons().len() == 8,
        forall|b: ButtonId|
            0 <= #[trigger] b.rank() < 8 && all_buttons()[b.rank()] == b && all_buttons().contains(b),
{
    assert forall|b: ButtonId|
        0 <= #[trigger] b.rank() < 8 && all_buttons()[b.rank()] == b && all_buttons().contains(b) by {
        assert(all_buttons()[b.rank()] == b);
    }
}

/// `all_directions` lists every direction.
pub proof fn lemma_all_directions_complete()
    ensures
        all_directions().len() == 5,
        forall|d: GestureDirection| #[trigger] all_directions().contains(d),
{
    assert forall|d: GestureDirection| #[trigger] all_directions().contains(d) by {
        let s = all_directions();
        assert(s[0] == GestureDirection::Up);
        assert(s[1] == GestureDirection::Down);
        assert(s[2] == GestureDirection::Left);
        assert(s[3] == GestureDirection::Right);
        assert(s[4] == GestureDirection::Click);
    }
}

/// The five-pack holds, for every direction, just what that direction runs by
/// default; it is the first binding of the dedicated gesture button, and of no
/// other one.
pub proof fn law_five_pack_is_the_defaults(button: ButtonId, direction: GestureDirection)
    ensures
        main_default_spec()@.contains_key(direction),
        main_default_spec()@[direction] == default_gesture_binding_spec(direction),
        button == ButtonId::GestureButton ==> default_binding_for_spec(button) == Binding::Gesture(
            main_default_spec(),
        ),
        button != ButtonId::GestureButton ==> default_binding_for_spec(button) == Binding::Single(
            default_binding_spec(button),
        ),
{
}

/// What a plain press of a binding runs: its single action, or what its map
/// holds for a click, or nothing. A single action has no directions, and a map
/// has just those it holds.
pub proof fn law_actions_of_a_binding(
    action: Action,
    map: DirectionMap,
    direction: GestureDirection,
)
    ensures
        Binding::Single(action).click_action_spec() == action,
        Binding::Single(action).direction_action_spec(direction) is None,
        map@.contains_key(GestureDirection::Click) ==> Binding::Gesture(map).click_action_spec()
            == map@[GestureDirection::Click],
        !map@.contains_key(GestureDirection::Click) ==> Binding::Gesture(map).click_action_spec()
            == Action::Nothing,
        map@.contains_key(direction) ==> Binding::Gesture(map).direction_action_spec(direction)
            == Some(map@[direction]),
        !map@.contains_key(direction) ==> Binding::Gesture(map).direction_action_spec(direction)
            is None,
{
}

/// Declaration order runs from the left button to the dedicated gesture button,
/// and every button has its own place in it.
pub proof fn law_declaration_order(a: ButtonId, b: ButtonId)
    ensures
        a.rank() == b.rank() <==> a == b,
        ButtonId::LeftClick.rank() <= a.rank() <= ButtonId::GestureButton.rank(),
        ButtonId::RightClick.rank() < ButtonId::MiddleClick.rank() < ButtonId::Back.rank()
            < ButtonId::Forward.rank() < ButtonId::DpiToggle.rank() < ButtonId::Thumbwheel.rank(),
        all_buttons()[a.rank()] == a,
{
}

/// A text names at most one button, and it names one just when it is the name
/// of it.
pub proof fn law_names_are_exact(text: Seq<char>, button: ButtonId)
    ensures
        named_button(text) == Some(button) <==> text == button_name(button),
{
    lemma_button_names_distinct();
}

} // verus!
