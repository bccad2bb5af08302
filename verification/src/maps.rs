//! Dense tables keyed by a button or a direction: one slot per key, so that
//! walking a table in key order is walking the keys in declaration order.

use vstd::prelude::*;

use crate::binding::{
    all_buttons, all_directions, lemma_all_buttons_complete, lemma_all_directions_complete, Action,
    ButtonId, GestureDirection,
};

verus! {

/// A map from swipe directions to actions; it may leave directions out.
#[derive(Clone, Copy, Debug, PartialEq, Eq, Structural)]
pub struct DirectionMap {
    pub up: Option<Action>,
    pub down: Option<Action>,
    pub left: Option<Action>,
    pub right: Option<Action>,
    pub click: Option<Action>,
}

impl View for DirectionMap {
    type V = Map<GestureDirection, Action>;

    open spec fn view(&self) -> Map<GestureDirection, Action> {
        Map::new(|d: GestureDirection| self.slot(d) is Some, |d: GestureDirection| self.slot(d)->0)
    }
}

impl DirectionMap {
    /// What the map holds for one direction.
    pub open spec fn slot(self, direction: GestureDirection) -> Option<Action> {
        match direction {
            GestureDirection::Up => self.up,
            GestureDirection::Down => self.down,
            GestureDirection::Left => self.left,
            GestureDirection::Right => self.right,
            GestureDirection::Click => self.click,
        }
    }

    /// The map that holds `f(d)` for each direction `d`.
    pub open spec fn of(f: spec_fn(GestureDirection) -> Option<Action>) -> DirectionMap {
        DirectionMap {
            up: f(GestureDirection::Up),
            down: f(GestureDirection::Down),
            left: f(GestureDirection::Left),
            right: f(GestureDirection::Right),
            click: f(GestureDirection::Click),
        }
    }

    /// Two maps that agree in every slot are the same map.
    pub proof fn lemma_ext(self, other: DirectionMap)
        requires
            forall|d: GestureDirection| #[trigger] self.slot(d) == other.slot(d),
        ensures
            self == other,
    {
        assert(self.slot(GestureDirection::Up) == other.slot(GestureDirection::Up));
        assert(self.slot(GestureDirection::Down) == other.slot(GestureDirection::Down));
        assert(self.slot(GestureDirection::Left) == other.slot(GestureDirection::Left));
        assert(self.slot(GestureDirection::Right) == other.slot(GestureDirection::Right));
        assert(self.slot(GestureDirection::Click) == other.slot(GestureDirection::Click));
    }

    /// The empty map.
    #[must_use]
    pub fn new() -> (map: DirectionMap)
        ensures
            map@ == Map::<GestureDirection, Action>::empty(),
            forall|d: GestureDirection| #[trigger] map.slot(d) is None,
    {
        let map = DirectionMap { up: None, down: None, left: None, right: None, click: None };
        assert(map@ =~= Map::<GestureDirection, Action>::empty());
        map
    }

    /// Store `action` under `direction`, replacing what was there.
    pub fn insert(&mut self, direction: GestureDirection, action: Action)
        ensures
            final(self)@ == old(self)@.insert(direction, action),
            forall|d: GestureDirection| #[trigger]
                final(self).slot(d) == if d == direction {
                    Some(action)
                } else {
                    old(self).slot(d)
                },
    {
        match direction {
            GestureDirection::Up => self.up = Some(action),
            GestureDirection::Down => self.down = Some(action),
            GestureDirection::Left => self.left = Some(action),
            GestureDirection::Right => self.right = Some(action),
            GestureDirection::Click => self.click = Some(action),
        }
        assert(self@ =~= old(self)@.insert(direction, action));
    }

    /// The action stored under `direction`, if any.
    #[must_use]
    pub fn get(&self, direction: GestureDirection) -> (res: Option<Action>)
        ensures
            res == self.slot(direction),
            res is Some <==> self@.contains_key(direction),
            res is Some ==> res->0 == self@[direction],
    {
        match direction {
            GestureDirection::Up => self.up,
            GestureDirection::Down => self.down,
            GestureDirection::Left => self.left,
            GestureDirection::Right => self.right,
            GestureDirection::Click => self.click,
        }
    }

    /// The number of directions the map holds.
    #[must_use]
    pub fn len(&self) -> (n: usize)
        ensures
            n == self@.dom().len(),
    {
        let ghost p = |d: GestureDirection| self.slot(d) is Some;
        let directions = GestureDirection::all();
        let mut n: usize = 0;
        let mut i: usize = 0;
        while i < directions.len()
            invariant
                i <= directions@.len(),
                n <= i,
                directions@ == all_directions(),
                p == (|d: GestureDirection| self.slot(d) is Some),
                n == all_directions().take(i as int).filter(p).len(),
            decreases directions@.len() - i,
        {
            proof {
                lemma_take_filter(all_directions(), i as int, p);
            }
            if self.get(directions[i]).is_some() {
                n = n + 1;
            }
            i = i + 1;
        }
        proof {
            lemma_all_directions_complete();
            assert(all_directions().take(5) =~= all_directions());
            lemma_filter_is_set(all_directions(), p, self@.dom());
        }
        n
    }

    /// Whether the map holds no direction.
    #[must_use]
    pub fn is_empty(&self) -> (res: bool)
        ensures
            res <==> self@ == Map::<GestureDirection, Action>::empty(),
    {
        let res = self.up.is_none() && self.down.is_none() && self.left.is_none()
            && self.right.is_none() && self.click.is_none();
        proof {
            if res {
                assert(self@ =~= Map::<GestureDirection, Action>::empty());
            } else {
                let d = if self.up is Some {
                    GestureDirection::Up
                } else if self.down is Some {
                    GestureDirection::Down
                } else if self.left is Some {
                    GestureDirection::Left
                } else if self.right is Some {
                    GestureDirection::Right
                } else {
                    GestureDirection::Click
                };
                assert(self@.contains_key(d));
            }
        }
        res
    }
}

/// A set of buttons.
#[derive(Clone, Copy, Debug, PartialEq, Eq, Structural)]
pub struct ButtonSet {
    pub left_click: bool,
    pub right_click: bool,
    pub middle_click: bool,
    pub back: bool,
    pub forward: bool,
    pub dpi_toggle: bool,
    pub thumbwheel: bool,
    pub gesture_button: bool,
}

/// The buttons of `s`, in declaration order.
pub open spec fn ordered(s: Set<ButtonId>) -> Seq<ButtonId> {
    all_buttons().filter(|b: ButtonId| s.contains(b))
}

impl View for ButtonSet {
    type V = Set<ButtonId>;

    open spec fn view(&self) -> Set<ButtonId> {
        Set::new(|b: ButtonId| self.has(b))
    }
}

impl ButtonSet {
    /// Whether the set holds `button`.
    pub open spec fn has(self, button: ButtonId) -> bool {
        match button {
            ButtonId::LeftClick => self.left_click,
            ButtonId::RightClick => self.right_click,
            ButtonId::MiddleClick => self.middle_click,
            ButtonId::Back => self.back,
            ButtonId::Forward => self.forward,
            ButtonId::DpiToggle => self.dpi_toggle,
            ButtonId::Thumbwheel => self.thumbwheel,
            ButtonId::GestureButton => self.gesture_button,
        }
    }

    /// The empty set.
    #[must_use]
    pub fn new() -> (set: ButtonSet)
        ensures
            set@ == Set::<ButtonId>::empty(),
    {
        let set = ButtonSet {
            left_click: false,
            right_click: false,
            middle_click: false,
            back: false,
            forward: false,
            dpi_toggle: false,
            thumbwheel: false,
            gesture_button: false,
        };
        assert(set@ =~= Set::<ButtonId>::empty());
        set
    }

    /// Whether `button` is in the set.
    #[must_use]
    pub fn contains(&self, button: ButtonId) -> (res: bool)
        ensures
            res == self@.contains(button),
    {
        match button {
            ButtonId::LeftClick => self.left_click,
            ButtonId::RightClick => self.right_click,
            ButtonId::MiddleClick => self.middle_click,
            ButtonId::Back => self.back,
            ButtonId::Forward => self.forward,
            ButtonId::DpiToggle => self.dpi_toggle,
            ButtonId::Thumbwheel => self.thumbwheel,
            ButtonId::GestureButton => self.gesture_button,
        }
    }

    fn put(&mut self, button: ButtonId, present: bool)
        ensures
            forall|b: ButtonId| #[trigger]
                final(self).has(b) == if b == button {
                    present
                } else {
                    old(self).has(b)
                },
    {
        match button {
            ButtonId::LeftClick => self.left_click = present,
            ButtonId::RightClick => self.right_click = present,
            ButtonId::MiddleClick => self.middle_click = present,
            ButtonId::Back => self.back = present,
            ButtonId::Forward => self.forward = present,
            ButtonId::DpiToggle => self.dpi_toggle = present,
            ButtonId::Thumbwheel => self.thumbwheel = present,
            ButtonId::GestureButton => self.gesture_button = present,
        }
    }

    /// Add `button`.
    pub fn insert(&mut self, button: ButtonId)
        ensures
            final(self)@ == old(self)@.insert(button),
    {
        self.put(button, true);
        assert(self@ =~= old(self)@.insert(button));
    }

    /// Take `button` out.
    pub fn remove(&mut self, button: ButtonId)
        ensures
            final(self)@ == old(self)@.remove(button),
    {
        self.put(button, false);
        assert(self@ =~= old(self)@.remove(button));
    }

    /// The buttons of the set, in declaration order.
    #[must_use]
    pub fn to_vec(&self) -> (buttons: Vec<ButtonId>)
        ensures
            buttons@ == ordered(self@),
            buttons@.len() == self@.len(),
    {
        let ghost p = |b: ButtonId| self@.contains(b);
        let all = ButtonId::all();
        let mut buttons: Vec<ButtonId> = Vec::new();
        let mut i: usize = 0;
        assert(all_buttons().take(0).filter(p) =~= Seq::<ButtonId>::empty()) by {
            reveal(Seq::filter);
        }
        while i < all.len()
            invariant
                i <= all@.len(),
                all@ == all_buttons(),
                p == (|b: ButtonId| self@.contains(b)),
                buttons@ == all_buttons().take(i as int).filter(p),
            decreases all@.len() - i,
        {
            proof {
                lemma_take_filter(all_buttons(), i as int, p);
            }
            if self.contains(all[i]) {
                buttons.push(all[i]);
            }
            i = i + 1;
        }
        proof {
            lemma_all_buttons_complete();
            assert(all_buttons().take(8) =~= all_buttons());
            lemma_ordered(self@);
        }
        buttons
    }

    /// Whether the set holds nothing.
    #[must_use]
    pub fn is_empty(&self) -> (res: bool)
        ensures
            res <==> self@ == Set::<ButtonId>::empty(),
    {
        let buttons = self.to_vec();
        proof {
            lemma_ordered(self@);
            if buttons@.len() == 0 {
                assert forall|b: ButtonId| !self@.contains(b) by {
                    if self@.contains(b) {
                        assert(buttons@.contains(b));
                    }
                }
                assert(self@ =~= Set::<ButtonId>::empty());
            } else {
                assert(self@.contains(buttons@[0]));
            }
        }
        buttons.len() == 0
    }
}

/// A map keyed by buttons; it may leave buttons out.
#[derive(Debug, PartialEq, Eq, Structural)]
pub struct ButtonMap<V> {
    pub left_click: Option<V>,
    pub right_click: Option<V>,
    pub middle_click: Option<V>,
    pub back: Option<V>,
    pub forward: Option<V>,
    pub dpi_toggle: Option<V>,
    pub thumbwheel: Option<V>,
    pub gesture_button: Option<V>,
}

impl<V: Copy> Clone for ButtonMap<V> {
    fn clone(&self) -> (map: ButtonMap<V>)
        ensures
            map == *self,
    {
        *self
    }
}

impl<V: Copy> Copy for ButtonMap<V> {

}

impl<V> View for ButtonMap<V> {
    type V = Map<ButtonId, V>;

    open spec fn view(&self) -> Map<ButtonId, V> {
        Map::new(|b: ButtonId| self.slot(b) is Some, |b: ButtonId| self.slot(b)->0)
    }
}

impl<V> ButtonMap<V> {
    /// What the map holds for one button.
    pub open spec fn slot(self, button: ButtonId) -> Option<V> {
        match button {
            ButtonId::LeftClick => self.left_click,
            ButtonId::RightClick => self.right_click,
            ButtonId::MiddleClick => self.middle_click,
            ButtonId::Back => self.back,
            ButtonId::Forward => self.forward,
            ButtonId::DpiToggle => self.dpi_toggle,
            ButtonId::Thumbwheel => self.thumbwheel,
            ButtonId::GestureButton => self.gesture_button,
        }
    }
}

impl<V: Copy> ButtonMap<V> {
    /// The empty map.
    #[must_use]
    pub fn new() -> (map: ButtonMap<V>)
        ensures
            map@ == Map::<ButtonId, V>::empty(),
    {
        let map = ButtonMap {
            left_click: None,
            right_click: None,
            middle_click: None,
            back: None,
            forward: None,
            dpi_toggle: None,
            thumbwheel: None,
            gesture_button: None,
        };
        assert(map@ =~= Map::<ButtonId, V>::empty());
        map
    }

    fn put(&mut self, button: ButtonId, value: Option<V>)
        ensures
            forall|b: ButtonId| #[trigger]
                final(self).slot(b) == if b == button {
                    value
                } else {
                    old(self).slot(b)
                },
    {
        match button {
            ButtonId::LeftClick => self.left_click = value,
            ButtonId::RightClick => self.right_click = value,
            ButtonId::MiddleClick => self.middle_click = value,
            ButtonId::Back => self.back = value,
            ButtonId::Forward => self.forward = value,
            ButtonId::DpiToggle => self.dpi_toggle = value,
            ButtonId::Thumbwheel => self.thumbwheel = value,
            ButtonId::GestureButton => self.gesture_button = value,
        }
    }

    /// Store `value` under `button`, replacing what was there.
    pub fn insert(&mut self, button: ButtonId, value: V)
        ensures
            final(self)@ == old(self)@.insert(button, value),
    {
        self.put(button, Some(value));
        assert(self@ =~= old(self)@.insert(button, value));
    }

    /// Take out what is stored under `button`.
    pub fn remove(&mut self, button: ButtonId)
        ensures
            final(self)@ == old(self)@.remove(button),
    {
        self.put(button, None);
        assert(self@ =~= old(self)@.remove(button));
    }

    /// What is stored under `button`, if anything.
    #[must_use]
    pub fn get(&self, button: ButtonId) -> (res: Option<V>)
        ensures
            res == lookup(self@, button),
    {
        match button {
            ButtonId::LeftClick => self.left_click,
            ButtonId::RightClick => self.right_click,
            ButtonId::MiddleClick => self.middle_click,
            ButtonId::Back => self.back,
            ButtonId::Forward => self.forward,
            ButtonId::DpiToggle => self.dpi_toggle,
            ButtonId::Thumbwheel => self.thumbwheel,
            ButtonId::GestureButton => self.gesture_button,
        }
    }

    /// Whether something is stored under `button`.
    #[must_use]
    pub fn contains_key(&self, button: ButtonId) -> (res: bool)
        ensures
            res == self@.contains_key(button),
    {
        self.get(button).is_some()
    }

    /// The buttons something is stored under.
    #[must_use]
    pub fn keys(&self) -> (set: ButtonSet)
        ensures
            set@ == self@.dom(),
    {
        let set = ButtonSet {
            left_click: self.left_click.is_some(),
            right_click: self.right_click.is_some(),
            middle_click: self.middle_click.is_some(),
            back: self.back.is_some(),
            forward: self.forward.is_some(),
            dpi_toggle: self.dpi_toggle.is_some(),
            thumbwheel: self.thumbwheel.is_some(),
            gesture_button: self.gesture_button.is_some(),
        };
        assert(set@ =~= self@.dom());
        set
    }

    /// The number of buttons something is stored under.
    #[must_use]
    pub fn len(&self) -> (n: usize)
        ensures
            n == self@.dom().len(),
    {
        self.keys().to_vec().len()
    }

    /// Whether nothing is stored.
    #[must_use]
    pub fn is_empty(&self) -> (res: bool)
        ensures
            res <==> self@ == Map::<ButtonId, V>::empty(),
    {
        let res = self.keys().is_empty();
        proof {
            if res {
                assert(self@ =~= Map::<ButtonId, V>::empty());
            }
        }
        res
    }
}

/// The value a map holds for `key`, if any.
pub open spec fn lookup<K, V>(m: Map<K, V>, key: K) -> Option<V> {
    if m.contains_key(key) {
        Some(m[key])
    } else {
        None
    }
}

/// Filtering a prefix that is one element longer keeps that element exactly
/// when it satisfies the predicate.
pub proof fn lemma_take_filter<A>(s: Seq<A>, i: int, p: spec_fn(A) -> bool)
    requires
        0 <= i < s.len(),
    ensures
        s.take(i + 1).filter(p) == if p(s[i]) {
            s.take(i).filter(p).push(s[i])
        } else {
            s.take(i).filter(p)
        },
        s.take(0).filter(p).len() == 0,
{
    reveal(Seq::filter);
    assert(s.take(i + 1).drop_last() =~= s.take(i));
}

/// The elements that a filter keeps of a duplicate-free list of all values are
/// the set of the values that satisfy the predicate.
pub proof fn lemma_filter_is_set<A>(all: Seq<A>, p: spec_fn(A) -> bool, s: Set<A>)
    requires
        all.no_duplicates(),
        forall|x: A| #[trigger] all.contains(x),
        forall|x: A| #[trigger] s.contains(x) <==> p(x),
    ensures
        all.filter(p).no_duplicates(),
        all.filter(p).to_set() == s,
        all.filter(p).len() == s.len(),
        s.finite(),
        forall|x: A| #[trigger] all.filter(p).contains(x) <==> s.contains(x),
{
    let kept = all.filter(p);
    lemma_filter_no_duplicates(all, p);
    assert forall|x: A| #[trigger] kept.contains(x) <==> s.contains(x) by {
        if s.contains(x) {
            assert(all.contains(x));
            let i = choose|i: int| 0 <= i < all.len() && all[i] == x;
            all.lemma_filter_contains(p, i);
        }
        if kept.contains(x) {
            let i = choose|i: int| 0 <= i < kept.len() && kept[i] == x;
            all.lemma_filter_pred(p, i);
        }
    }
    assert(kept.to_set() =~= s);
    kept.unique_seq_to_set();
}

proof fn lemma_filter_no_duplicates<A>(all: Seq<A>, p: spec_fn(A) -> bool)
    requires
        all.no_duplicates(),
    ensures
        all.filter(p).no_duplicates(),
        forall|x: A| #[trigger] all.filter(p).contains(x) ==> all.contains(x),
    decreases all.len(),
{
    reveal(Seq::filter);
    if all.len() > 0 {
        let rest = all.drop_last();
        lemma_filter_no_duplicates(rest, p);
        let kept = rest.filter(p);
        if kept.contains(all.last()) {
            assert(rest.contains(all.last()));
            let i = choose|i: int| 0 <= i < rest.len() && rest[i] == all.last();
            assert(all[i] == all[all.len() - 1]);
        }
        assert forall|x: A| #[trigger] all.filter(p).contains(x) implies all.contains(x) by {
            if kept.contains(x) {
                assert(rest.contains(x));
                let i = choose|i: int| 0 <= i < rest.len() && rest[i] == x;
                assert(all[i] == x);
            } else {
                assert(all[all.len() - 1] == x);
            }
        }
    }
}

/// `ordered` lists exactly the buttons of a set, each once and by increasing
/// rank.
pub proof fn lemma_ordered(s: Set<ButtonId>)
    ensures
        ordered(s).no_duplicates(),
        ordered(s).to_set() == s,
        ordered(s).len() == s.len(),
        s.finite(),
        forall|b: ButtonId| #[trigger] ordered(s).contains(b) <==> s.contains(b),
        forall|i: int, j: int|
            0 <= i < j < ordered(s).len() ==> (#[trigger] ordered(s)[i]).rank() < (#[trigger] ordered(
                s,
            )[j]).rank(),
{
    let p = |b: ButtonId| s.contains(b);
    lemma_all_buttons_complete();
    assert(all_buttons().no_duplicates());
    lemma_filter_is_set(all_buttons(), p, s);
    lemma_filter_sorted(all_buttons(), p);
}

proof fn lemma_filter_sorted(all: Seq<ButtonId>, p: spec_fn(ButtonId) -> bool)
    requires
        forall|i: int, j: int|
            0 <= i < j < all.len() ==> (#[trigger] all[i]).rank() < (#[trigger] all[j]).rank(),
    ensures
        forall|i: int, j: int|
            0 <= i < j < all.filter(p).len() ==> (#[trigger] all.filter(p)[i]).rank() < (
            #[trigger] all.filter(p)[j]).rank(),
        forall|i: int|
            0 <= i < all.filter(p).len() ==> (#[trigger] all.filter(p)[i]).rank()
                <= all.last().rank(),
    decreases all.len(),
{
    reveal(Seq::filter);
    if all.len() > 0 {
        let rest = all.drop_last();
        lemma_filter_sorted(rest, p);
        let kept = rest.filter(p);
        if rest.len() > 0 {
            assert(all[rest.len() - 1].rank() < all[all.len() - 1].rank());
            assert(rest.last() == all[rest.len() - 1]);
        } else {
            assert(kept.len() == 0);
        }
        assert(all.filter(p) == if p(all.last()) {
            kept.push(all.last())
        } else {
            kept
        });
    }
}

/// Extending a prefix by one element adds that element to what it contains.
pub proof fn lemma_take_contains<A>(s: Seq<A>, i: int)
    requires
        0 <= i < s.len(),
    ensures
        forall|x: A| #[trigger]
            s.take(i + 1).contains(x) <==> s.take(i).contains(x) || x == s[i],
{
    assert forall|x: A| #[trigger]
        s.take(i + 1).contains(x) <==> s.take(i).contains(x) || x == s[i] by {
        let longer = s.take(i + 1);
        let shorter = s.take(i);
        if longer.contains(x) {
            let k = choose|k: int| 0 <= k < longer.len() && longer[k] == x;
            if k < i {
                assert(shorter[k] == x);
            }
        }
        if shorter.contains(x) {
            let k = choose|k: int| 0 <= k < shorter.len() && shorter[k] == x;
            assert(longer[k] == x);
        }
        assert(longer[i] == s[i]);
    }
}

/// What a mapped element becomes is among what a map with filter keeps.
pub proof fn lemma_filter_map_keeps<A, B>(s: Seq<A>, f: spec_fn(A) -> Option<B>, i: int)
    requires
        0 <= i < s.len(),
        f(s[i]) is Some,
    ensures
        s.filter_map(f).contains(f(s[i])->0),
    decreases s.len(),
{
    reveal(Seq::filter_map);
    let all = s.filter_map(f);
    let kept = s.drop_last().filter_map(f);
    if i == s.len() - 1 {
        assert(all[all.len() - 1] == f(s[i])->0);
    } else {
        lemma_filter_map_keeps(s.drop_last(), f, i);
        let j = choose|j: int| 0 <= j < kept.len() && kept[j] == f(s[i])->0;
        assert(all[j] == kept[j]);
    }
}

/// A map with filter keeps no more than it was given.
pub proof fn lemma_filter_map_len<A, B>(s: Seq<A>, f: spec_fn(A) -> Option<B>)
    ensures
        s.filter_map(f).len() <= s.len(),
    decreases s.len(),
{
    reveal(Seq::filter_map);
    if s.len() > 0 {
        lemma_filter_map_len(s.drop_last(), f);
    }
}

/// A table of directions holds what its fields hold, each under its own
/// direction.
pub proof fn law_each_direction_has_its_field(map: DirectionMap)
    ensures
        lookup(map@, GestureDirection::Up) == map.up,
        lookup(map@, GestureDirection::Down) == map.down,
        lookup(map@, GestureDirection::Left) == map.left,
        lookup(map@, GestureDirection::Right) == map.right,
        lookup(map@, GestureDirection::Click) == map.click,
{
}

/// A table of buttons holds what its fields hold, each under its own button.
pub proof fn law_each_button_has_its_field<V>(map: ButtonMap<V>)
    ensures
        lookup(map@, ButtonId::LeftClick) == map.left_click,
        lookup(map@, ButtonId::RightClick) == map.right_click,
        lookup(map@, ButtonId::MiddleClick) == map.middle_click,
        lookup(map@, ButtonId::Back) == map.back,
        lookup(map@, ButtonId::Forward) == map.forward,
        lookup(map@, ButtonId::DpiToggle) == map.dpi_toggle,
        lookup(map@, ButtonId::Thumbwheel) == map.thumbwheel,
        lookup(map@, ButtonId::GestureButton) == map.gesture_button,
{
}

/// Looking up finds what was stored last under a key, leaves other keys alone,
/// and finds nothing where nothing is.
pub proof fn law_lookup_finds_what_was_stored<K, V>(m: Map<K, V>, key: K, other: K, value: V)
    ensures
        lookup(m.insert(key, value), key) == Some(value),
        other != key ==> lookup(m.insert(key, value), other) == lookup(m, other),
        lookup(m.remove(key), key) is None,
        lookup(Map::<K, V>::empty(), key) is None,
        lookup(m, key) is Some <==> m.contains_key(key),
{
}

/// A set of buttons holds a button just when its field says so.
pub proof fn law_each_member_has_its_field(set: ButtonSet)
    ensures
        set@.contains(ButtonId::LeftClick) == set.left_click,
        set@.contains(ButtonId::RightClick) == set.right_click,
        set@.contains(ButtonId::MiddleClick) == set.middle_click,
        set@.contains(ButtonId::Back) == set.back,
        set@.contains(ButtonId::Forward) == set.forward,
        set@.contains(ButtonId::DpiToggle) == set.dpi_toggle,
        set@.contains(ButtonId::Thumbwheel) == set.thumbwheel,
        set@.contains(ButtonId::GestureButton) == set.gesture_button,
{
}

} // verus!
