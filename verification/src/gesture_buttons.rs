//! The live gesture-button set of a device and its text forms.

use vstd::prelude::*;

use vstd::string::*;

use crate::binding::{button_name, lemma_button_names_distinct, named_button, ButtonId};
use crate::maps::{lemma_ordered, lemma_take_contains, ordered, ButtonSet};
use crate::text::{joined, same_text, texts};

verus! {

/// The buttons that may gesture.
pub open spec fn eligible(id: ButtonId) -> bool {
    id == ButtonId::GestureButton || id == ButtonId::DpiToggle || id == ButtonId::MiddleClick || id
        == ButtonId::Back || id == ButtonId::Forward
}

/// Whether `id` may appear in a live gesture multi-set.
#[must_use]
pub fn is_gesture_eligible(id: ButtonId) -> (res: bool)
    ensures
        res == eligible(id),
{
    match id {
        ButtonId::GestureButton
        | ButtonId::DpiToggle
        | ButtonId::MiddleClick
        | ButtonId::Back
        | ButtonId::Forward => true,
        _ => false,
    }
}

/// Normalized live gesture-button set for one device.
///
/// Not publicly constructible as an empty set: constructors filter ineligible
/// ids and collapse the empty remainder to [`Self::off`].
#[derive(Clone, Copy, Debug, PartialEq, Eq)]
pub struct GestureButtons {
    kind: GestureButtonsKind,
}

#[derive(Clone, Copy, Debug, PartialEq, Eq)]
enum GestureButtonsKind {
    Off,
    /// Non-empty; every id is gesture-eligible.
    Live(ButtonSet),
}

impl View for GestureButtons {
    type V = Set<ButtonId>;

    closed spec fn view(&self) -> Set<ButtonId> {
        match self.kind {
            GestureButtonsKind::Off => Set::empty(),
            GestureButtonsKind::Live(set) => set@,
        }
    }
}

impl GestureButtons {
    #[verifier::type_invariant]
    spec fn normalized(self) -> bool {
        match self.kind {
            GestureButtonsKind::Off => true,
            GestureButtonsKind::Live(set) => {
                &&& set@ != Set::<ButtonId>::empty()
                &&& forall|id: ButtonId| #[trigger] set@.contains(id) ==> eligible(id)
            },
        }
    }

    /// Explicitly off: no live gesture button.
    #[must_use]
    pub fn off() -> (res: GestureButtons)
        ensures
            res@ == Set::<ButtonId>::empty(),
    {
        GestureButtons { kind: GestureButtonsKind::Off }
    }

    /// Build from a list of ids, dropping ineligible ids. Empty after the
    /// filter means off.
    #[must_use]
    pub fn try_from_iter(ids: &[ButtonId]) -> (res: GestureButtons)
        ensures
            res@ == Set::new(|id: ButtonId| ids@.contains(id) && eligible(id)),
    {
        let mut set = ButtonSet::new();
        let mut i: usize = 0;
        while i < ids.len()
            invariant
                i <= ids@.len(),
                set@ == Set::new(|id: ButtonId| ids@.take(i as int).contains(id) && eligible(id)),
            decreases ids@.len() - i,
        {
            proof {
                lemma_take_contains(ids@, i as int);
            }
            if is_gesture_eligible(ids[i]) {
                set.insert(ids[i]);
            }
            assert(set@ =~= Set::new(
                |id: ButtonId| ids@.take(i + 1).contains(id) && eligible(id),
            ));
            i = i + 1;
        }
        assert(ids@.take(i as int) =~= ids@);
        if set.is_empty() {
            Self::off()
        } else {
            GestureButtons { kind: GestureButtonsKind::Live(set) }
        }
    }

    /// Whether this is the explicit off value.
    #[must_use]
    pub fn is_off(&self) -> (res: bool)
        ensures
            res == (self@ == Set::<ButtonId>::empty()),
    {
        proof {
            use_type_invariant(self);
        }
        match self.kind {
            GestureButtonsKind::Off => true,
            GestureButtonsKind::Live(_) => false,
        }
    }

    /// The live button ids in declaration order (none when off).
    #[must_use]
    pub fn iter(&self) -> (ids: Vec<ButtonId>)
        ensures
            ids@ == ordered(self@),
            ids@.len() == self@.len(),
            forall|i: int| 0 <= i < ids@.len() ==> eligible(#[trigger] ids@[i]),
    {
        proof {
            use_type_invariant(self);
            lemma_ordered(self@);
        }
        let ids = match self.kind {
            GestureButtonsKind::Off => ButtonSet::new().to_vec(),
            GestureButtonsKind::Live(set) => set.to_vec(),
        };
        assert forall|i: int| 0 <= i < ids@.len() implies eligible(#[trigger] ids@[i]) by {
            assert(ordered(self@).contains(ids@[i]));
        }
        ids
    }

    /// Whether `id` is in the live set. Only eligible ids ever are.
    #[must_use]
    pub fn contains(&self, id: ButtonId) -> (res: bool)
        ensures
            res == self@.contains(id),
            res ==> eligible(id),
    {
        proof {
            use_type_invariant(self);
        }
        match self.kind {
            GestureButtonsKind::Off => false,
            GestureButtonsKind::Live(set) => set.contains(id),
        }
    }

    /// Insert an eligible id. Ineligible ids are ignored. Inserting into the
    /// off value gives a singleton.
    #[must_use]
    pub fn insert(self, id: ButtonId) -> (res: GestureButtons)
        ensures
            res@ == if eligible(id) {
                self@.insert(id)
            } else {
                self@
            },
    {
        proof {
            use_type_invariant(&self);
        }
        if !is_gesture_eligible(id) {
            return self;
        }
        match self.kind {
            GestureButtonsKind::Off => {
                let ids = [id];
                let res = Self::try_from_iter(&ids);
                proof {
                    assert(ids@.contains(id)) by {
                        assert(ids@[0] == id);
                    }
                    assert(res@ =~= self@.insert(id));
                }
                res
            },
            GestureButtonsKind::Live(set) => {
                let mut set = set;
                set.insert(id);
                assert(set@.contains(id));
                GestureButtons { kind: GestureButtonsKind::Live(set) }
            },
        }
    }

    /// Remove `id`. Empty after the removal means off.
    #[must_use]
    pub fn remove(self, id: ButtonId) -> (res: GestureButtons)
        ensures
            res@ == self@.remove(id),
    {
        proof {
            use_type_invariant(&self);
        }
        match self.kind {
            GestureButtonsKind::Off => {
                assert(self@.remove(id) =~= Set::<ButtonId>::empty());
                Self::off()
            },
            GestureButtonsKind::Live(set) => {
                let mut set = set;
                set.remove(id);
                if set.is_empty() {
                    Self::off()
                } else {
                    GestureButtons { kind: GestureButtonsKind::Live(set) }
                }
            },
        }
    }

    /// Number of live buttons (0 when off).
    #[must_use]
    pub fn len(&self) -> (n: usize)
        ensures
            n == self@.len(),
    {
        self.iter().len()
    }

    /// Whether the live set is empty (off).
    #[must_use]
    pub fn is_empty(&self) -> (res: bool)
        ensures
            res == (self@ == Set::<ButtonId>::empty()),
    {
        self.is_off()
    }
}

impl Default for GestureButtons {
    fn default() -> (res: GestureButtons)
        ensures
            res@ == Set::<ButtonId>::empty(),
    {
        Self::off()
    }
}

/// The text form of a live set: one word, or a list of button names.
#[derive(Debug, PartialEq, Eq)]
pub enum GestureButtonsToken {
    Text(String),
    List(Vec<String>),
}

/// A [`GestureButtonsToken`] as character sequences.
pub enum TokenView {
    Text(Seq<char>),
    List(Seq<Seq<char>>),
}

impl View for GestureButtonsToken {
    type V = TokenView;

    open spec fn view(&self) -> TokenView {
        match self {
            GestureButtonsToken::Text(text) => TokenView::Text(text@),
            GestureButtonsToken::List(list) => TokenView::List(texts(list@)),
        }
    }
}

/// A word that is neither `Off` nor the name of a button.
#[derive(Debug, PartialEq, Eq)]
pub struct UnknownButton {
    pub name: String,
}

/// The names of the buttons of a set, in declaration order.
pub open spec fn names_of(live: Set<ButtonId>) -> Seq<Seq<char>> {
    ordered(live).map_values(|b: ButtonId| button_name(b))
}

/// The token a live set is written as: `Off`, or the list of its names.
pub open spec fn written(live: Set<ButtonId>) -> TokenView {
    if live == Set::<ButtonId>::empty() {
        TokenView::Text("Off"@)
    } else {
        TokenView::List(names_of(live))
    }
}

/// The live set a token stands for; an unknown single word is an error, and
/// what a list holds beyond eligible names is skipped.
pub open spec fn read(token: TokenView) -> Result<Set<ButtonId>, Seq<char>> {
    match token {
        TokenView::Text(text) => if text == "Off"@ {
            Ok(Set::empty())
        } else {
            match named_button(text) {
                None => Err(text),
                Some(id) => Ok(
                    if eligible(id) {
                        Set::empty().insert(id)
                    } else {
                        Set::empty()
                    },
                ),
            }
        },
        TokenView::List(names) => Ok(
            Set::new(|id: ButtonId| eligible(id) && names.contains(button_name(id))),
        ),
    }
}

/// How a live set is shown: `Off`, or its names separated by commas.
pub open spec fn shown(live: Set<ButtonId>) -> Seq<char> {
    if live == Set::<ButtonId>::empty() {
        "Off"@
    } else {
        joined(names_of(live), ", "@)
    }
}

/// Field presence for `gesture_buttons` in a device table.
///
/// Distinguishes key-absent (fold or infer on load) from
/// key-present-and-parsed (including `Off` and lists that filter to off).
#[derive(Clone, Copy, Debug, PartialEq, Eq)]
pub enum GestureButtonsField {
    /// Key absent: fold or infer on load.
    Absent,
    /// Key present and successfully parsed.
    Present(GestureButtons),
}

impl Default for GestureButtonsField {
    fn default() -> (res: GestureButtonsField)
        ensures
            res is Absent,
    {
        GestureButtonsField::Absent
    }
}

impl GestureButtons {
    /// The names of the live buttons in declaration order.
    fn names(&self) -> (list: Vec<String>)
        ensures
            texts(list@) == names_of(self@),
    {
        let ids = self.iter();
        let mut list: Vec<String> = Vec::new();
        let mut i: usize = 0;
        while i < ids.len()
            invariant
                i <= ids@.len(),
                list@.len() == i,
                forall|j: int| 0 <= j < i ==> (#[trigger] list@[j])@ == button_name(ids@[j]),
            decreases ids@.len() - i,
        {
            list.push(ids[i].name().to_owned());
            i = i + 1;
        }
        assert(texts(list@) =~= names_of(self@));
        list
    }

    /// The text form: `Off`, or the list of button names. An empty list is
    /// never written.
    #[must_use]
    pub fn serialize(&self) -> (token: GestureButtonsToken)
        ensures
            token@ == written(self@),
            token is List ==> token->List_0@.len() > 0,
    {
        if self.is_off() {
            GestureButtonsToken::Text("Off".to_owned())
        } else {
            let list = self.names();
            proof {
                lemma_ordered(self@);
                assert(texts(list@).len() == self@.len());
                if self@.len() == 0 {
                    assert(ordered(self@).len() == 0);
                    assert forall|b: ButtonId| !self@.contains(b) by {
                        if self@.contains(b) {
                            assert(ordered(self@).contains(b));
                        }
                    }
                    assert(self@ =~= Set::<ButtonId>::empty());
                }
            }
            GestureButtonsToken::List(list)
        }
    }

    /// The set in words: `Off`, or the names separated by `", "`.
    #[must_use]
    pub fn display(&self) -> (text: String)
        ensures
            text@ == shown(self@),
    {
        if self.is_off() {
            return "Off".to_owned();
        }
        let list = self.names();
        let ghost parts = texts(list@);
        let mut text: String = String::new();
        let mut first = true;
        let mut i: usize = 0;
        assert(joined(parts.take(0), ", "@) =~= Seq::<char>::empty());
        while i < list.len()
            invariant
                i <= list@.len(),
                parts == texts(list@),
                first == (i == 0),
                text@ == joined(parts.take(i as int), ", "@),
            decreases list@.len() - i,
        {
            proof {
                assert(parts.take(i + 1).drop_last() =~= parts.take(i as int));
                assert(parts.take(i + 1).last() == list@[i as int]@);
            }
            if !first {
                text.append(", ");
            }
            first = false;
            text.append(list[i].as_str());
            assert(text@ =~= joined(parts.take(i + 1), ", "@));
            i = i + 1;
        }
        assert(parts.take(i as int) =~= parts);
        text
    }

    /// Read one word: `Off`, or a single button name. A name that may not
    /// gesture filters to off.
    pub fn from_word(word: &str) -> (res: Result<GestureButtons, UnknownButton>)
        ensures
            match (res, read(TokenView::Text(word@))) {
                (Ok(live), Ok(expected)) => live@ == expected,
                (Err(e), Err(name)) => e.name@ == name,
                _ => false,
            },
    {
        if same_text(word, "Off") {
            return Ok(Self::off());
        }
        match ButtonId::from_name(word) {
            None => Err(UnknownButton { name: word.to_owned() }),
            Some(button) => {
                if !is_gesture_eligible(button) {
                    return Ok(Self::off());
                }
                let ids = [button];
                let live = Self::try_from_iter(&ids);
                proof {
                    assert(ids@[0] == button);
                    assert(live@ =~= Set::empty().insert(button));
                }
                Ok(live)
            },
        }
    }

    /// Read a list of names. Unknown and ineligible names are skipped; an
    /// empty remainder is off.
    #[must_use]
    pub fn from_names(names: &[String]) -> (live: GestureButtons)
        ensures
            read(TokenView::List(texts(names@))) == Ok::<Set<ButtonId>, Seq<char>>(live@),
    {
        let ghost all = texts(names@);
        let mut ids: Vec<ButtonId> = Vec::new();
        let mut i: usize = 0;
        proof {
            lemma_button_names_distinct();
        }
        while i < names.len()
            invariant
                i <= names@.len(),
                all == texts(names@),
                forall|b: ButtonId| named_button(#[trigger] button_name(b)) == Some(b),
                forall|b: ButtonId| #[trigger]
                    ids@.contains(b) <==> eligible(b) && all.take(i as int).contains(button_name(b)),
            decreases names@.len() - i,
        {
            let ghost before = ids@;
            proof {
                lemma_take_contains(all, i as int);
                assert(all[i as int] == names@[i as int]@);
            }
            match ButtonId::from_name(names[i].as_str()) {
                Some(id) => {
                    if is_gesture_eligible(id) {
                        ids.push(id);
                        proof {
                            assert(ids@[before.len() as int] == id);
                            assert forall|b: ButtonId| #[trigger] ids@.contains(b) <==> before.contains(
                                b,
                            ) || b == id by {
                                if before.contains(b) {
                                    let k = choose|k: int| 0 <= k < before.len() && before[k] == b;
                                    assert(ids@[k] == b);
                                }
                            }
                        }
                    }
                },
                None => {},
            }
            i = i + 1;
        }
        assert(all.take(i as int) =~= all);
        let live = Self::try_from_iter(ids.as_slice());
        assert(live@ =~= Set::new(|id: ButtonId| eligible(id) && all.contains(button_name(id))));
        live
    }
}

/// Parse a present `gesture_buttons` value into
/// [`GestureButtonsField::Present`]. An absent key never gets here.
pub fn deserialize_gesture_buttons_field(token: &GestureButtonsToken) -> (res: Result<
    GestureButtonsField,
    UnknownButton,
>)
    ensures
        match (res, read(token@)) {
            (Ok(GestureButtonsField::Present(live)), Ok(expected)) => live@ == expected,
            (Err(e), Err(name)) => e.name@ == name,
            _ => false,
        },
{
    match token {
        GestureButtonsToken::Text(word) => match GestureButtons::from_word(word.as_str()) {
            Ok(live) => Ok(GestureButtonsField::Present(live)),
            Err(e) => Err(e),
        },
        GestureButtonsToken::List(names) => Ok(
            GestureButtonsField::Present(GestureButtons::from_names(names.as_slice())),
        ),
    }
}

/// Reading back what was written gives the same live set.
pub proof fn law_read_of_written(live: Set<ButtonId>)
    requires
        forall|id: ButtonId| #[trigger] live.contains(id) ==> eligible(id),
    ensures
        read(written(live)) == Ok::<Set<ButtonId>, Seq<char>>(live),
{
    if live == Set::<ButtonId>::empty() {
    } else {
        let names = names_of(live);
        lemma_ordered(live);
        lemma_button_names_distinct();
        assert forall|id: ButtonId| #[trigger] live.contains(id) <==> eligible(id)
            && names.contains(button_name(id)) by {
            if live.contains(id) {
                assert(ordered(live).contains(id));
                let k = choose|k: int| 0 <= k < ordered(live).len() && ordered(live)[k] == id;
                assert(names[k] == button_name(id));
            }
            if names.contains(button_name(id)) {
                let k = choose|k: int| 0 <= k < names.len() && names[k] == button_name(id);
                assert(button_name(ordered(live)[k]) == button_name(id));
                assert(ordered(live).contains(id));
            }
        }
        assert(Set::new(|id: ButtonId| eligible(id) && names.contains(button_name(id))) =~= live);
    }
}

/// An empty list is never written: off has a word of its own.
pub proof fn law_empty_list_is_never_written(live: Set<ButtonId>)
    ensures
        written(live) matches TokenView::List(names) ==> names.len() > 0,
        live == Set::<ButtonId>::empty() <==> written(live) is Text,
{
    lemma_ordered(live);
    if live != Set::<ButtonId>::empty() {
        assert(exists|id: ButtonId| live.contains(id)) by {
            assert(!(live =~= Set::<ButtonId>::empty()));
        }
        let id = choose|id: ButtonId| live.contains(id);
        assert(ordered(live).contains(id));
    }
}

/// Whatever a token reads as, every id in it may gesture.
pub proof fn law_read_is_eligible(token: TokenView)
    ensures
        read(token) is Ok ==> forall|id: ButtonId| #[trigger]
            read(token)->Ok_0.contains(id) ==> eligible(id),
{
}

/// Five buttons may gesture: the dedicated gesture button, the DPI button and
/// the three whose presses reach the operating-system hook. The primary buttons
/// and the thumb wheel may not.
pub proof fn law_who_may_gesture(id: ButtonId)
    ensures
        eligible(id) <==> id != ButtonId::LeftClick && id != ButtonId::RightClick && id
            != ButtonId::Thumbwheel,
{
}

/// A single word stands for off, for one button or for nothing: `Off` is off, a
/// name is the set of that button if it may gesture and off if it may not, and
/// any other word is an error that tells the word.
pub proof fn law_words_are_read(word: Seq<char>, id: ButtonId)
    ensures
        word == "Off"@ ==> read(TokenView::Text(word)) == Ok::<Set<ButtonId>, Seq<char>>(
            Set::empty(),
        ),
        word == button_name(id) ==> (read(TokenView::Text(word)) matches Ok(live) && forall|
            b: ButtonId,
        | #[trigger]
            live.contains(b) <==> b == id && eligible(id)),
        read(TokenView::Text(word)) is Err <==> word != "Off"@ && forall|b: ButtonId| #[trigger]
            button_name(b) != word,
        read(TokenView::Text(word)) is Err ==> read(TokenView::Text(word)) == Err::<
            Set<ButtonId>,
            Seq<char>,
        >(word),
{
    lemma_button_names_distinct();
    if word != "Off"@ && named_button(word) is None {
        assert(forall|b: ButtonId| #[trigger] button_name(b) != word);
    }
}

/// A list is never an error: it stands for the buttons that it names and that
/// may gesture, in any order and however often, whatever else it holds.
pub proof fn law_lists_are_read(names: Seq<Seq<char>>, id: ButtonId)
    ensures
        read(TokenView::List(names)) matches Ok(live) && (live.contains(id) <==> eligible(id)
            && names.contains(button_name(id))),
{
}

/// A live set is written as the names of its buttons, each once and in
/// declaration order.
pub proof fn law_written_names_are_in_order(live: Set<ButtonId>, names: Seq<Seq<char>>)
    requires
        written(live) == TokenView::List(names),
    ensures
        forall|id: ButtonId| #[trigger] live.contains(id) <==> names.contains(button_name(id)),
        forall|i: int| 0 <= i < names.len() ==> named_button(#[trigger] names[i]) is Some,
        forall|i: int, j: int|
            0 <= i < j < names.len() ==> named_button(#[trigger] names[i])->0.rank() < named_button(
                #[trigger] names[j],
            )->0.rank(),
{
    let list = ordered(live);
    lemma_ordered(live);
    lemma_button_names_distinct();
    assert(names.len() == list.len());
    assert forall|i: int| 0 <= i < names.len() implies #[trigger] names[i] == button_name(list[i])
        && named_button(names[i]) == Some(list[i]) by {}
    assert forall|id: ButtonId| #[trigger] live.contains(id) <==> names.contains(
        button_name(id),
    ) by {
        if live.contains(id) {
            assert(list.contains(id));
            let k = choose|k: int| 0 <= k < list.len() && list[k] == id;
            assert(names[k] == button_name(id));
        }
        if names.contains(button_name(id)) {
            let k = choose|k: int| 0 <= k < names.len() && names[k] == button_name(id);
            assert(list.contains(list[k]));
        }
    }
}

/// A live set is shown as what is written of it: the word as it is, a list with
/// commas between its names.
pub proof fn law_shown_is_what_is_written(live: Set<ButtonId>)
    ensures
        shown(live) == match written(live) {
            TokenView::Text(word) => word,
            TokenView::List(names) => joined(names, ", "@),
        },
        live == Set::<ButtonId>::empty() ==> shown(live) == "Off"@,
{
}

} // verus!
