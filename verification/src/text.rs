//! Text helpers: comparison, joining, and a map keyed by strings.

use vstd::prelude::*;

verus! {

/// Whether two strings hold the same characters.
#[must_use]
pub fn same_text(a: &str, b: &str) -> (res: bool)
    ensures
        res == (a@ == b@),
{
    let left: String = a.to_owned();
    let right: String = b.to_owned();
    left == right
}

/// The characters of an optional string.
pub open spec fn text_of(text: Option<&str>) -> Option<Seq<char>> {
    match text {
        Some(text) => Some(text@),
        None => None,
    }
}

/// The characters of each string of a list.
pub open spec fn texts(list: Seq<String>) -> Seq<Seq<char>> {
    list.map_values(|s: String| s@)
}

/// The parts of a list, one after the other, with `separator` between any two.
pub open spec fn joined(parts: Seq<Seq<char>>, separator: Seq<char>) -> Seq<char>
    decreases parts.len(),
{
    if parts.len() == 0 {
        Seq::empty()
    } else if parts.len() == 1 {
        parts[0]
    } else {
        joined(parts.drop_last(), separator) + separator + parts.last()
    }
}

/// A map keyed by strings.
#[derive(Debug)]
pub struct TextMap<V> {
    entries: Vec<(String, V)>,
}

/// No two entries have the same key.
spec fn distinct_keys<V>(entries: Seq<(String, V)>) -> bool {
    forall|i: int, j: int|
        0 <= i < j < entries.len() ==> (#[trigger] entries[i]).0@ != (#[trigger] entries[j]).0@
}

/// The entry at `i` has key `key`.
spec fn key_at<V>(entries: Seq<(String, V)>, i: int, key: Seq<char>) -> bool {
    0 <= i < entries.len() && entries[i].0@ == key
}

/// The map that a list of entries stands for.
spec fn entry_map<V>(entries: Seq<(String, V)>) -> Map<Seq<char>, V> {
    Map::new(
        |key: Seq<char>| exists|i: int| #[trigger] key_at(entries, i, key),
        |key: Seq<char>| entries[choose|i: int| #[trigger] key_at(entries, i, key)].1,
    )
}

impl<V> View for TextMap<V> {
    type V = Map<Seq<char>, V>;

    closed spec fn view(&self) -> Map<Seq<char>, V> {
        entry_map(self.entries@)
    }
}

impl<V> TextMap<V> {
    #[verifier::type_invariant]
    spec fn well_formed(self) -> bool {
        distinct_keys(self.entries@)
    }

    /// The empty map.
    #[must_use]
    pub fn new() -> (map: TextMap<V>)
        ensures
            map@ == Map::<Seq<char>, V>::empty(),
    {
        let map = TextMap { entries: Vec::new() };
        assert(map@ =~= Map::<Seq<char>, V>::empty());
        map
    }

    fn find(&self, key: &str) -> (res: Option<usize>)
        ensures
            match res {
                Some(i) => key_at(self.entries@, i as int, key@),
                None => forall|i: int| !#[trigger] key_at(self.entries@, i, key@),
            },
    {
        let mut i: usize = 0;
        while i < self.entries.len()
            invariant
                i <= self.entries@.len(),
                forall|j: int| 0 <= j < i ==> !#[trigger] key_at(self.entries@, j, key@),
            decreases self.entries@.len() - i,
        {
            if same_text(self.entries[i].0.as_str(), key) {
                return Some(i);
            }
            i = i + 1;
        }
        None
    }

    /// What is stored under `key`, if anything.
    #[must_use]
    pub fn get(&self, key: &str) -> (res: Option<&V>)
        ensures
            match res {
                Some(value) => self@.contains_key(key@) && self@[key@] == *value,
                None => !self@.contains_key(key@),
            },
    {
        proof {
            use_type_invariant(self);
        }
        match self.find(key) {
            Some(i) => {
                proof {
                    lemma_entry(self.entries@, i as int);
                }
                Some(&self.entries[i].1)
            },
            None => None,
        }
    }

    /// Take out what is stored under `key`, if anything.
    pub fn remove(&mut self, key: &str) -> (res: Option<V>)
        ensures
            final(self)@ == old(self)@.remove(key@),
            match res {
                Some(value) => old(self)@.contains_key(key@) && old(self)@[key@] == value,
                None => !old(self)@.contains_key(key@),
            },
    {
        proof {
            use_type_invariant(&*self);
        }
        match self.find(key) {
            Some(i) => {
                let mut entries: Vec<(String, V)> = Vec::new();
                std::mem::swap(&mut entries, &mut self.entries);
                let ghost before = entries@;
                let (_, value) = entries.remove(i);
                proof {
                    lemma_entry(before, i as int);
                    lemma_entry_removed(before, i as int);
                }
                self.entries = entries;
                Some(value)
            },
            None => {
                assert(self@.remove(key@) =~= self@);
                None
            },
        }
    }

    /// Store `value` under `key`, replacing what was there.
    pub fn insert(&mut self, key: &str, value: V)
        ensures
            final(self)@ == old(self)@.insert(key@, value),
    {
        let _ = self.remove(key);
        let ghost removed = self@;
        proof {
            use_type_invariant(&*self);
        }
        let mut entries: Vec<(String, V)> = Vec::new();
        std::mem::swap(&mut entries, &mut self.entries);
        let ghost before = entries@;
        let name: String = key.to_owned();
        entries.push((name, value));
        proof {
            assert(!removed.contains_key(key@));
            assert forall|i: int| 0 <= i < before.len() implies (#[trigger] before[i]).0@ != key@ by {
                if before[i].0@ == key@ {
                    assert(key_at(before, i, key@));
                }
            }
            lemma_entry_pushed(before, name, value);
            assert(entry_map(entries@) =~= old(self)@.insert(key@, value));
        }
        self.entries = entries;
    }
}

proof fn lemma_entry<V>(entries: Seq<(String, V)>, i: int)
    requires
        distinct_keys(entries),
        0 <= i < entries.len(),
    ensures
        entry_map(entries).contains_key(entries[i].0@),
        entry_map(entries)[entries[i].0@] == entries[i].1,
{
    let key = entries[i].0@;
    assert(key_at(entries, i, key));
    let k = choose|k: int| #[trigger] key_at(entries, k, key);
    assert(k == i);
}

proof fn lemma_entry_removed<V>(entries: Seq<(String, V)>, i: int)
    requires
        distinct_keys(entries),
        0 <= i < entries.len(),
    ensures
        distinct_keys(entries.remove(i)),
        entry_map(entries.remove(i)) == entry_map(entries).remove(entries[i].0@),
{
    let rest = entries.remove(i);
    let key = entries[i].0@;
    assert(distinct_keys(rest));
    assert forall|k: Seq<char>| #[trigger]
        entry_map(rest).contains_key(k) <==> entry_map(entries).remove(key).contains_key(k) by {
        if entry_map(rest).contains_key(k) {
            let j = choose|j: int| #[trigger] key_at(rest, j, k);
            let at = if j < i {
                j
            } else {
                j + 1
            };
            assert(key_at(entries, at, k));
        }
        if entry_map(entries).remove(key).contains_key(k) {
            let j = choose|j: int| #[trigger] key_at(entries, j, k);
            let at = if j < i {
                j
            } else {
                j - 1
            };
            assert(key_at(rest, at, k));
        }
    }
    assert forall|k: Seq<char>| #[trigger] entry_map(rest).contains_key(k) implies entry_map(rest)[k]
        == entry_map(entries).remove(key)[k] by {
        let j = choose|j: int| #[trigger] key_at(rest, j, k);
        let at = if j < i {
            j
        } else {
            j + 1
        };
        lemma_entry(rest, j);
        lemma_entry(entries, at);
    }
    assert(entry_map(rest) =~= entry_map(entries).remove(key));
}

proof fn lemma_entry_pushed<V>(entries: Seq<(String, V)>, name: String, value: V)
    requires
        distinct_keys(entries),
        forall|i: int| 0 <= i < entries.len() ==> (#[trigger] entries[i]).0@ != name@,
    ensures
        distinct_keys(entries.push((name, value))),
        entry_map(entries.push((name, value))) == entry_map(entries).insert(name@, value),
{
    let longer = entries.push((name, value));
    assert(distinct_keys(longer));
    lemma_entry(longer, entries.len() as int);
    assert forall|k: Seq<char>| #[trigger]
        entry_map(longer).contains_key(k) <==> entry_map(entries).insert(
            name@,
            value,
        ).contains_key(k) by {
        if entry_map(longer).contains_key(k) {
            let j = choose|j: int| #[trigger] key_at(longer, j, k);
            if j < entries.len() {
                assert(key_at(entries, j, k));
            }
        }
        if entry_map(entries).contains_key(k) {
            let j = choose|j: int| #[trigger] key_at(entries, j, k);
            assert(key_at(longer, j, k));
        }
    }
    assert forall|k: Seq<char>| #[trigger] entry_map(longer).contains_key(k) implies entry_map(
        longer,
    )[k] == entry_map(entries).insert(name@, value)[k] by {
        let j = choose|j: int| #[trigger] key_at(longer, j, k);
        lemma_entry(longer, j);
        if j < entries.len() {
            lemma_entry(entries, j);
        }
    }
    assert(entry_map(longer) =~= entry_map(entries).insert(name@, value));
}

/// Joining one more part to a list puts the separator and then the part behind
/// what was joined before; a single part is joined as it is.
pub proof fn law_joining_one_more(
    parts: Seq<Seq<char>>,
    part: Seq<char>,
    separator: Seq<char>,
)
    ensures
        joined(seq![part], separator) == part,
        parts.len() > 0 ==> joined(parts.push(part), separator) == joined(parts, separator)
            + separator + part,
{
    assert(parts.push(part).drop_last() =~= parts);
}

/// An optional string is there just when its characters are.
pub proof fn law_optional_text(text: &str)
    ensures
        text_of(Some(text)) == Some(text@),
        text_of(None) is None,
{
}

/// A list of strings has the characters of each of them, in its place.
pub proof fn law_texts_keep_their_places(list: Seq<String>, i: int)
    requires
        0 <= i < list.len(),
    ensures
        texts(list).len() == list.len(),
        texts(list)[i] == list[i]@,
{
}

} // verus!
