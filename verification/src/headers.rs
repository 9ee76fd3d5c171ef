//! The headers of a message.
use crate::text::equal;
use vstd::prelude::*;
use vstd::std_specs::cmp::PartialEqSpecImpl;

verus! {

/// A header: its name and its value.
pub type Entry = (Seq<char>, Seq<char>);

/// `entries` holds a header named `key`.
pub open spec fn has_key(entries: Seq<Entry>, key: Seq<char>) -> bool {
    exists|i: int| 0 <= i < entries.len() && (#[trigger] entries[i]).0 == key
}

/// A position at which `entries` holds the header named `key`.
pub open spec fn position(entries: Seq<Entry>, key: Seq<char>) -> int {
    choose|i: int| 0 <= i < entries.len() && (#[trigger] entries[i]).0 == key
}

/// The value of the header named `key`.
pub open spec fn lookup(entries: Seq<Entry>, key: Seq<char>) -> Option<Seq<char>> {
    if has_key(entries, key) {
        Some(entries[position(entries, key)].1)
    } else {
        None
    }
}

/// `entries` once the header named `key` has the value `value`: the header
/// keeps its place where there was one, and stands last where there was none.
pub open spec fn put(entries: Seq<Entry>, key: Seq<char>, value: Seq<char>) -> Seq<Entry> {
    if has_key(entries, key) {
        entries.update(position(entries, key), (key, value))
    } else {
        entries.push((key, value))
    }
}

/// No two headers have the same name. Names are compared as they are
/// written: letter case counts.
pub open spec fn distinct_keys(entries: Seq<Entry>) -> bool {
    forall|i: int, j: int|
        0 <= i < entries.len() && 0 <= j < entries.len() && i != j ==> (#[trigger] entries[i]).0
            != (#[trigger] entries[j]).0
}

/// The headers as a mapping from name to value.
pub open spec fn as_map(entries: Seq<Entry>) -> Map<Seq<char>, Seq<char>> {
    Map::new(|key: Seq<char>| has_key(entries, key), |key: Seq<char>| lookup(entries, key)->0)
}

/// The same headers, whatever their order: as many, and every header of
/// `left` is one of `right`.
pub open spec fn same_headers(left: Seq<Entry>, right: Seq<Entry>) -> bool {
    &&& left.len() == right.len()
    &&& forall|i: int|
        0 <= i < left.len() ==> lookup(right, (#[trigger] left[i]).0) == Some(left[i].1)
}

/// Where names are distinct, the header named `key` stands at one place only.
pub proof fn lemma_position(entries: Seq<Entry>, at: int)
    requires
        distinct_keys(entries),
        0 <= at < entries.len(),
    ensures
        has_key(entries, entries[at].0),
        position(entries, entries[at].0) == at,
        lookup(entries, entries[at].0) == Some(entries[at].1),
{
}

/// Setting a header keeps the names distinct, and changes the mapping at
/// that name only.
pub proof fn lemma_put(entries: Seq<Entry>, key: Seq<char>, value: Seq<char>)
    requires
        distinct_keys(entries),
    ensures
        distinct_keys(put(entries, key, value)),
        as_map(put(entries, key, value)) == as_map(entries).insert(key, value),
        lookup(put(entries, key, value), key) == Some(value),
        forall|other: Seq<char>|
            other != key ==> lookup(put(entries, key, value), other) == lookup(entries, other),
{
    let after = put(entries, key, value);
    if has_key(entries, key) {
        let at = position(entries, key);
        assert(after[at].0 == key);
        assert forall|i: int| 0 <= i < after.len() implies (#[trigger] after[i]).0
            == entries[i].0 by {}
    } else {
        assert(after[entries.len() as int].0 == key);
        assert forall|i: int| 0 <= i < entries.len() implies (#[trigger] after[i]) == entries[i] by {}
    }
    lemma_position(after, position(after, key));
    assert forall|other: Seq<char>| other != key implies lookup(after, other) == lookup(
        entries,
        other,
    ) by {
        if has_key(entries, other) {
            let at = position(entries, other);
            assert(after[at] == entries[at]);
            lemma_position(after, at);
        } else {
            if has_key(after, other) {
                let at = position(after, other);
                assert(at < entries.len());
                assert(entries[at].0 == other);
            }
        }
    }
    assert(as_map(after) =~= as_map(entries).insert(key, value)) by {
        assert forall|name: Seq<char>| as_map(after).dom().contains(name) <==> as_map(
            entries,
        ).insert(key, value).dom().contains(name) by {
            if name != key {
                assert(lookup(after, name) == lookup(entries, name));
            }
        }
        assert forall|name: Seq<char>| as_map(after).dom().contains(name) implies as_map(
            after,
        )[name] == as_map(entries).insert(key, value)[name] by {
            if name != key {
                assert(lookup(after, name) == lookup(entries, name));
            }
        }
    }
}

/// Headers with distinct names are as many as their names.
pub proof fn lemma_count(entries: Seq<Entry>)
    requires
        distinct_keys(entries),
    ensures
        as_map(entries).dom().finite(),
        as_map(entries).dom().len() == entries.len(),
    decreases entries.len(),
{
    if entries.len() == 0 {
        assert(as_map(entries).dom() =~= Set::<Seq<char>>::empty());
    } else {
        let before = entries.drop_last();
        let last = entries.last();
        assert forall|i: int, j: int|
            0 <= i < before.len() && 0 <= j < before.len() && i != j implies (
        #[trigger] before[i]).0 != (#[trigger] before[j]).0 by {
            assert(before[i] == entries[i] && before[j] == entries[j]);
        }
        lemma_count(before);
        assert(!has_key(before, last.0)) by {
            if has_key(before, last.0) {
                let at = position(before, last.0);
                assert(before[at] == entries[at]);
                assert(entries[at].0 == entries[entries.len() - 1].0);
            }
        }
        assert(as_map(entries).dom() =~= as_map(before).dom().insert(last.0)) by {
            assert forall|name: Seq<char>| has_key(entries, name) <==> (has_key(before, name)
                || name == last.0) by {
                if has_key(entries, name) {
                    let at = position(entries, name);
                    if at < before.len() {
                        assert(before[at].0 == name);
                    }
                }
                if has_key(before, name) {
                    let at = position(before, name);
                    assert(entries[at].0 == name);
                }
                if name == last.0 {
                    assert(entries[entries.len() - 1].0 == name);
                }
            }
        }
    }
}

/// Headers with distinct names are the same headers exactly when they are
/// the same mapping from name to value: their order counts for nothing.
pub proof fn lemma_same_headers(left: Seq<Entry>, right: Seq<Entry>)
    requires
        distinct_keys(left),
        distinct_keys(right),
    ensures
        same_headers(left, right) <==> as_map(left) == as_map(right),
{
    lemma_count(left);
    lemma_count(right);
    let left_map = as_map(left);
    let right_map = as_map(right);
    if same_headers(left, right) {
        assert(left_map.dom().subset_of(right_map.dom())) by {
            assert forall|name: Seq<char>| left_map.dom().contains(name) implies right_map.dom().contains(
                name,
            ) by {
                let at = position(left, name);
                assert(lookup(right, left[at].0) == Some(left[at].1));
            }
        }
        vstd::set_lib::lemma_subset_equality(left_map.dom(), right_map.dom());
        assert(left_map =~= right_map) by {
            assert forall|name: Seq<char>| left_map.dom().contains(name) implies left_map[name]
                == right_map[name] by {
                let at = position(left, name);
                lemma_position(left, at);
                assert(lookup(right, left[at].0) == Some(left[at].1));
            }
        }
    }
    if left_map == right_map {
        assert forall|i: int| 0 <= i < left.len() implies lookup(right, (#[trigger] left[i]).0)
            == Some(left[i].1) by {
            lemma_position(left, i);
            assert(left_map.dom().contains(left[i].0));
            assert(right_map.dom().contains(left[i].0));
            assert(left_map[left[i].0] == right_map[left[i].0]);
        }
    }
}

/// The headers of a message: a mapping from header name to header value.
/// A name occurs once; setting it again replaces its value. The headers keep
/// the order in which their names first came.
#[derive(Debug)]
pub struct Headers {
    entries: Vec<(String, String)>,
}

impl View for Headers {
    type V = Seq<Entry>;

    closed spec fn view(&self) -> Seq<Entry> {
        texts(self.entries@)
    }
}

spec fn texts(pairs: Seq<(String, String)>) -> Seq<Entry> {
    Seq::new(pairs.len(), |i: int| (pairs[i].0@, pairs[i].1@))
}

impl Headers {
    #[verifier::type_invariant]
    spec fn well_formed(&self) -> bool {
        distinct_keys(self@)
    }

    pub fn new() -> (headers: Self)
        ensures
            headers@ == Seq::<Entry>::empty(),
    {
        let headers = Headers { entries: Vec::new() };
        assert(headers@ =~= Seq::<Entry>::empty());
        headers
    }

    pub fn len(&self) -> (count: usize)
        ensures
            count == self@.len(),
            distinct_keys(self@),
    {
        proof {
            use_type_invariant(self);
        }
        self.entries.len()
    }

    /// The header at position `at`, by name and value; `None` where there
    /// are no more than `at` headers.
    pub fn entry(&self, at: usize) -> (entry: Option<(&str, &str)>)
        ensures
            match entry {
                Some((key, value)) => at < self@.len() && (key@, value@) == self@[at as int],
                None => at >= self@.len(),
            },
    {
        if at < self.entries.len() {
            let pair = &self.entries[at];
            Some((pair.0.as_str(), pair.1.as_str()))
        } else {
            None
        }
    }

    fn find(&self, key: &str) -> (found: Option<usize>)
        ensures
            distinct_keys(self@),
            match found {
                Some(at) => at < self@.len() && self@[at as int].0 == key@ && has_key(self@, key@)
                    && position(self@, key@) == at,
                None => !has_key(self@, key@),
            },
    {
        proof {
            use_type_invariant(self);
        }
        let mut at: usize = 0;
        while at < self.entries.len()
            invariant
                at <= self.entries@.len(),
                self@.len() == self.entries@.len(),
                distinct_keys(self@),
                forall|i: int| 0 <= i < at ==> (#[trigger] self@[i]).0 != key@,
            decreases self.entries.len() - at,
        {
            if equal(self.entries[at].0.as_str(), key) {
                assert(self@[at as int].0 == key@);
                return Some(at);
            }
            at += 1;
        }
        None
    }

    /// The value of the header named `key`.
    pub fn get(&self, key: &str) -> (value: Option<&String>)
        ensures
            match value {
                Some(text) => lookup(self@, key@) == Some(text@),
                None => lookup(self@, key@) is None,
            },
    {
        match self.find(key) {
            Some(at) => Some(&self.entries[at].1),
            None => None,
        }
    }

    /// Sets the header named `key` to `value`, and returns the value that it
    /// had before.
    pub fn insert(&mut self, key: String, value: String) -> (before: Option<String>)
        ensures
            final(self)@ == put(old(self)@, key@, value@),
            distinct_keys(old(self)@),
            distinct_keys(final(self)@),
            match before {
                Some(text) => lookup(old(self)@, key@) == Some(text@),
                None => lookup(old(self)@, key@) is None,
            },
    {
        let found = self.find(key.as_str());
        let ghost entries = self@;
        proof {
            lemma_put(entries, key@, value@);
        }
        let mut taken = Headers::new();
        std::mem::swap(self, &mut taken);
        let Headers { entries: mut pairs } = taken;
        let before = match found {
            Some(at) => {
                let mut pair = (key, value);
                std::mem::swap(&mut pairs[at], &mut pair);
                Some(pair.1)
            },
            None => {
                pairs.push((key, value));
                None
            },
        };
        assert(texts(pairs@) =~= put(entries, key@, value@));
        *self = Headers { entries: pairs };
        before
    }
}

impl PartialEq for Headers {
    /// Two sets of headers are equal when they hold the same headers, in
    /// whatever order.
    fn eq(&self, other: &Self) -> (same: bool) {
        if self.len() != other.len() {
            return false;
        }
        let mut at: usize = 0;
        while at < self.len()
            invariant
                at <= self@.len(),
                self@.len() == other@.len(),
                forall|i: int|
                    0 <= i < at ==> lookup(other@, (#[trigger] self@[i]).0) == Some(self@[i].1),
            decreases self@.len() - at,
        {
            if let Some((key, value)) = self.entry(at) {
                match other.get(key) {
                    Some(text) => {
                        if !equal(text.as_str(), value) {
                            return false;
                        }
                    },
                    None => {
                        return false;
                    },
                }
            }
            at += 1;
        }
        true
    }
}

impl PartialEqSpecImpl for Headers {
    open spec fn obeys_eq_spec() -> bool {
        true
    }

    open spec fn eq_spec(&self, other: &Self) -> bool {
        same_headers(self@, other@)
    }
}

impl Eq for Headers {

}

impl Default for Headers {
    fn default() -> (headers: Self)
        ensures
            headers@ == Seq::<Entry>::empty(),
    {
        Headers::new()
    }
}

} // verus!
