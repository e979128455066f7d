//! A small string-to-string map, used for container labels and volume
//! bindings.
//!
//! The map keeps its entries in the order in which their keys were first
//! inserted, and holds each key once. Its model is the mathematical map of
//! its entries; where the order matters, [`StringMap::pairs`] gives the
//! entries as a sequence.

use vstd::prelude::*;

verus! {

/// One key/value pair of a [`StringMap`].
#[derive(Debug, PartialEq, Eq)]
pub struct Entry {
    pub key: String,
    pub value: String,
}

impl DeepView for Entry {
    type V = (Seq<char>, Seq<char>);

    open spec fn deep_view(&self) -> (Seq<char>, Seq<char>) {
        (self.key@, self.value@)
    }
}

/// The map obtained by inserting `pairs` from first to last.
pub open spec fn map_of(pairs: Seq<(Seq<char>, Seq<char>)>) -> Map<Seq<char>, Seq<char>>
    decreases pairs.len(),
{
    if pairs.len() == 0 {
        Map::empty()
    } else {
        map_of(pairs.drop_last()).insert(pairs.last().0, pairs.last().1)
    }
}

/// No two of `pairs` have the same key.
pub open spec fn distinct_keys(pairs: Seq<(Seq<char>, Seq<char>)>) -> bool {
    forall|i: int, j: int| 0 <= i < j < pairs.len() ==> (#[trigger] pairs[i]).0 != (#[trigger] pairs[j]).0
}

/// The index of the first of `pairs` with the key `key`, or the number of
/// pairs where there is none.
pub open spec fn index_of_key(pairs: Seq<(Seq<char>, Seq<char>)>, key: Seq<char>) -> int
    decreases pairs.len(),
{
    if pairs.len() == 0 || pairs[0].0 == key {
        0
    } else {
        1 + index_of_key(pairs.drop_first(), key)
    }
}

/// `pairs` with `value` for `key`: in the place of the pair that `key` had,
/// or at the end where it had none.
pub open spec fn with_pair(pairs: Seq<(Seq<char>, Seq<char>)>, key: Seq<char>, value: Seq<char>) -> Seq<
    (Seq<char>, Seq<char>),
> {
    let at = index_of_key(pairs, key);
    if 0 <= at < pairs.len() {
        pairs.update(at, (key, value))
    } else {
        pairs.push((key, value))
    }
}

/// A key that none of `pairs` carries is absent from the map.
pub proof fn lemma_map_of_absent(pairs: Seq<(Seq<char>, Seq<char>)>, key: Seq<char>)
    requires
        forall|i: int| 0 <= i < pairs.len() ==> (#[trigger] pairs[i]).0 != key,
    ensures
        !map_of(pairs).contains_key(key),
    decreases pairs.len(),
{
    if pairs.len() > 0 {
        let rest = pairs.drop_last();
        assert forall|i: int| 0 <= i < rest.len() implies (#[trigger] rest[i]).0 != key by {
            assert(rest[i] == pairs[i]);
        }
        lemma_map_of_absent(rest, key);
        assert(pairs.last() == pairs[pairs.len() - 1]);
    }
}

/// The last pair that carries `key` decides what the map holds for it.
pub proof fn lemma_map_of_last_match(pairs: Seq<(Seq<char>, Seq<char>)>, key: Seq<char>, at: int)
    requires
        0 <= at < pairs.len(),
        pairs[at].0 == key,
        forall|i: int| at < i < pairs.len() ==> (#[trigger] pairs[i]).0 != key,
    ensures
        map_of(pairs).contains_key(key),
        map_of(pairs)[key] == pairs[at].1,
    decreases pairs.len(),
{
    if at < pairs.len() - 1 {
        let rest = pairs.drop_last();
        assert(pairs.last() == pairs[pairs.len() - 1]);
        assert forall|i: int| at < i < rest.len() implies (#[trigger] rest[i]).0 != key by {
            assert(rest[i] == pairs[i]);
        }
        assert(rest[at] == pairs[at]);
        lemma_map_of_last_match(rest, key, at);
    }
}

/// The first pair with `key` is at `at` where no earlier pair has `key`.
proof fn lemma_index_of_key(pairs: Seq<(Seq<char>, Seq<char>)>, key: Seq<char>, at: int)
    requires
        0 <= at <= pairs.len(),
        forall|i: int| 0 <= i < at ==> (#[trigger] pairs[i]).0 != key,
        at == pairs.len() || pairs[at].0 == key,
    ensures
        index_of_key(pairs, key) == at,
    decreases at,
{
    if at > 0 {
        let rest = pairs.drop_first();
        assert forall|i: int| 0 <= i < at - 1 implies (#[trigger] rest[i]).0 != key by {
            assert(rest[i] == pairs[i + 1]);
        }
        lemma_index_of_key(rest, key, at - 1);
    }
}

/// Giving a key of a map with distinct keys a new value in place changes
/// the map as an insertion does, and keeps the keys distinct.
proof fn lemma_map_of_update(pairs: Seq<(Seq<char>, Seq<char>)>, at: int, value: Seq<char>)
    requires
        distinct_keys(pairs),
        0 <= at < pairs.len(),
    ensures
        map_of(pairs.update(at, (pairs[at].0, value))) == map_of(pairs).insert(pairs[at].0, value),
        distinct_keys(pairs.update(at, (pairs[at].0, value))),
    decreases pairs.len(),
{
    let key = pairs[at].0;
    let updated = pairs.update(at, (key, value));
    let rest = pairs.drop_last();
    assert(pairs.last() == pairs[pairs.len() - 1]);
    assert forall|i: int, j: int| 0 <= i < j < updated.len() implies (#[trigger] updated[i]).0 != (
    #[trigger] updated[j]).0 by {
        assert(updated[i].0 == pairs[i].0);
        assert(updated[j].0 == pairs[j].0);
    }
    if at == pairs.len() - 1 {
        assert(updated.drop_last() =~= rest);
        assert(map_of(updated) =~= map_of(pairs).insert(key, value));
    } else {
        assert forall|i: int, j: int| 0 <= i < j < rest.len() implies (#[trigger] rest[i]).0 != (
        #[trigger] rest[j]).0 by {
            assert(rest[i] == pairs[i]);
            assert(rest[j] == pairs[j]);
        }
        assert(rest[at] == pairs[at]);
        lemma_map_of_update(rest, at, value);
        assert(updated.drop_last() =~= rest.update(at, (key, value)));
        assert(updated.last() == pairs.last());
        assert(pairs[at].0 != pairs[pairs.len() - 1].0);
        assert(map_of(updated) =~= map_of(pairs).insert(key, value));
    }
}

/// A map from strings to strings.
#[derive(Debug, PartialEq, Eq)]
pub struct StringMap {
    entries: Vec<Entry>,
}

impl DeepView for StringMap {
    type V = Map<Seq<char>, Seq<char>>;

    open spec fn deep_view(&self) -> Map<Seq<char>, Seq<char>> {
        map_of(self.pairs())
    }
}

impl StringMap {
    #[verifier::type_invariant]
    spec fn well_formed(self) -> bool {
        distinct_keys(self.entries.deep_view())
    }

    /// The entries of the map, in the order in which their keys were first
    /// inserted.
    pub closed spec fn pairs(self) -> Seq<(Seq<char>, Seq<char>)> {
        self.entries.deep_view()
    }

    /// The empty map.
    pub fn new() -> (out: StringMap)
        ensures
            out.pairs() == Seq::<(Seq<char>, Seq<char>)>::empty(),
            out.deep_view() == Map::<Seq<char>, Seq<char>>::empty(),
    {
        let out = StringMap { entries: Vec::new() };
        assert(out.entries.deep_view() =~= Seq::empty());
        out
    }

    /// The index of the entry with the key `key`, or the number of entries
    /// where there is none.
    fn position(&self, key: &str) -> (out: usize)
        ensures
            out == index_of_key(self.pairs(), key@),
            out <= self.entries.len(),
            forall|i: int| 0 <= i < out ==> (#[trigger] self.pairs()[i]).0 != key@,
            out < self.entries.len() ==> self.pairs()[out as int].0 == key@,
    {
        let mut i: usize = 0;
        while i < self.entries.len()
            invariant
                i <= self.entries.len(),
                forall|j: int| 0 <= j < i ==> (#[trigger] self.entries.deep_view()[j]).0 != key@,
            decreases self.entries.len() - i,
        {
            if self.entries[i].key.as_str().eq(key) {
                proof {
                    lemma_index_of_key(self.pairs(), key@, i as int);
                }
                return i;
            }
            i += 1;
        }
        proof {
            lemma_index_of_key(self.pairs(), key@, i as int);
        }
        i
    }

    /// Sets `key` to `value`, replacing whatever the map held for `key`.
    pub fn insert(&mut self, key: String, value: String)
        ensures
            final(self).pairs() == with_pair(old(self).pairs(), key@, value@),
            final(self).deep_view() == old(self).deep_view().insert(key@, value@),
    {
        proof {
            use_type_invariant(&*self);
        }
        let at = self.position(key.as_str());
        let ghost before = self.pairs();
        let mut entries: Vec<Entry> = Vec::new();
        std::mem::swap(&mut entries, &mut self.entries);
        if at < entries.len() {
            entries.set(at, Entry { key, value });
            proof {
                assert(entries.deep_view() =~= before.update(at as int, (key@, value@)));
                lemma_map_of_update(before, at as int, value@);
            }
        } else {
            entries.push(Entry { key, value });
            proof {
                let after = before.push((key@, value@));
                assert(entries.deep_view() =~= after);
                assert(after.drop_last() =~= before);
                assert forall|i: int, j: int| 0 <= i < j < after.len() implies (
                #[trigger] after[i]).0 != (#[trigger] after[j]).0 by {
                    if j < before.len() {
                        assert(before[i].0 != before[j].0);
                    } else {
                        assert(before[i].0 != key@);
                    }
                }
            }
        }
        self.entries = entries;
    }

    /// The value held for `key`, if any.
    pub fn get(&self, key: &str) -> (out: Option<&String>)
        ensures
            out is Some == self.deep_view().contains_key(key@),
            out is Some ==> out->0@ == self.deep_view()[key@],
    {
        proof {
            use_type_invariant(self);
        }
        let at = self.position(key);
        if at < self.entries.len() {
            proof {
                let pairs = self.pairs();
                assert forall|i: int| at < i < pairs.len() implies (#[trigger] pairs[i]).0 != key@ by {
                    assert(pairs[at as int].0 != pairs[i].0);
                }
                lemma_map_of_last_match(pairs, key@, at as int);
            }
            Some(&self.entries[at].value)
        } else {
            proof {
                lemma_map_of_absent(self.pairs(), key@);
            }
            None
        }
    }

    /// Whether the map holds exactly `value` for `key`.
    pub fn has(&self, key: &str, value: &str) -> (out: bool)
        ensures
            out == (self.deep_view().contains_key(key@) && self.deep_view()[key@] == value@),
    {
        match self.get(key) {
            Some(v) => v.as_str().eq(value),
            None => false,
        }
    }

    /// The entries of the map, in the order in which their keys were first
    /// inserted. No two of them have the same key.
    pub fn entries(&self) -> (out: &Vec<Entry>)
        ensures
            out.deep_view() == self.pairs(),
            distinct_keys(self.pairs()),
    {
        proof {
            use_type_invariant(self);
        }
        &self.entries
    }

    /// The entries of the map, in the order in which their keys were first
    /// inserted. No two of them have the same key.
    pub fn into_entries(self) -> (out: Vec<Entry>)
        ensures
            out.deep_view() == self.pairs(),
            distinct_keys(self.pairs()),
    {
        proof {
            use_type_invariant(&self);
        }
        self.entries
    }
}

impl Clone for Entry {
    fn clone(&self) -> (out: Self)
        ensures
            out == *self,
    {
        Entry { key: self.key.clone(), value: self.value.clone() }
    }
}

impl Clone for StringMap {
    fn clone(&self) -> (out: Self)
        ensures
            out.pairs() == self.pairs(),
            out.deep_view() == self.deep_view(),
    {
        proof {
            use_type_invariant(self);
        }
        let entries = self.entries.clone();
        assert(entries@ =~= self.entries@);
        assert(entries.deep_view() =~= self.entries.deep_view());
        StringMap { entries }
    }
}

} // verus!
