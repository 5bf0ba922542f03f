//! A map keyed by identifiers, and the list of its entries in key order.
use std::collections::BTreeMap;
use vstd::prelude::*;

verus! {

/// A map from identifier keys to values, walked in ascending key order.
pub struct IdMap<V> {
    entries: BTreeMap<u128, V>,
}

/// Keys ascend strictly, so none occurs twice.
pub open spec fn keys_ascend<V>(s: Seq<(u128, V)>) -> bool {
    forall|i: int, j: int| 0 <= i < j < s.len() ==> (#[trigger] s[i]).0 < (#[trigger] s[j]).0
}

/// Whether a key occurs.
pub open spec fn has_key<V>(s: Seq<(u128, V)>, key: u128) -> bool {
    exists|i: int| 0 <= i < s.len() && (#[trigger] s[i]).0 == key
}

/// Where a key occurs.
pub open spec fn key_index<V>(s: Seq<(u128, V)>, key: u128) -> int {
    choose|i: int| 0 <= i < s.len() && (#[trigger] s[i]).0 == key
}

/// The map that a list of entries stands for.
pub open spec fn entries_map<V>(s: Seq<(u128, V)>) -> Map<u128, V> {
    Map::new(|key: u128| has_key(s, key), |key: u128| s[key_index(s, key)].1)
}

/// Each entry is found under its key.
pub proof fn lemma_entry<V>(s: Seq<(u128, V)>, i: int)
    requires
        keys_ascend(s),
        0 <= i < s.len(),
    ensures
        entries_map(s).contains_key(s[i].0),
        entries_map(s)[s[i].0] == s[i].1,
{
    let key = s[i].0;
    assert(has_key(s, key));
    let j = key_index(s, key);
    assert(0 <= j < s.len() && s[j].0 == key);
    if i < j {
        assert(s[i].0 < s[j].0);
    } else if j < i {
        assert(s[j].0 < s[i].0);
    }
}

/// Every key of the map belongs to an entry.
pub proof fn lemma_key_entry<V>(s: Seq<(u128, V)>, key: u128)
    requires
        keys_ascend(s),
        entries_map(s).contains_key(key),
    ensures
        0 <= key_index(s, key) < s.len(),
        s[key_index(s, key)] == (key, entries_map(s)[key]),
{
    assert(has_key(s, key));
}

/// A map has as many keys as it has entries.
pub proof fn lemma_len<V>(s: Seq<(u128, V)>)
    requires
        keys_ascend(s),
    ensures
        entries_map(s).dom().finite(),
        entries_map(s).len() == s.len(),
    decreases s.len(),
{
    if s.len() == 0 {
        assert(entries_map(s).dom() =~= Set::empty());
    } else {
        let front = s.drop_last();
        let key = s.last().0;
        lemma_len(front);
        assert forall|k: u128| entries_map(s).dom().contains(k) == entries_map(front).dom().insert(
            key,
        ).contains(k) by {
            if has_key(s, k) {
                let i = key_index(s, k);
                if i < front.len() {
                    assert(front[i] == s[i]);
                }
            }
            if has_key(front, k) {
                let i = key_index(front, k);
                assert(s[i] == front[i]);
            }
            assert(s[s.len() - 1] == s.last());
        }
        assert(entries_map(s).dom() =~= entries_map(front).dom().insert(key));
        assert(!entries_map(front).dom().contains(key)) by {
            if has_key(front, key) {
                let i = key_index(front, key);
                assert(s[i].0 < s[s.len() - 1].0);
            }
        }
    }
}

/// The entries of a map in ascending key order.
pub open spec fn listing<V>(m: Map<u128, V>) -> Seq<(u128, V)> {
    choose|s: Seq<(u128, V)>| #[trigger] keys_ascend(s) && entries_map(s) == m
}

/// A finite map has a listing.
pub proof fn lemma_listing<V>(m: Map<u128, V>)
    requires
        m.dom().finite(),
    ensures
        keys_ascend(listing(m)),
        entries_map(listing(m)) == m,
{
    lemma_listing_exists(m);
}

proof fn lemma_listing_exists<V>(m: Map<u128, V>)
    requires
        m.dom().finite(),
    ensures
        exists|s: Seq<(u128, V)>| #[trigger] keys_ascend(s) && entries_map(s) == m,
    decreases m.dom().len(),
{
    if m.dom().is_empty() {
        let s = Seq::<(u128, V)>::empty();
        assert(keys_ascend(s));
        assert(entries_map(s) =~= m);
    } else {
        let key = m.dom().choose();
        let rest = m.remove(key);
        assert(rest.dom() =~= m.dom().remove(key));
        lemma_listing_exists(rest);
        let s = choose|s: Seq<(u128, V)>| #[trigger] keys_ascend(s) && entries_map(s) == rest;
        let at = lemma_place(s, key);
        lemma_inserted(s, at, key, m[key]);
        assert(entries_map(s.insert(at, (key, m[key]))) =~= m);
    }
}

/// Where a new key belongs.
proof fn lemma_place<V>(s: Seq<(u128, V)>, key: u128) -> (at: int)
    requires
        keys_ascend(s),
        !entries_map(s).contains_key(key),
    ensures
        0 <= at <= s.len(),
        forall|i: int| 0 <= i < at ==> (#[trigger] s[i]).0 < key,
        forall|i: int| at <= i < s.len() ==> key < (#[trigger] s[i]).0,
    decreases s.len(),
{
    if s.len() == 0 {
        0
    } else {
        let front = s.drop_last();
        let last = s.len() - 1;
        lemma_entry(s, last);
        if s[last].0 < key {
            s.len() as int
        } else {
            assert(!entries_map(front).contains_key(key)) by {
                if has_key(front, key) {
                    let i = key_index(front, key);
                    assert(s[i].0 == key);
                }
            }
            let at = lemma_place(front, key);
            assert forall|i: int| 0 <= i < at implies (#[trigger] s[i]).0 < key by {
                assert(s[i] == front[i]);
            }
            assert forall|i: int| at <= i < s.len() implies key < (#[trigger] s[i]).0 by {
                if i < last {
                    assert(s[i] == front[i]);
                }
            }
            at
        }
    }
}

/// A map has one listing.
pub proof fn lemma_one_listing<V>(a: Seq<(u128, V)>, b: Seq<(u128, V)>)
    requires
        keys_ascend(a),
        keys_ascend(b),
        entries_map(a) == entries_map(b),
    ensures
        a == b,
    decreases a.len(),
{
    lemma_len(a);
    lemma_len(b);
    if a.len() > 0 {
        let last = a.len() - 1;
        lemma_entry(a, last);
        lemma_entry(b, last);
        lemma_key_entry(b, a[last].0);
        lemma_key_entry(a, b[last].0);
        let in_b = key_index(b, a[last].0);
        let in_a = key_index(a, b[last].0);
        assert(a[last].0 == b[last].0) by {
            if in_b < last {
                assert(b[in_b].0 < b[last].0);
            }
            if in_a < last {
                assert(a[in_a].0 < a[last].0);
            }
        }
        lemma_removed(a, last);
        lemma_removed(b, last);
        assert(a.remove(last) =~= a.drop_last());
        assert(b.remove(last) =~= b.drop_last());
        lemma_one_listing(a.drop_last(), b.drop_last());
        assert(a =~= a.drop_last().push(a[last]));
        assert(b =~= b.drop_last().push(b[last]));
    }
}

/// The entries that a list of flags selects.
pub open spec fn selected<V>(s: Seq<(u128, V)>, keep: Seq<bool>) -> Map<u128, V> {
    Map::new(
        |key: u128| has_key(s, key) && keep[key_index(s, key)],
        |key: u128| s[key_index(s, key)].1,
    )
}

impl<V> View for IdMap<V> {
    type V = Map<u128, V>;

    open spec fn view(&self) -> Map<u128, V> {
        entries_map(self.listed())
    }
}

impl<V> IdMap<V> {
    /// The entries in ascending key order.
    pub closed spec fn listed(&self) -> Seq<(u128, V)> {
        listing(self.entries@)
    }

    pub open spec fn wf(&self) -> bool {
        keys_ascend(self.listed())
    }

    /// The listing is that of the map held.
    proof fn lemma_held(&self)
        ensures
            self.wf(),
            self@ == self.entries@,
    {
        lemma_listing(self.entries@);
    }

    /// A map has finitely many keys.
    pub proof fn lemma_finite(&self)
        requires
            self.wf(),
        ensures
            self@.dom().finite(),
            self@.len() == self.listed().len(),
    {
        lemma_len(self.listed());
    }

    pub fn new() -> (map: Self)
        ensures
            map.wf(),
            map.listed() == Seq::<(u128, V)>::empty(),
            map@ == Map::<u128, V>::empty(),
    {
        let map: Self = IdMap { entries: BTreeMap::new() };
        proof {
            map.lemma_held();
            lemma_len(map.listed());
        }
        map
    }

    pub fn len(&self) -> (len: usize)
        requires
            self.wf(),
        ensures
            len == self.listed().len(),
            len == self@.len(),
            self@.dom().finite(),
    {
        proof {
            self.lemma_held();
            lemma_len(self.listed());
        }
        self.entries.len()
    }

    /// The entries in ascending key order.
    pub fn entries(&self) -> (list: Vec<(u128, V)>) where V: Copy
        requires
            self.wf(),
        ensures
            list@ == self.listed(),
            list@.len() == self@.len(),
    {
        let mut list: Vec<(u128, V)> = Vec::new();
        for entry in walk: self.entries.iter()
            invariant
                list@.len() == walk.index(),
                walk.seq().len() == self.entries@.len(),
                vstd::std_specs::btree::increasing_seq(
                    walk.seq().map_values(|one: (&u128, &V)| *one.0),
                ),
                forall|i: int|
                    0 <= i < walk.seq().len() ==> self.entries@.contains_key(
                        *(#[trigger] walk.seq()[i]).0,
                    ) && self.entries@[*walk.seq()[i].0] == *walk.seq()[i].1,
                forall|i: int|
                    0 <= i < list@.len() ==> #[trigger] list@[i] == (
                        *walk.seq()[i].0,
                        *walk.seq()[i].1,
                    ),
                keys_ascend(list@),
                forall|i: int|
                    0 <= i < list@.len() ==> self.entries@.contains_key((#[trigger] list@[i]).0)
                        && self.entries@[list@[i].0] == list@[i].1,
        {
            let ghost keys = walk.seq().map_values(|one: (&u128, &V)| *one.0);
            list.push((*entry.0, *entry.1));
            assert forall|i: int, j: int| 0 <= i < j < list@.len() implies (#[trigger] list@[i]).0
                < (#[trigger] list@[j]).0 by {
                assert(keys[i] == list@[i].0 && keys[j] == list@[j].0);
                assert(vstd::std_specs::cmp::OrdSpec::cmp_spec(&keys[i], &keys[j]) is Less);
            }
        }
        proof {
            self.lemma_held();
            lemma_len(list@);
            assert forall|k: u128| #[trigger] entries_map(list@).contains_key(
                k,
            ) implies self.entries@.contains_key(k) && self.entries@[k] == entries_map(list@)[k] by {
                lemma_key_entry(list@, k);
            }
            vstd::set_lib::lemma_subset_equality(entries_map(list@).dom(), self.entries@.dom());
            assert(entries_map(list@) =~= self.entries@);
            lemma_one_listing(list@, self.listed());
        }
        list
    }

    /// A map of the same entries.
    pub fn copied(&self) -> (copy: Self) where V: Copy
        requires
            self.wf(),
        ensures
            copy.wf(),
            copy@ == self@,
    {
        let copy: Self = IdMap { entries: self.entries.clone() };
        proof {
            self.lemma_held();
            copy.lemma_held();
        }
        copy
    }

    pub fn get(&self, key: u128) -> (value: Option<&V>)
        requires
            self.wf(),
        ensures
            match value {
                Some(found) => self@.contains_key(key) && *found == self@[key],
                None => !self@.contains_key(key),
            },
    {
        proof {
            self.lemma_held();
        }
        self.entries.get(&key)
    }

    pub fn contains(&self, key: u128) -> (found: bool)
        requires
            self.wf(),
        ensures
            found == self@.contains_key(key),
    {
        proof {
            self.lemma_held();
        }
        self.entries.contains_key(&key)
    }

    pub fn insert(&mut self, key: u128, value: V)
        requires
            old(self).wf(),
        ensures
            final(self).wf(),
            final(self)@ == old(self)@.insert(key, value),
    {
        proof {
            self.lemma_held();
        }
        let _replaced = self.entries.insert(key, value);
        proof {
            self.lemma_held();
        }
    }

    /// A map of the entries whose flag is set.
    pub fn select(&self, keep: &Vec<bool>) -> (kept: Self) where V: Copy
        requires
            self.wf(),
            keep@.len() == self.listed().len(),
        ensures
            kept.wf(),
            kept@ == selected(self.listed(), keep@),
            kept@.dom().finite(),
            kept@.len() <= self@.len(),
    {
        let list = self.entries();
        let ghost all = self.listed();
        let mut kept: Self = IdMap::new();
        let mut i: usize = 0;
        assert(selected(all.take(0), keep@) =~= kept@);
        while i < list.len()
            invariant
                self.wf(),
                list@ == all,
                all == self.listed(),
                keep@.len() == all.len(),
                kept.wf(),
                i <= all.len(),
                kept@ == selected(all.take(i as int), keep@),
            decreases all.len() - i,
        {
            let (key, value) = list[i];
            let ghost shorter = all.take(i as int);
            let ghost longer = all.take(i + 1);
            proof {
                assert(keys_ascend(shorter) && keys_ascend(longer));
                lemma_longer(all, i as int);
            }
            if keep[i] {
                kept.insert(key, value);
            }
            i = i + 1;
            assert(kept@ =~= selected(longer, keep@));
        }
        proof {
            assert(all.take(i as int) =~= all);
            self.lemma_finite();
            kept.lemma_finite();
            assert(kept@.dom().subset_of(self@.dom()));
            vstd::set_lib::lemma_len_subset(kept@.dom(), self@.dom());
        }
        kept
    }

    pub fn remove(&mut self, key: u128) -> (value: Option<V>)
        requires
            old(self).wf(),
        ensures
            final(self).wf(),
            final(self)@ == old(self)@.remove(key),
            match value {
                Some(found) => old(self)@.contains_key(key) && found == old(self)@[key],
                None => !old(self)@.contains_key(key),
            },
    {
        proof {
            self.lemma_held();
        }
        let removed = self.entries.remove(&key);
        proof {
            self.lemma_held();
        }
        removed
    }
}

/// One entry more adds its key and leaves the others where they are.
proof fn lemma_longer<V>(all: Seq<(u128, V)>, i: int)
    requires
        keys_ascend(all),
        0 <= i < all.len(),
    ensures
        ({
            let key = all[i].0;
            let shorter = all.take(i);
            let longer = all.take(i + 1);
            &&& !has_key(shorter, key)
            &&& has_key(longer, key)
            &&& key_index(longer, key) == i
            &&& forall|k: u128|
                #![trigger has_key(longer, k)]
                #![trigger has_key(shorter, k)]
                k != key ==> has_key(longer, k) == has_key(shorter, k) && (has_key(shorter, k)
                    ==> key_index(longer, k) == key_index(shorter, k))
        }),
{
    let key = all[i].0;
    let shorter = all.take(i);
    let longer = all.take(i + 1);
    assert forall|k: u128|
        k != key implies #[trigger] has_key(longer, k) == #[trigger] has_key(shorter, k) && (has_key(
        shorter,
        k,
    ) ==> key_index(longer, k) == key_index(shorter, k)) by {
        if has_key(shorter, k) {
            let at = key_index(shorter, k);
            assert(longer[at] == shorter[at]);
            let other = key_index(longer, k);
            if at < other {
                assert(longer[at].0 < longer[other].0);
            } else if other < at {
                assert(longer[other].0 < longer[at].0);
            }
        }
        if has_key(longer, k) {
            let at = key_index(longer, k);
            assert(shorter[at] == longer[at]);
        }
    }
    assert(longer[i].0 == key);
    let other = key_index(longer, key);
    if other < i {
        assert(longer[other].0 < longer[i].0);
    }
    if has_key(shorter, key) {
        let at = key_index(shorter, key);
        assert(all[at].0 < all[i].0);
    }
}

proof fn lemma_inserted<V>(before: Seq<(u128, V)>, at: int, key: u128, value: V)
    requires
        keys_ascend(before),
        0 <= at <= before.len(),
        forall|i: int| 0 <= i < at ==> (#[trigger] before[i]).0 < key,
        forall|i: int| at <= i < before.len() ==> key < (#[trigger] before[i]).0,
    ensures
        keys_ascend(before.insert(at, (key, value))),
        entries_map(before.insert(at, (key, value))) == entries_map(before).insert(key, value),
{
    let after = before.insert(at, (key, value));
    assert forall|i: int| 0 <= i < after.len() implies #[trigger] after[i] == (if i < at {
        before[i]
    } else if i == at {
        (key, value)
    } else {
        before[i - 1]
    }) by {}
    assert(keys_ascend(after)) by {
        assert forall|i: int, j: int| 0 <= i < j < after.len() implies (#[trigger] after[i]).0 < (
        #[trigger] after[j]).0 by {
            if i < at && j > at {
                assert(before[i].0 < key && key < before[j - 1].0);
            }
        }
    }
    assert forall|k: u128|
        entries_map(after).contains_key(k) == entries_map(before).insert(key, value).contains_key(
            k,
        ) by {
        if has_key(after, k) {
            let i = key_index(after, k);
            if i < at {
                assert(before[i].0 == k);
            } else if i > at {
                assert(before[i - 1].0 == k);
            }
        }
        if has_key(before, k) {
            let i = key_index(before, k);
            if i < at {
                assert(after[i] == before[i]);
            } else {
                assert(after[i + 1] == before[i]);
            }
        }
        assert(after[at].0 == key);
    }
    assert forall|k: u128| entries_map(after).contains_key(k) implies entries_map(after)[k]
        == entries_map(before).insert(key, value)[k] by {
        lemma_key_entry(after, k);
        let i = key_index(after, k);
        if i < at {
            lemma_entry(before, i);
        } else if i > at {
            lemma_entry(before, i - 1);
        }
    }
    assert(entries_map(after) =~= entries_map(before).insert(key, value));
}

proof fn lemma_removed<V>(before: Seq<(u128, V)>, at: int)
    requires
        keys_ascend(before),
        0 <= at < before.len(),
    ensures
        keys_ascend(before.remove(at)),
        entries_map(before.remove(at)) == entries_map(before).remove(before[at].0),
        entries_map(before).contains_key(before[at].0),
        entries_map(before)[before[at].0] == before[at].1,
{
    let after = before.remove(at);
    let key = before[at].0;
    lemma_entry(before, at);
    assert forall|i: int| 0 <= i < after.len() implies #[trigger] after[i] == (if i < at {
        before[i]
    } else {
        before[i + 1]
    }) by {}
    assert forall|k: u128|
        entries_map(after).contains_key(k) == entries_map(before).remove(key).contains_key(k) by {
        if has_key(after, k) {
            let i = key_index(after, k);
            if i < at {
                assert(before[i].0 == k);
                assert(before[i].0 < before[at].0);
            } else {
                assert(before[i + 1].0 == k);
                assert(before[at].0 < before[i + 1].0);
            }
        }
        if has_key(before, k) && k != key {
            let i = key_index(before, k);
            if i < at {
                assert(after[i] == before[i]);
            } else {
                assert(after[i - 1] == before[i]);
            }
        }
    }
    assert forall|k: u128| entries_map(after).contains_key(k) implies entries_map(after)[k]
        == entries_map(before).remove(key)[k] by {
        lemma_key_entry(after, k);
        let i = key_index(after, k);
        if i < at {
            lemma_entry(before, i);
        } else {
            lemma_entry(before, i + 1);
        }
    }
    assert(entries_map(after) =~= entries_map(before).remove(key));
}

} // verus!
