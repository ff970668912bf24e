//! Lookups over lists: what a key stands for, what occurs, and what occurs first.

use vstd::hash_map::StringHashMap;
use vstd::hash_set::StringHashSet;
use vstd::prelude::*;
use vstd::string::*;
use crate::list::{lemma_take_next, push};
use crate::text::Text;

verus! {

/// What `key` stands for in a list of pairs: the first pair that has it decides.
pub open spec fn lookup<V>(pairs: Seq<(Text, V)>, key: Text) -> Option<V>
    decreases pairs.len(),
{
    if pairs.len() == 0 {
        None
    } else if pairs[0].0 == key {
        Some(pairs[0].1)
    } else {
        lookup(pairs.drop_first(), key)
    }
}

/// A pair at the end decides only for a key that has none before it.
pub proof fn lemma_lookup_push<V>(pairs: Seq<(Text, V)>, last: (Text, V), key: Text)
    ensures
        lookup(pairs.push(last), key) == match lookup(pairs, key) {
            Some(value) => Some(value),
            None => if last.0 == key {
                Some(last.1)
            } else {
                None
            },
        },
    decreases pairs.len(),
{
    if pairs.len() == 0 {
        assert(pairs.push(last).drop_first() =~= Seq::empty());
        assert(lookup(pairs.push(last).drop_first(), key) is None);
    } else {
        assert(pairs.push(last).drop_first() =~= pairs.drop_first().push(last));
        lemma_lookup_push(pairs.drop_first(), last, key);
    }
}

/// A key that is found stands in the list, with its value.
pub proof fn lemma_lookup_found<V>(pairs: Seq<(Text, V)>, key: Text) -> (i: int)
    requires
        lookup(pairs, key) is Some,
    ensures
        0 <= i < pairs.len(),
        pairs[i].0 == key,
        lookup(pairs, key) == Some(pairs[i].1),
    decreases pairs.len(),
{
    if pairs[0].0 == key {
        0
    } else {
        lemma_lookup_found(pairs.drop_first(), key) + 1
    }
}

/// A key that stands in the list is found.
pub proof fn lemma_lookup_present<V>(pairs: Seq<(Text, V)>, i: int)
    requires
        0 <= i < pairs.len(),
    ensures
        lookup(pairs, pairs[i].0) is Some,
    decreases pairs.len(),
{
    if pairs[0].0 != pairs[i].0 {
        assert(pairs.drop_first()[i - 1] == pairs[i]);
        lemma_lookup_present(pairs.drop_first(), i - 1);
    }
}

/// The list with only the first occurrence of each item.
pub open spec fn distinct<T>(items: Seq<T>) -> Seq<T>
    decreases items.len(),
{
    if items.len() == 0 {
        Seq::empty()
    } else if distinct(items.drop_last()).contains(items.last()) {
        distinct(items.drop_last())
    } else {
        distinct(items.drop_last()).push(items.last())
    }
}

/// First occurrences: the same items, none of them twice.
pub proof fn lemma_distinct<T>(items: Seq<T>)
    ensures
        distinct(items).no_duplicates(),
        forall|item: T| distinct(items).contains(item) == #[trigger] items.contains(item),
    decreases items.len(),
{
    if items.len() > 0 {
        let before = items.drop_last();
        lemma_distinct(before);
        assert forall|item: T| distinct(items).contains(item) == #[trigger] items.contains(
            item,
        ) by {
            assert(before.push(items.last()) =~= items);
            if items.contains(item) {
                let i = choose|i: int| 0 <= i < items.len() && items[i] == item;
                if i < before.len() {
                    assert(before[i] == item);
                    assert(before.contains(item));
                }
            }
            if before.contains(item) {
                let i = choose|i: int| 0 <= i < before.len() && before[i] == item;
                assert(items[i] == item);
            }
            let d = distinct(before);
            if d.contains(item) {
                let i = choose|i: int| 0 <= i < d.len() && d[i] == item;
                assert(d.push(items.last())[i] == item);
            }
            assert(d.push(items.last())[d.len() as int] == items.last());
            assert(items[items.len() - 1] == items.last());
        }
    }
}

/// Does no key occur twice?
pub open spec fn keys_differ<V>(pairs: Seq<(Text, V)>) -> bool {
    forall|i: int, j: int|
        0 <= i < j < pairs.len() ==> (#[trigger] pairs[i]).0 != (#[trigger] pairs[j]).0
}

/// The list with only the pair that decides for each key.
pub open spec fn keyed<V>(pairs: Seq<(Text, V)>) -> Seq<(Text, V)>
    decreases pairs.len(),
{
    if pairs.len() == 0 {
        Seq::empty()
    } else if lookup(keyed(pairs.drop_last()), pairs.last().0) is Some {
        keyed(pairs.drop_last())
    } else {
        keyed(pairs.drop_last()).push(pairs.last())
    }
}

/// Deciding pairs: each key once, and nothing is found that was not, or otherwise.
pub proof fn lemma_keyed<V>(pairs: Seq<(Text, V)>)
    ensures
        keys_differ(keyed(pairs)),
        forall|key: Text| #[trigger] lookup(keyed(pairs), key) == lookup(pairs, key),
    decreases pairs.len(),
{
    if pairs.len() > 0 {
        let before = pairs.drop_last();
        let last = pairs.last();
        lemma_keyed(before);
        assert(before.push(last) =~= pairs);
        assert forall|key: Text| #[trigger] lookup(keyed(pairs), key) == lookup(pairs, key) by {
            lemma_lookup_push(before, last, key);
            lemma_lookup_push(keyed(before), last, key);
            assert(lookup(keyed(before), key) == lookup(before, key));
        }
        if lookup(keyed(before), last.0) is None {
            assert forall|i: int| 0 <= i < keyed(before).len() implies (#[trigger] keyed(
                before,
            )[i]).0 != last.0 by {
                lemma_lookup_present(keyed(before), i);
            }
        }
    }
}

/// A map from texts to texts.
pub struct TextMap {
    map: StringHashMap<String>,
    keys: Vec<String>,
}

impl View for TextMap {
    type V = Map<Text, Text>;

    closed spec fn view(&self) -> Map<Text, Text> {
        self.map@.map_values(|value: String| value@)
    }
}

impl TextMap {
    #[verifier::type_invariant]
    spec fn lists_its_keys(self) -> bool {
        forall|key: Text| #[trigger]
            self.map@.contains_key(key) ==> self.keys.deep_view().contains(key)
    }

    /// A map of nothing.
    pub fn new() -> (out: TextMap)
        ensures
            out@ == Map::<Text, Text>::empty(),
    {
        let out = TextMap { map: StringHashMap::new(), keys: Vec::new() };
        assert(out@ =~= Map::<Text, Text>::empty());
        out
    }

    /// Does the map hold nothing?
    pub fn is_empty(&self) -> (out: bool)
        ensures
            out == self@.is_empty(),
    {
        assert(self@.dom() =~= self.map@.dom());
        self.map.is_empty()
    }

    /// Does `key` stand for anything?
    pub fn contains_key(&self, key: &str) -> (out: bool)
        ensures
            out == self@.contains_key(key@),
    {
        self.map.contains_key(key)
    }

    /// What `key` stands for.
    pub fn get(&self, key: &str) -> (out: Option<&String>)
        ensures
            match out {
                Some(value) => self@.contains_key(key@) && value@ == self@[key@],
                None => !self@.contains_key(key@),
            },
    {
        self.map.get(key)
    }

    /// Let `key` stand for `value`.
    pub fn insert(&mut self, key: String, value: String)
        ensures
            final(self)@ == old(self)@.insert(key@, value@),
    {
        let mut taken = TextMap::new();
        std::mem::swap(self, &mut taken);
        proof {
            use_type_invariant(&taken);
        }
        let TextMap { mut map, mut keys } = taken;
        let ghost before = map@;
        let ghost listed = keys.deep_view();
        push(&mut keys, key.clone());
        map.insert(key, value);
        proof {
            lemma_contains_push(listed, key@);
            assert(map@.map_values(|value: String| value@) =~= before.map_values(
                |value: String| value@,
            ).insert(key@, value@));
        }
        *self = TextMap { map, keys };
    }
}

impl Clone for TextMap {
    fn clone(&self) -> (out: Self)
        ensures
            out@ == self@,
    {
        proof {
            use_type_invariant(self);
        }
        let ghost all = self.keys.deep_view();
        let mut out = TextMap::new();
        let mut i: usize = 0;
        while i < self.keys.len()
            invariant
                all == self.keys.deep_view(),
                i <= self.keys.len(),
                forall|key: Text| #[trigger]
                    out@.contains_key(key) ==> self@.contains_key(key) && out@[key] == self@[key],
                forall|key: Text|
                    self@.contains_key(key) && all.take(i as int).contains(key)
                        ==> #[trigger] out@.contains_key(key),
            decreases self.keys.len() - i,
        {
            proof {
                lemma_take_next(all, i as int);
                lemma_contains_push(all.take(i as int), all[i as int]);
            }
            if let Some(value) = self.get(self.keys[i].as_str()) {
                out.insert(self.keys[i].clone(), value.clone());
            }
            i = i + 1;
        }
        assert(all.take(i as int) =~= all);
        assert forall|key: Text| self@.contains_key(key) implies #[trigger] out@.contains_key(
            key,
        ) by {
            assert(self.map@.contains_key(key));
        }
        assert(out@ =~= self@);
        out
    }
}

/// The set of the texts in a list.
pub fn set_of(items: &Vec<String>) -> (out: StringHashSet)
    ensures
        forall|item: Text| #[trigger] out@.contains(item) == items.deep_view().contains(item),
{
    let mut out = StringHashSet::new();
    let mut i: usize = 0;
    let ghost all = items.deep_view();
    while i < items.len()
        invariant
            all == items.deep_view(),
            i <= items.len(),
            forall|item: Text| #[trigger] out@.contains(item) == all.take(i as int).contains(item),
        decreases items.len() - i,
    {
        out.insert(items[i].clone());
        proof {
            lemma_take_next(all, i as int);
            lemma_contains_push(all.take(i as int), all[i as int]);
        }
        i = i + 1;
    }
    assert(all.take(i as int) =~= all);
    out
}

/// What a list contains once an item is appended.
pub proof fn lemma_contains_push<T>(items: Seq<T>, last: T)
    ensures
        forall|item: T| #[trigger] items.push(last).contains(item) == (items.contains(item) || item
            == last),
{
    assert forall|item: T| #[trigger] items.push(last).contains(item) == (items.contains(item)
        || item == last) by {
        let more = items.push(last);
        if items.contains(item) {
            let i = choose|i: int| 0 <= i < items.len() && items[i] == item;
            assert(more[i] == item);
        }
        assert(more[items.len() as int] == last);
        if more.contains(item) {
            let i = choose|i: int| 0 <= i < more.len() && more[i] == item;
            assert(i < items.len() ==> items[i] == item);
        }
    }
}

/// An index of a list of pairs: where the pair stands that decides for a key.
pub fn index_of<V: DeepView>(pairs: &Vec<(String, V)>) -> (out: StringHashMap<usize>)
    ensures
        indexes(out, pairs),
{
    let mut out: StringHashMap<usize> = StringHashMap::new();
    let mut i: usize = 0;
    let ghost all = pairs.deep_view();
    while i < pairs.len()
        invariant
            all == pairs.deep_view(),
            i <= pairs.len(),
            forall|key: Text| #[trigger] out@.contains_key(key) == (lookup(all.take(i as int), key)
                is Some),
            forall|key: Text| #[trigger]
                out@.contains_key(key) ==> 0 <= out@[key] < i && lookup(all.take(i as int), key)
                    == Some(all[out@[key] as int].1),
        decreases pairs.len() - i,
    {
        proof {
            lemma_take_next(all, i as int);
            assert(all[i as int] == pairs[i as int].deep_view());
            assert forall|key: Text| lookup(all.take(i + 1), key) == match #[trigger] lookup(
                all.take(i as int),
                key,
            ) {
                Some(value) => Some(value),
                None => if all[i as int].0 == key {
                    Some(all[i as int].1)
                } else {
                    None
                },
            } by {
                lemma_lookup_push(all.take(i as int), all[i as int], key);
            }
        }
        if !out.contains_key(pairs[i].0.as_str()) {
            out.insert(pairs[i].0.clone(), i);
        }
        i = i + 1;
    }
    assert(all.take(i as int) =~= all);
    out
}

/// Is `index` an index of `pairs`?
pub open spec fn indexes<V: DeepView>(
    index: StringHashMap<usize>,
    pairs: &Vec<(String, V)>,
) -> bool {
    forall|key: Text| #[trigger]
        index@.contains_key(key) == (lookup(pairs.deep_view(), key) is Some) && (index@.contains_key(
            key,
        ) ==> index@[key] < pairs.len() && lookup(pairs.deep_view(), key) == Some(
            pairs.deep_view()[index@[key] as int].1,
        ))
}

/// What `key` stands for, by an index.
pub fn find<'a, V: DeepView>(
    index: &StringHashMap<usize>,
    pairs: &'a Vec<(String, V)>,
    key: &str,
) -> (out: Option<&'a V>)
    requires
        indexes(*index, pairs),
    ensures
        match out {
            Some(value) => lookup(pairs.deep_view(), key@) == Some(value.deep_view()),
            None => lookup(pairs.deep_view(), key@) is None,
        },
{
    match index.get(key) {
        Some(i) => {
            assert(pairs.deep_view()[*i as int] == pairs[*i as int].deep_view());
            Some(&pairs[*i].1)
        },
        None => None,
    }
}

/// A list of which each item is kept once, where it occurs first.
pub fn push_distinct(list: &mut Vec<String>, seen: &mut StringHashSet, item: &String)
    requires
        forall|t: Text| #[trigger] old(seen)@.contains(t) == old(list).deep_view().contains(t),
    ensures
        forall|t: Text| #[trigger] final(seen)@.contains(t) == final(list).deep_view().contains(t),
        final(list).deep_view() == if old(list).deep_view().contains(item@) {
            old(list).deep_view()
        } else {
            old(list).deep_view().push(item@)
        },
{
    let ghost before = list.deep_view();
    if !seen.contains(item.as_str()) {
        seen.insert(item.clone());
        push(list, item.clone());
        proof {
            lemma_contains_push(before, item@);
        }
    }
}

} // verus!
