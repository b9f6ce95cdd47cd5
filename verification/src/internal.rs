//! The registry abstraction that every builder shares: a map from a key of
//! some key space to a string, in which no key occurs twice.

use itertools::Itertools;
use vstd::prelude::*;
use vstd::seq_lib::to_multiset_contains;
use vstd::seq_lib::to_multiset_len;

use crate::document::render_text;
use crate::document::text_block;
use crate::error::DeviceInfoError;
use crate::key::ComponentKey;
use crate::order::is_key_order;
use crate::order::lemma_key_order_unique;
use crate::order::lemma_ordered_keys;
use crate::order::listing;
use crate::order::ordered_keys;
use crate::order::ordered_pairs;
use crate::string_tools::same_text;

verus! {

/// The map that a sequence of entries stands for: each entry binds its key,
/// a later entry replacing an earlier one with the same key.
pub open spec fn model_of<KT>(items: Seq<(KT, Seq<char>)>) -> Map<KT, Seq<char>>
    decreases items.len(),
{
    if items.len() == 0 {
        Map::empty()
    } else {
        model_of(items.drop_last()).insert(items.last().0, items.last().1)
    }
}

/// No two entries of `items` have the same key.
pub open spec fn distinct_keys<KT>(items: Seq<(KT, Seq<char>)>) -> bool {
    forall|i: int, j: int|
        0 <= i < j < items.len() ==> (#[trigger] items[i]).0 != (#[trigger] items[j]).0
}

/// The entries of a vector, each value as its text.
pub open spec fn text_pairs<KT>(entries: Seq<(KT, String)>) -> Seq<(KT, Seq<char>)> {
    entries.map_values(|e: (KT, String)| (e.0, e.1@))
}

/// The map of a sequence of entries has the sequence's keys for its domain,
/// and where no key repeats it binds each key to the value beside it.
pub proof fn lemma_model_of<KT>(items: Seq<(KT, Seq<char>)>)
    ensures
        model_of(items).dom().finite(),
        forall|k: KT|
            model_of(items).contains_key(k) <==> exists|i: int|
                0 <= i < items.len() && (#[trigger] items[i]).0 == k,
        distinct_keys(items) ==> forall|i: int|
            0 <= i < items.len() ==> model_of(items)[(#[trigger] items[i]).0] == items[i].1,
    decreases items.len(),
{
    if items.len() > 0 {
        let head = items.drop_last();
        let last = items.last();
        lemma_model_of(head);
        assert forall|k: KT|
            model_of(items).contains_key(k) <==> exists|i: int|
                0 <= i < items.len() && (#[trigger] items[i]).0 == k by {
            if model_of(items).contains_key(k) {
                if k == last.0 {
                    assert(items[items.len() - 1].0 == k);
                } else {
                    let i = choose|i: int| 0 <= i < head.len() && (#[trigger] head[i]).0 == k;
                    assert(items[i].0 == k);
                }
            }
            if exists|i: int| 0 <= i < items.len() && (#[trigger] items[i]).0 == k {
                let i = choose|i: int| 0 <= i < items.len() && (#[trigger] items[i]).0 == k;
                if i < head.len() {
                    assert(head[i].0 == k);
                }
            }
        }
        if distinct_keys(items) {
            assert(distinct_keys(head)) by {
                assert forall|i: int, j: int| 0 <= i < j < head.len() implies (#[trigger] head[i]).0
                    != (#[trigger] head[j]).0 by {
                    assert(items[i].0 != items[j].0);
                }
            }
            assert forall|i: int| 0 <= i < items.len() implies model_of(items)[(
            #[trigger] items[i]).0] == items[i].1 by {
                if i < head.len() {
                    assert(items[i].0 != items[items.len() - 1].0);
                    assert(head[i] == items[i]);
                }
            }
        }
    }
}

/// The entries of a vector of string pairs, each string as its text.
pub open spec fn string_pairs(entries: Seq<(String, String)>) -> Seq<(Seq<char>, Seq<char>)> {
    entries.map_values(|e: (String, String)| (e.0@, e.1@))
}

/// `itertools::Itertools::sorted_by_key` on pairs of numbers, the key being
/// the first number of a pair. What comes back holds the pairs of `items`,
/// each as often as `items` holds it, and the first numbers never descend.
#[verifier::external_body]
fn sorted_by_rank(items: Vec<(u8, usize)>) -> (sorted: Vec<(u8, usize)>)
    ensures
        sorted@.to_multiset() == items@.to_multiset(),
        forall|i: int, j: int| 0 <= i < j < sorted.len() ==> sorted[i].0 <= sorted[j].0,
{
    items.into_iter().sorted_by_key(|item| item.0).collect()
}

/// Entries tagged with rank and place, once sorted by rank, name the entries
/// in the order of their keys.
proof fn lemma_sorted_tags<KT: ComponentKey>(
    items: Seq<(KT, Seq<char>)>,
    tagged: Seq<(u8, usize)>,
    sorted: Seq<(u8, usize)>,
)
    requires
        distinct_keys(items),
        tagged.len() == items.len(),
        forall|i: int|
            0 <= i < items.len() ==> (#[trigger] tagged[i]).0 as nat == items[i].0.rank()
                && tagged[i].1 == i,
        sorted.to_multiset() == tagged.to_multiset(),
        forall|i: int, j: int| 0 <= i < j < sorted.len() ==> sorted[i].0 <= sorted[j].0,
    ensures
        sorted.len() == items.len(),
        forall|p: int| 0 <= p < sorted.len() ==> (#[trigger] sorted[p]).1 < items.len(),
        Seq::new(sorted.len(), |p: int| items[sorted[p].1 as int]) == ordered_pairs(
            model_of(items),
        ),
{
    let registry = model_of(items);
    lemma_model_of(items);
    to_multiset_len(sorted);
    to_multiset_len(tagged);
    // Each sorted pair is one of the tagged pairs.
    assert forall|p: int| 0 <= p < sorted.len() implies (#[trigger] sorted[p]).1 < items.len()
        && sorted[p].0 as nat == items[sorted[p].1 as int].0.rank() by {
        to_multiset_contains(sorted, sorted[p]);
        to_multiset_contains(tagged, sorted[p]);
        assert(sorted.contains(sorted[p]));
        let i = choose|i: int| 0 <= i < tagged.len() && tagged[i] == sorted[p];
        assert(tagged[i].1 == i);
    }
    // No pair comes twice.
    assert(tagged.no_duplicates()) by {
        assert forall|i: int, j: int|
            0 <= i < tagged.len() && 0 <= j < tagged.len() && i != j implies tagged[i]
            != tagged[j] by {
            assert(tagged[i].1 == i && tagged[j].1 == j);
        }
    }
    tagged.lemma_multiset_has_no_duplicates();
    sorted.lemma_multiset_has_no_duplicates_conv();
    let picked = Seq::new(sorted.len(), |p: int| items[sorted[p].1 as int]);
    let order = picked.map_values(|e: (KT, Seq<char>)| e.0);
    assert(is_key_order(order, registry.dom())) by {
        assert forall|p: int, q: int| 0 <= p < q < order.len() implies (#[trigger] order[p]).rank()
            < (#[trigger] order[q]).rank() by {
            assert(sorted[p].0 <= sorted[q].0);
            if order[p].rank() == order[q].rank() {
                KT::lemma_rank_injective(order[p], order[q]);
                let a = sorted[p].1 as int;
                let b = sorted[q].1 as int;
                if a < b {
                    assert(items[a].0 != items[b].0);
                } else if b < a {
                    assert(items[b].0 != items[a].0);
                }
                assert(sorted[p] == sorted[q]);
            }
        }
        assert forall|k: KT| #[trigger] order.contains(k) <==> registry.dom().contains(k) by {
            if order.contains(k) {
                let p = choose|p: int| 0 <= p < order.len() && order[p] == k;
                assert(items[sorted[p].1 as int].0 == k);
            }
            if registry.dom().contains(k) {
                let i = choose|i: int| 0 <= i < items.len() && (#[trigger] items[i]).0 == k;
                to_multiset_contains(tagged, tagged[i]);
                to_multiset_contains(sorted, tagged[i]);
                assert(tagged.contains(tagged[i]));
                let p = choose|p: int| 0 <= p < sorted.len() && sorted[p] == tagged[i];
                assert(order[p] == k);
            }
        }
    }
    lemma_key_order_unique(order, registry.dom());
    assert(picked =~= ordered_pairs(registry)) by {
        assert forall|p: int| 0 <= p < picked.len() implies picked[p] == ordered_pairs(
            registry,
        )[p] by {
            assert(order[p] == picked[p].0);
            assert(registry[items[sorted[p].1 as int].0] == items[sorted[p].1 as int].1);
        }
    }
}

/// What offering `key` with `value` to `registry` comes to: the registry
/// with the new entry where `key` is absent, `DuplicateKey` where it is
/// present, whatever the two values are.
pub open spec fn inserted<KT>(registry: Map<KT, Seq<char>>, key: KT, value: Seq<char>) -> Result<
    Map<KT, Seq<char>>,
    DeviceInfoError,
> {
    if registry.contains_key(key) {
        Err(DeviceInfoError::DuplicateKey)
    } else {
        Ok(registry.insert(key, value))
    }
}

/// A key enters a registry once: after it was inserted, inserting it again
/// fails, with the same value as with any other.
pub proof fn lemma_second_insert_fails<KT>(
    registry: Map<KT, Seq<char>>,
    key: KT,
    first: Seq<char>,
    second: Seq<char>,
)
    ensures
        inserted(registry, key, first) matches Ok(after) ==> inserted(after, key, second) == Err::<
            Map<KT, Seq<char>>,
            DeviceInfoError,
        >(DeviceInfoError::DuplicateKey),
        registry.contains_key(key) ==> inserted(registry, key, second) == Err::<
            Map<KT, Seq<char>>,
            DeviceInfoError,
        >(DeviceInfoError::DuplicateKey),
{
}

/// The order of insertion makes no difference to a registry: two runs of
/// insertions that hold the same entries, each key once, build the same
/// registry.
pub proof fn lemma_order_of_insertion<KT>(first: Seq<(KT, Seq<char>)>, second: Seq<(KT, Seq<char>)>)
    requires
        distinct_keys(first),
        first.to_multiset() == second.to_multiset(),
    ensures
        distinct_keys(second),
        model_of(first) == model_of(second),
{
    assert(first.no_duplicates()) by {
        assert forall|i: int, j: int|
            0 <= i < first.len() && 0 <= j < first.len() && i != j implies first[i]
            != first[j] by {
            if i < j {
                assert(first[i].0 != first[j].0);
            } else {
                assert(first[j].0 != first[i].0);
            }
        }
    }
    first.lemma_multiset_has_no_duplicates();
    second.lemma_multiset_has_no_duplicates_conv();
    // Each entry of one run is an entry of the other.
    assert forall|i: int| 0 <= i < second.len() implies first.contains(#[trigger] second[i]) by {
        to_multiset_contains(first, second[i]);
        to_multiset_contains(second, second[i]);
        assert(second.contains(second[i]));
    }
    assert forall|i: int| 0 <= i < first.len() implies second.contains(#[trigger] first[i]) by {
        to_multiset_contains(first, first[i]);
        to_multiset_contains(second, first[i]);
        assert(first.contains(first[i]));
    }
    assert(distinct_keys(second)) by {
        assert forall|i: int, j: int| 0 <= i < j < second.len() implies (#[trigger] second[i]).0 != (
        #[trigger] second[j]).0 by {
            if second[i].0 == second[j].0 {
                let a = choose|a: int| 0 <= a < first.len() && first[a] == second[i];
                let b = choose|b: int| 0 <= b < first.len() && first[b] == second[j];
                assert(first.contains(second[i]) && first.contains(second[j]));
                if a < b {
                    assert(first[a].0 != first[b].0);
                } else if b < a {
                    assert(first[b].0 != first[a].0);
                }
            }
        }
    }
    lemma_model_of(first);
    lemma_model_of(second);
    assert(model_of(first) =~= model_of(second)) by {
        assert forall|k: KT| model_of(first).contains_key(k) <==> model_of(second).contains_key(
            k,
        ) by {
            if model_of(first).contains_key(k) {
                let i = choose|i: int| 0 <= i < first.len() && (#[trigger] first[i]).0 == k;
                assert(second.contains(first[i]));
                let j = choose|j: int| 0 <= j < second.len() && second[j] == first[i];
                assert(second[j].0 == k);
            }
            if model_of(second).contains_key(k) {
                let j = choose|j: int| 0 <= j < second.len() && (#[trigger] second[j]).0 == k;
                assert(first.contains(second[j]));
                let i = choose|i: int| 0 <= i < first.len() && first[i] == second[j];
                assert(first[i].0 == k);
            }
        }
        assert forall|k: KT| model_of(first).contains_key(k) implies model_of(first)[k]
            == model_of(second)[k] by {
            let i = choose|i: int| 0 <= i < first.len() && (#[trigger] first[i]).0 == k;
            assert(second.contains(first[i]));
            let j = choose|j: int| 0 <= j < second.len() && second[j] == first[i];
            assert(model_of(first)[first[i].0] == first[i].1);
            assert(model_of(second)[second[j].0] == second[j].1);
        }
    }
}

/// A finite map from keys to strings, the store of a registry.
///
/// It holds each key once at most and has no default: a key is present only
/// after it was inserted.
#[derive(Debug)]
pub struct ComponentMap<KT: ComponentKey> {
    entries: Vec<(KT, String)>,
}

impl<KT: ComponentKey> View for ComponentMap<KT> {
    type V = Map<KT, Seq<char>>;

    closed spec fn view(&self) -> Map<KT, Seq<char>> {
        model_of(text_pairs(self.entries@))
    }
}

impl<KT: ComponentKey> ComponentMap<KT> {
    #[verifier::type_invariant]
    spec fn no_key_twice(&self) -> bool {
        distinct_keys(text_pairs(self.entries@))
    }

    /// The view of a store is a finite map.
    pub proof fn lemma_finite(&self)
        ensures
            self@.dom().finite(),
    {
        lemma_model_of(text_pairs(self.entries@));
    }

    /// An empty store.
    pub fn new() -> (map: Self)
        ensures
            map@ == Map::<KT, Seq<char>>::empty(),
    {
        ComponentMap { entries: Vec::new() }
    }

    /// Where `key` stands among the entries, if it is present.
    fn position_of(&self, key: &KT) -> (at: Option<usize>)
        ensures
            match at {
                Some(i) => i < self.entries.len() && self.entries[i as int].0 == *key,
                None => forall|i: int| 0 <= i < self.entries.len() ==> self.entries[i].0 != *key,
            },
    {
        let mut i: usize = 0;
        while i < self.entries.len()
            invariant
                i <= self.entries.len(),
                forall|j: int| 0 <= j < i ==> self.entries[j].0 != *key,
            decreases self.entries.len() - i,
        {
            proof {
                KT::lemma_rank_injective(self.entries[i as int].0, *key);
            }
            if self.entries[i].0.ordinal() == key.ordinal() {
                return Some(i);
            }
            i += 1;
        }
        None
    }

    /// The number of entries.
    pub fn len(&self) -> (count: usize)
        ensures
            count == self@.dom().len(),
    {
        proof {
            use_type_invariant(self);
            let items = text_pairs(self.entries@);
            let keys = items.map_values(|e: (KT, Seq<char>)| e.0);
            lemma_model_of(items);
            assert(keys.no_duplicates()) by {
                assert forall|i: int, j: int|
                    0 <= i < keys.len() && 0 <= j < keys.len() && i != j implies keys[i]
                    != keys[j] by {
                    if i < j {
                        assert(items[i].0 != items[j].0);
                    } else {
                        assert(items[j].0 != items[i].0);
                    }
                }
            }
            keys.unique_seq_to_set();
            assert(keys.to_set() =~= self@.dom()) by {
                assert forall|k: KT| keys.to_set().contains(k) <==> self@.dom().contains(k) by {
                    if keys.contains(k) {
                        let i = choose|i: int| 0 <= i < keys.len() && keys[i] == k;
                        assert(items[i].0 == k);
                    }
                    if self@.dom().contains(k) {
                        let i = choose|i: int| 0 <= i < items.len() && (#[trigger] items[i]).0 == k;
                        assert(keys[i] == k);
                    }
                }
            }
        }
        self.entries.len()
    }

    /// Whether `key` is present.
    pub fn contains_key(&self, key: &KT) -> (found: bool)
        ensures
            found == self@.contains_key(*key),
    {
        proof {
            lemma_model_of(text_pairs(self.entries@));
        }
        let at = self.position_of(key);
        proof {
            let items = text_pairs(self.entries@);
            if let Some(i) = at {
                assert(items[i as int].0 == *key);
            }
        }
        at.is_some()
    }

    /// The value of `key`, if it is present.
    pub fn get(&self, key: &KT) -> (value: Option<&String>)
        ensures
            match value {
                Some(v) => self@.contains_key(*key) && v@ == self@[*key],
                None => !self@.contains_key(*key),
            },
    {
        proof {
            use_type_invariant(self);
            lemma_model_of(text_pairs(self.entries@));
        }
        match self.position_of(key) {
            Some(i) => {
                proof {
                    let items = text_pairs(self.entries@);
                    assert(items[i as int].0 == *key);
                }
                Some(&self.entries[i].1)
            },
            None => None,
        }
    }

    /// The entries in ascending order of key.
    pub fn pairs(&self) -> (pairs: Vec<(KT, String)>)
        ensures
            text_pairs(pairs@) == ordered_pairs(self@),
    {
        proof {
            use_type_invariant(self);
        }
        let count: usize = self.entries.len();
        let mut tagged: Vec<(u8, usize)> = Vec::new();
        let mut i: usize = 0;
        while i < count
            invariant
                i <= count,
                count == self.entries.len(),
                tagged.len() == i,
                forall|j: int|
                    0 <= j < i ==> (#[trigger] tagged[j]).0 as nat == self.entries[j].0.rank()
                        && tagged[j].1 == j,
            decreases count - i,
        {
            tagged.push((self.entries[i].0.ordinal(), i));
            i += 1;
        }
        let sorted = sorted_by_rank(tagged);
        let ghost items = text_pairs(self.entries@);
        proof {
            lemma_sorted_tags(items, tagged@, sorted@);
        }
        let mut pairs: Vec<(KT, String)> = Vec::new();
        let mut p: usize = 0;
        while p < count
            invariant
                p <= count,
                count == self.entries.len(),
                count == sorted.len(),
                items == text_pairs(self.entries@),
                forall|q: int| 0 <= q < sorted.len() ==> (#[trigger] sorted[q]).1 < count,
                pairs.len() == p,
                forall|q: int|
                    0 <= q < p ==> (#[trigger] pairs[q]).0 == items[sorted[q].1 as int].0
                        && pairs[q].1@ == items[sorted[q].1 as int].1,
            decreases count - p,
        {
            let at: usize = sorted[p].1;
            pairs.push((self.entries[at].0, self.entries[at].1.clone()));
            p += 1;
        }
        assert(text_pairs(pairs@) =~= Seq::new(
            sorted.len() as nat,
            |q: int| items[sorted[q].1 as int],
        ));
        pairs
    }

    /// The canonical form of the store: its entries in ascending order of
    /// key, each key as its canonical string. Two stores with the same
    /// entries give the same listing, however they were filled.
    pub fn entries(&self) -> (entries: Vec<(String, String)>)
        ensures
            string_pairs(entries@) == listing(self@),
    {
        let pairs = self.pairs();
        let mut entries: Vec<(String, String)> = Vec::new();
        let mut i: usize = 0;
        while i < pairs.len()
            invariant
                i <= pairs.len(),
                entries.len() == i,
                forall|j: int|
                    0 <= j < i ==> (#[trigger] entries[j]).0@ == pairs[j].0.canonical()
                        && entries[j].1@ == pairs[j].1@,
            decreases pairs.len() - i,
        {
            entries.push((pairs[i].0.to_canonical(), pairs[i].1.clone()));
            i += 1;
        }
        proof {
            let keys = ordered_keys(self@.dom());
            assert(text_pairs(pairs@).len() == keys.len());
            assert forall|j: int| 0 <= j < entries.len() implies string_pairs(entries@)[j]
                == listing(self@)[j] by {
                assert(text_pairs(pairs@)[j] == ordered_pairs(self@)[j]);
                assert(pairs[j].0 == keys[j]);
                assert(pairs[j].1@ == self@[keys[j]]);
            }
            assert(string_pairs(entries@) =~= listing(self@));
        }
        entries
    }

    /// Whether every entry of this store is an entry of `other`.
    pub fn is_part_of(&self, other: &Self) -> (part: bool)
        ensures
            part == self@.submap_of(other@),
    {
        proof {
            use_type_invariant(self);
            lemma_model_of(text_pairs(self.entries@));
        }
        let ghost items = text_pairs(self.entries@);
        let mut i: usize = 0;
        while i < self.entries.len()
            invariant
                i <= self.entries.len(),
                items == text_pairs(self.entries@),
                distinct_keys(items),
                self@ == model_of(items),
                forall|k: KT|
                    model_of(items).contains_key(k) <==> exists|j: int|
                        0 <= j < items.len() && (#[trigger] items[j]).0 == k,
                forall|j: int|
                    0 <= j < items.len() ==> model_of(items)[(#[trigger] items[j]).0]
                        == items[j].1,
                forall|j: int|
                    0 <= j < i ==> other@.contains_key((#[trigger] items[j]).0)
                        && other@[items[j].0] == items[j].1,
            decreases self.entries.len() - i,
        {
            let same = match other.get(&self.entries[i].0) {
                Some(value) => same_text(value.as_str(), self.entries[i].1.as_str()),
                None => false,
            };
            if !same {
                proof {
                    assert(items[i as int].0 == self.entries[i as int].0);
                    assert(self@.dom().contains(items[i as int].0));
                    assert(self@[items[i as int].0] == items[i as int].1);
                }
                return false;
            }
            i += 1;
        }
        proof {
            assert forall|k: KT| #[trigger] self@.dom().contains(k) implies other@.dom().contains(
                k,
            ) && self@[k] == other@[k] by {
                let j = choose|j: int| 0 <= j < items.len() && (#[trigger] items[j]).0 == k;
                assert(other@.contains_key(items[j].0));
            }
        }
        true
    }

    /// Whether the two stores hold the same entries. The order in which
    /// they were filled makes no difference.
    pub fn equals(&self, other: &Self) -> (same: bool)
        ensures
            same == (self@ == other@),
    {
        let same = self.is_part_of(other) && other.is_part_of(self);
        proof {
            if same {
                assert forall|k: KT| self@.dom().contains(k) <==> other@.dom().contains(k) by {
                    if self@.dom().contains(k) {
                        assert(other@.dom().contains(k));
                    }
                    if other@.dom().contains(k) {
                        assert(self@.dom().contains(k));
                    }
                }
                assert(self@.dom() =~= other@.dom());
                assert(self@ =~= other@);
            }
        }
        same
    }

    /// Binds `key` to `value`, unless `key` is present already: then the
    /// store stays as it is and the insertion fails, whatever `value` is.
    pub fn try_insert(&mut self, key: KT, value: String) -> (done: Result<(), DeviceInfoError>)
        ensures
            match inserted(old(self)@, key, value@) {
                Ok(after) => done is Ok && final(self)@ == after,
                Err(e) => done == Err::<(), DeviceInfoError>(e) && final(self)@ == old(self)@,
            },
    {
        proof {
            use_type_invariant(&*self);
            lemma_model_of(text_pairs(self.entries@));
        }
        let at = self.position_of(&key);
        if at.is_some() {
            proof {
                let items = text_pairs(self.entries@);
                assert(items[at.unwrap() as int].0 == key);
            }
            return Err(DeviceInfoError::DuplicateKey);
        }
        let ghost before = text_pairs(self.entries@);
        let mut entries: Vec<(KT, String)> = Vec::new();
        core::mem::swap(&mut self.entries, &mut entries);
        entries.push((key, value));
        proof {
            let after = text_pairs(entries@);
            assert(after =~= before.push((key, value@)));
            assert(after.drop_last() =~= before);
            assert(distinct_keys(after)) by {
                assert forall|i: int, j: int| 0 <= i < j < after.len() implies (#[trigger] after[i]).0
                    != (#[trigger] after[j]).0 by {
                    if j < before.len() {
                        assert(before[i].0 != before[j].0);
                    } else {
                        assert(before[i].0 != key);
                    }
                }
            }
        }
        self.entries = entries;
        Ok(())
    }
}

/// How many keys of `order`, counted from its start, are absent from
/// `registry`.
pub open spec fn absent_prefix<KT>(order: Seq<KT>, registry: Map<KT, Seq<char>>) -> nat
    decreases order.len(),
{
    if order.len() > 0 && !registry.contains_key(order[0]) {
        1 + absent_prefix(order.drop_first(), registry)
    } else {
        0
    }
}

/// What is left of `registry` after `source` was merged into it entry by
/// entry, in ascending order of key, up to the first key that `registry`
/// holds already: the entries before that key were taken in, the others
/// were not.
pub open spec fn merged<KT: ComponentKey>(
    registry: Map<KT, Seq<char>>,
    source: Map<KT, Seq<char>>,
) -> Map<KT, Seq<char>> {
    let order = ordered_keys(source.dom());
    let taken = order.subrange(0, absent_prefix(order, registry) as int);
    registry.union_prefer_right(source.restrict(taken.to_set()))
}

/// The absent keys at the start of `order` end at the first key that is
/// present.
proof fn lemma_absent_prefix<KT>(order: Seq<KT>, registry: Map<KT, Seq<char>>, upto: int)
    requires
        0 <= upto <= order.len(),
        forall|j: int| 0 <= j < upto ==> !registry.contains_key(#[trigger] order[j]),
        upto < order.len() ==> registry.contains_key(order[upto]),
    ensures
        absent_prefix(order, registry) == upto,
    decreases upto,
{
    if upto > 0 {
        let rest = order.drop_first();
        assert forall|j: int| 0 <= j < upto - 1 implies !registry.contains_key(
            #[trigger] rest[j],
        ) by {
            assert(rest[j] == order[j + 1]);
        }
        lemma_absent_prefix(rest, registry, upto - 1);
    }
}

/// Where no key of `source` is present in `registry`, merging takes in all
/// of `source`.
pub proof fn lemma_merged_disjoint<KT: ComponentKey>(
    registry: Map<KT, Seq<char>>,
    source: Map<KT, Seq<char>>,
)
    requires
        source.dom().finite(),
        forall|k: KT| source.contains_key(k) ==> !registry.contains_key(k),
    ensures
        merged(registry, source) == registry.union_prefer_right(source),
{
    let order = ordered_keys(source.dom());
    lemma_ordered_keys(source.dom());
    assert forall|j: int| 0 <= j < order.len() implies !registry.contains_key(
        #[trigger] order[j],
    ) by {
        assert(order.contains(order[j]));
    }
    lemma_absent_prefix(order, registry, order.len() as int);
    assert(order.subrange(0, order.len() as int) =~= order);
    assert(source.restrict(order.to_set()) =~= source);
}

/// What every builder of a registry offers: access to its store, and the
/// two ways to fill it, entry by entry and store by store.
///
/// A key enters a registry once. To offer a key that is present is an error
/// of the program, not of its input: the `try_` methods report it, the
/// chaining methods rule it out by their `requires`.
pub trait IDeviceInfoBuilder<KT: ComponentKey>: View<V = Map<KT, Seq<char>>> + Sized {
    /// The store, to read.
    fn get_components(&self) -> (components: &ComponentMap<KT>)
        ensures
            components@ == self@,
    ;

    /// The store, to change. What is changed in it is changed in the builder.
    fn get_components_mut(&mut self) -> (components: &mut ComponentMap<KT>)
        ensures
            components@ == old(self)@,
            final(self)@ == final(components)@,
    ;

    /// Binds `name` to `value` and hands the builder back for the next call.
    fn add_component(&mut self, name: &KT, value: &str) -> (builder: &mut Self)
        requires
            !old(self)@.contains_key(*name),
        ensures
            builder@ == old(self)@.insert(*name, value@),
            *final(self) == *final(builder),
    {
        let components = self.get_components_mut();
        // `name` is absent, so the insertion goes through.
        let _ = components.try_insert(*name, value.to_owned());
        self
    }

    /// Binds `name` to `value` if `name` is absent. If it is present the
    /// registry stays as it is and `DuplicateKey` comes back, whether or not
    /// `value` is the value already bound.
    fn try_add_component(&mut self, name: &KT, value: &str) -> (done: Result<(), DeviceInfoError>)
        ensures
            match inserted(old(self)@, *name, value@) {
                Ok(after) => done is Ok && final(self)@ == after,
                Err(e) => done == Err::<(), DeviceInfoError>(e) && final(self)@ == old(self)@,
            },
    {
        let components = self.get_components_mut();
        components.try_insert(*name, value.to_owned())
    }

    /// Takes in every entry of `components`, none of whose keys is present,
    /// and hands the builder back for the next call.
    fn extend_components(&mut self, components: &ComponentMap<KT>) -> (builder: &mut Self)
        requires
            forall|k: KT| components@.contains_key(k) ==> !old(self)@.contains_key(k),
        ensures
            builder@ == old(self)@.union_prefer_right(components@),
            *final(self) == *final(builder),
    {
        let pairs = components.pairs();
        let ghost keys = ordered_keys(components@.dom());
        proof {
            components.lemma_finite();
            lemma_ordered_keys(components@.dom());
            assert(text_pairs(pairs@).len() == keys.len());
        }
        let mut i: usize = 0;
        while i < pairs.len()
            invariant
                i <= pairs.len(),
                pairs.len() == keys.len(),
                text_pairs(pairs@) == ordered_pairs(components@),
                keys == ordered_keys(components@.dom()),
                is_key_order(keys, components@.dom()),
                keys.no_duplicates(),
                forall|k: KT| components@.contains_key(k) ==> !old(self)@.contains_key(k),
                forall|k: KT|
                    self@.contains_key(k) <==> old(self)@.contains_key(k) || exists|j: int|
                        0 <= j < i && #[trigger] keys[j] == k,
                forall|k: KT| old(self)@.contains_key(k) ==> self@[k] == old(self)@[k],
                forall|j: int| 0 <= j < i ==> self@[#[trigger] keys[j]] == components@[keys[j]],
            decreases pairs.len() - i,
        {
            let ghost before = self@;
            proof {
                assert(text_pairs(pairs@)[i as int] == ordered_pairs(components@)[i as int]);
                assert(pairs[i as int].0 == keys[i as int]);
                assert(pairs[i as int].1@ == components@[keys[i as int]]);
                assert(keys.contains(keys[i as int]));
                assert(!before.contains_key(keys[i as int])) by {
                    if exists|j: int| 0 <= j < i && #[trigger] keys[j] == keys[i as int] {
                    }
                }
            }
            self.add_component(&pairs[i].0, pairs[i].1.as_str());
            proof {
                assert(self@ == before.insert(keys[i as int], components@[keys[i as int]]));
                assert forall|k: KT|
                    self@.contains_key(k) <==> old(self)@.contains_key(k) || exists|j: int|
                        0 <= j < i + 1 && #[trigger] keys[j] == k by {
                    if self@.contains_key(k) && !old(self)@.contains_key(k) {
                        if k == keys[i as int] {
                        } else {
                            let j = choose|j: int| 0 <= j < i && #[trigger] keys[j] == k;
                            assert(0 <= j < i + 1 && keys[j] == k);
                        }
                    }
                }
                assert forall|k: KT| old(self)@.contains_key(k) implies self@[k] == old(self)@[k] by {
                    assert(keys.contains(keys[i as int]));
                }
            }
            i += 1;
        }
        proof {
            assert(self@ =~= old(self)@.union_prefer_right(components@)) by {
                assert forall|k: KT|
                    self@.contains_key(k) <==> old(self)@.union_prefer_right(
                        components@,
                    ).contains_key(k) by {
                    if components@.contains_key(k) {
                        assert(keys.contains(k));
                        let j = choose|j: int| 0 <= j < keys.len() && keys[j] == k;
                        assert(keys[j] == k);
                    }
                    if exists|j: int| 0 <= j < i && #[trigger] keys[j] == k {
                        let j = choose|j: int| 0 <= j < i && #[trigger] keys[j] == k;
                        assert(keys.contains(keys[j]));
                    }
                }
                assert forall|k: KT| self@.contains_key(k) implies self@[k]
                    == old(self)@.union_prefer_right(components@)[k] by {
                    if components@.contains_key(k) {
                        assert(keys.contains(k));
                        let j = choose|j: int| 0 <= j < keys.len() && keys[j] == k;
                        assert(self@[keys[j]] == components@[keys[j]]);
                    }
                }
            }
        }
        self
    }

    /// Takes in the entries of `components` one by one, in ascending order
    /// of key, and stops at the first whose key is present: what was taken
    /// in before stays, and `DuplicateKey` comes back. It succeeds exactly
    /// where no key of `components` is present.
    fn try_extend_components(&mut self, components: &ComponentMap<KT>) -> (done: Result<
        (),
        DeviceInfoError,
    >)
        ensures
            final(self)@ == merged(old(self)@, components@),
            done is Ok <==> forall|k: KT|
                components@.contains_key(k) ==> !old(self)@.contains_key(k),
            done is Ok ==> final(self)@ == old(self)@.union_prefer_right(components@),
            done is Err ==> done == Err::<(), DeviceInfoError>(DeviceInfoError::DuplicateKey),
    {
        let pairs = components.pairs();
        let ghost keys = ordered_keys(components@.dom());
        proof {
            components.lemma_finite();
            lemma_ordered_keys(components@.dom());
            assert(text_pairs(pairs@).len() == keys.len());
        }
        let mut i: usize = 0;
        let mut done: Result<(), DeviceInfoError> = Ok(());
        while i < pairs.len() && done.is_ok()
            invariant
                i <= pairs.len(),
                pairs.len() == keys.len(),
                text_pairs(pairs@) == ordered_pairs(components@),
                keys == ordered_keys(components@.dom()),
                is_key_order(keys, components@.dom()),
                keys.no_duplicates(),
                done is Err ==> done == Err::<(), DeviceInfoError>(DeviceInfoError::DuplicateKey)
                    && i < pairs.len() && old(self)@.contains_key(keys[i as int]),
                forall|j: int| 0 <= j < i ==> !old(self)@.contains_key(#[trigger] keys[j]),
                self@ == old(self)@.union_prefer_right(
                    components@.restrict(keys.subrange(0, i as int).to_set()),
                ),
            decreases pairs.len() - i + (if done is Ok { 1nat } else { 0nat }),
        {
            let ghost before = self@;
            let ghost taken = keys.subrange(0, i as int);
            proof {
                assert(text_pairs(pairs@)[i as int] == ordered_pairs(components@)[i as int]);
                assert(pairs[i as int].0 == keys[i as int]);
                assert(pairs[i as int].1@ == components@[keys[i as int]]);
                assert(keys.contains(keys[i as int]));
                assert(!taken.contains(keys[i as int])) by {
                    if taken.contains(keys[i as int]) {
                        let j = choose|j: int| 0 <= j < taken.len() && taken[j] == keys[i as int];
                        assert(keys[j] == keys[i as int]);
                    }
                }
                assert(before.contains_key(keys[i as int]) <==> old(self)@.contains_key(
                    keys[i as int],
                ));
            }
            done = self.try_add_component(&pairs[i].0, pairs[i].1.as_str());
            if done.is_ok() {
                proof {
                    let next = keys.subrange(0, i + 1);
                    assert(next.to_set() =~= taken.to_set().insert(keys[i as int])) by {
                        assert forall|k: KT|
                            next.to_set().contains(k) <==> taken.to_set().insert(
                                keys[i as int],
                            ).contains(k) by {
                            if next.contains(k) {
                                let j = choose|j: int| 0 <= j < next.len() && next[j] == k;
                                if j < i {
                                    assert(taken[j] == k);
                                }
                            }
                            if taken.contains(k) {
                                let j = choose|j: int| 0 <= j < taken.len() && taken[j] == k;
                                assert(next[j] == k);
                            }
                            if k == keys[i as int] {
                                assert(next[i as int] == k);
                            }
                        }
                    }
                    assert(self@ =~= old(self)@.union_prefer_right(
                        components@.restrict(next.to_set()),
                    ));
                }
                i += 1;
            }
        }
        proof {
            lemma_absent_prefix(keys, old(self)@, i as int);
            if done is Ok {
                assert forall|k: KT| components@.contains_key(k) implies !old(self)@.contains_key(
                    k,
                ) by {
                    assert(keys.contains(k));
                    let j = choose|j: int| 0 <= j < keys.len() && keys[j] == k;
                    assert(!old(self)@.contains_key(keys[j]));
                }
                lemma_merged_disjoint(old(self)@, components@);
            } else {
                assert(components@.contains_key(keys[i as int])) by {
                    assert(keys.contains(keys[i as int]));
                }
            }
        }
        done
    }
}

/// A registry over any key space, with nothing but its store.
#[derive(Debug)]
pub struct BaseDeviceInfoBuilder<KT: ComponentKey> {
    pub components: ComponentMap<KT>,
}

impl<KT: ComponentKey> View for BaseDeviceInfoBuilder<KT> {
    type V = Map<KT, Seq<char>>;

    open spec fn view(&self) -> Map<KT, Seq<char>> {
        self.components@
    }
}

impl<KT: ComponentKey> BaseDeviceInfoBuilder<KT> {
    /// An empty registry.
    pub fn new() -> (builder: Self)
        ensures
            builder@ == Map::<KT, Seq<char>>::empty(),
    {
        Self { components: ComponentMap::new() }
    }

    /// The registry as a text block: one line `key: value` for each entry,
    /// in ascending order of key.
    pub fn to_string(&self) -> (text: String)
        ensures
            text@ == text_block(listing(self@)),
    {
        render_text(&self.components.entries())
    }
}

impl<KT: ComponentKey> Default for BaseDeviceInfoBuilder<KT> {
    fn default() -> (builder: Self)
        ensures
            builder@ == Map::<KT, Seq<char>>::empty(),
    {
        Self::new()
    }
}

impl<KT: ComponentKey> IDeviceInfoBuilder<KT> for BaseDeviceInfoBuilder<KT> {
    fn get_components(&self) -> (components: &ComponentMap<KT>) {
        &self.components
    }

    fn get_components_mut(&mut self) -> (components: &mut ComponentMap<KT>) {
        &mut self.components
    }
}

} // verus!
