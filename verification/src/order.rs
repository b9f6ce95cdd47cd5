//! The order in which a registry lists its entries: by key, ascending.
//!
//! A registry is a finite map, which has no order of its own. Whatever is
//! written down from it (a text block, a document, the plaintext of a machine
//! code) follows the one order defined here, so that equal registries give
//! equal output however they were filled.

use vstd::prelude::*;
use vstd::relations::sorted_by;
use vstd::seq_lib::lemma_no_dup_in_concat;
use vstd::seq_lib::lemma_sorted_unique;
use vstd::seq_lib::to_multiset_contains;

use crate::key::lemma_rank_leq_total;
use crate::key::rank_leq;
use crate::key::ComponentKey;

verus! {

/// The keys of `keys`, each once, in ascending order of rank.
pub open spec fn ordered_keys<KT: ComponentKey>(keys: Set<KT>) -> Seq<KT> {
    keys.to_sorted_seq(rank_leq::<KT>())
}

/// The entries of `registry` in ascending order of key.
pub open spec fn ordered_pairs<KT: ComponentKey>(registry: Map<KT, Seq<char>>) -> Seq<
    (KT, Seq<char>),
> {
    ordered_keys(registry.dom()).map_values(|k: KT| (k, registry[k]))
}

/// The canonical form of `registry`: its entries in ascending order of key,
/// each key written as its canonical string.
pub open spec fn listing<KT: ComponentKey>(registry: Map<KT, Seq<char>>) -> Seq<
    (Seq<char>, Seq<char>),
> {
    ordered_keys(registry.dom()).map_values(|k: KT| (k.canonical(), registry[k]))
}

/// `order` lists exactly the keys of `keys`, in strictly ascending rank.
pub open spec fn is_key_order<KT: ComponentKey>(order: Seq<KT>, keys: Set<KT>) -> bool {
    &&& forall|i: int, j: int|
        0 <= i < j < order.len() ==> (#[trigger] order[i]).rank() < (#[trigger] order[j]).rank()
    &&& forall|k: KT| #[trigger] order.contains(k) <==> keys.contains(k)
}

/// A finite set, written out as a sequence, holds each of its elements once.
proof fn lemma_to_seq_once<A>(s: Set<A>)
    requires
        s.finite(),
    ensures
        s.to_seq().no_duplicates(),
        forall|a: A| #[trigger] s.to_seq().contains(a) <==> s.contains(a),
    decreases s.len(),
{
    s.lemma_to_seq_to_set_id();
    assert forall|a: A| #[trigger] s.to_seq().contains(a) <==> s.contains(a) by {
        assert(s.to_seq().to_set().contains(a) <==> s.contains(a));
    }
    if s.len() != 0 {
        let x = s.choose();
        let rest = s.remove(x).to_seq();
        lemma_to_seq_once(s.remove(x));
        assert(s.to_seq() == Seq::<A>::empty().push(x) + rest);
        assert forall|i: int, j: int|
            0 <= i < Seq::<A>::empty().push(x).len() && 0 <= j < rest.len() implies Seq::<
            A,
        >::empty().push(x)[i] != rest[j] by {
            assert(rest.contains(rest[j]));
        }
        lemma_no_dup_in_concat(Seq::<A>::empty().push(x), rest);
    }
}

/// Two sequences without repetition that hold the same elements hold them
/// equally often.
proof fn lemma_same_elements_same_multiset<A>(a: Seq<A>, b: Seq<A>)
    requires
        a.no_duplicates(),
        b.no_duplicates(),
        forall|x: A| #[trigger] a.contains(x) <==> b.contains(x),
    ensures
        a.to_multiset() == b.to_multiset(),
{
    a.lemma_multiset_has_no_duplicates();
    b.lemma_multiset_has_no_duplicates();
    assert forall|x: A| a.to_multiset().count(x) == b.to_multiset().count(x) by {
        to_multiset_contains(a, x);
        to_multiset_contains(b, x);
        assert(a.contains(x) <==> b.contains(x));
    }
    assert(a.to_multiset() =~= b.to_multiset());
}

/// The ordered keys of a finite set are the set's keys, each once, in
/// strictly ascending rank.
pub proof fn lemma_ordered_keys<KT: ComponentKey>(keys: Set<KT>)
    requires
        keys.finite(),
    ensures
        is_key_order(ordered_keys(keys), keys),
        ordered_keys(keys).no_duplicates(),
        ordered_keys(keys).len() == keys.len(),
{
    let leq = rank_leq::<KT>();
    let raw = keys.to_seq();
    let order = ordered_keys(keys);
    lemma_rank_leq_total::<KT>();
    lemma_to_seq_once(keys);
    raw.lemma_sort_by_ensures(leq);
    raw.lemma_multiset_has_no_duplicates();
    assert forall|x: KT| order.to_multiset().contains(x) implies order.to_multiset().count(x)
        == 1 by {}
    order.lemma_multiset_has_no_duplicates_conv();
    assert forall|k: KT| #[trigger] order.contains(k) <==> keys.contains(k) by {
        to_multiset_contains(raw, k);
        to_multiset_contains(order, k);
    }
    assert forall|i: int, j: int| 0 <= i < j < order.len() implies (#[trigger] order[i]).rank() < (
    #[trigger] order[j]).rank() by {
        assert(leq(order[i], order[j]));
        KT::lemma_rank_injective(order[i], order[j]);
    }
    order.unique_seq_to_set();
    assert(order.to_set() =~= keys);
}

/// There is one way only to list the keys of a finite set in ascending rank.
pub proof fn lemma_key_order_unique<KT: ComponentKey>(order: Seq<KT>, keys: Set<KT>)
    requires
        keys.finite(),
        is_key_order(order, keys),
    ensures
        order == ordered_keys(keys),
{
    let leq = rank_leq::<KT>();
    lemma_rank_leq_total::<KT>();
    lemma_ordered_keys(keys);
    assert(order.no_duplicates()) by {
        assert forall|i: int, j: int|
            0 <= i < order.len() && 0 <= j < order.len() && i != j implies order[i]
            != order[j] by {
            if i < j {
                assert(order[i].rank() < order[j].rank());
            } else {
                assert(order[j].rank() < order[i].rank());
            }
        }
    }
    assert forall|x: KT| #[trigger] order.contains(x) <==> ordered_keys(keys).contains(x) by {
        assert(order.contains(x) <==> keys.contains(x));
    }
    lemma_same_elements_same_multiset(order, ordered_keys(keys));
    assert(sorted_by(order, leq)) by {
        assert forall|i: int, j: int| 0 <= i < j < order.len() implies #[trigger] leq(
            order[i],
            order[j],
        ) by {
            assert(order[i].rank() < order[j].rank());
        }
    }
    assert(sorted_by(ordered_keys(keys), leq)) by {
        keys.to_seq().lemma_sort_by_ensures(leq);
    }
    lemma_sorted_unique(order, ordered_keys(keys), leq);
}

} // verus!
