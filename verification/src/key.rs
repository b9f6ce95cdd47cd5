//! What every key space of a registry has in common.

use vstd::prelude::*;

verus! {

/// A closed, totally ordered enumeration of component identifiers.
///
/// A key has a position in the order of its key space (`rank`) and one
/// canonical string (`canonical`). Both are injective, so a rank or a
/// canonical string stands for at most one key.
pub trait ComponentKey: Copy + Sized {
    /// Position of the key in the total order of its key space.
    spec fn rank(self) -> nat;

    /// The one string that stands for the key in listings and documents.
    spec fn canonical(self) -> Seq<char>;

    /// Two keys at the same position are the same key.
    proof fn lemma_rank_injective(a: Self, b: Self)
        ensures
            a.rank() == b.rank() ==> a == b,
    ;

    /// Two keys with the same canonical string are the same key.
    proof fn lemma_canonical_injective(a: Self, b: Self)
        ensures
            a.canonical() == b.canonical() ==> a == b,
    ;

    /// The key's position, as a machine integer.
    fn ordinal(&self) -> (position: u8)
        ensures
            position as nat == self.rank(),
    ;

    /// The key's canonical string.
    fn to_canonical(&self) -> (name: String)
        ensures
            name@ == self.canonical(),
    ;

    /// The key that `name` is the canonical string of, if there is one.
    fn from_canonical(name: &str) -> (key: Option<Self>)
        ensures
            match key {
                Some(k) => k.canonical() == name@,
                None => forall|k: Self| k.canonical() != name@,
            },
    ;
}

/// `a` comes no later than `b` in the order of the key space.
pub open spec fn rank_leq<KT: ComponentKey>() -> spec_fn(KT, KT) -> bool {
    |a: KT, b: KT| a.rank() <= b.rank()
}

/// Ordering keys by rank is a total order, because ranks tell keys apart.
pub proof fn lemma_rank_leq_total<KT: ComponentKey>()
    ensures
        vstd::relations::total_ordering(rank_leq::<KT>()),
{
    let leq = rank_leq::<KT>();
    assert forall|a: KT, b: KT| #[trigger] leq(a, b) && #[trigger] leq(b, a) implies a == b by {
        KT::lemma_rank_injective(a, b);
    }
}

} // verus!
