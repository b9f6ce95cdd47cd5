//! The two written forms of a registry's listing, a text block and a JSON
//! document, and the way back from a document to a registry.

use vstd::prelude::*;
use vstd::seq_lib::to_multiset_contains;
use vstd::seq_lib::to_multiset_len;
use vstd::string::StringExecFns;

use crate::error::DeviceInfoError;
use crate::internal::distinct_keys;
use crate::internal::lemma_model_of;
use crate::internal::model_of;
use crate::internal::string_pairs;
use crate::internal::ComponentMap;
use crate::key::ComponentKey;
use crate::order::lemma_ordered_keys;
use crate::order::listing;
use crate::order::ordered_keys;

verus! {

/// One line of the text block: the key's string, a colon and a blank, the
/// value.
pub open spec fn text_line(entry: (Seq<char>, Seq<char>)) -> Seq<char> {
    entry.0 + seq![':', ' '] + entry.1
}

/// The text block of a listing: one line for each entry, in the listing's
/// order, with a line feed between two lines and none at the end.
pub open spec fn text_block(entries: Seq<(Seq<char>, Seq<char>)>) -> Seq<char>
    decreases entries.len(),
{
    if entries.len() == 0 {
        Seq::empty()
    } else if entries.len() == 1 {
        text_line(entries[0])
    } else {
        text_block(entries.drop_last()) + seq!['\n'] + text_line(entries.last())
    }
}

/// Writes `entries` as a text block.
pub fn render_text(entries: &Vec<(String, String)>) -> (text: String)
    ensures
        text@ == text_block(string_pairs(entries@)),
{
    let ghost all = string_pairs(entries@);
    let mut text = String::new();
    let mut i: usize = 0;
    while i < entries.len()
        invariant
            i <= entries.len(),
            all == string_pairs(entries@),
            text@ == text_block(all.subrange(0, i as int)),
        decreases entries.len() - i,
    {
        proof {
            reveal_strlit("\n");
            reveal_strlit(": ");
            let next = all.subrange(0, i + 1);
            assert(next.drop_last() =~= all.subrange(0, i as int));
            assert(next.last() == all[i as int]);
            assert("\n"@ =~= seq!['\n']);
            assert(": "@ =~= seq![':', ' ']);
        }
        if i > 0 {
            text.append("\n");
        }
        text.append(entries[i].0.as_str());
        text.append(": ");
        text.append(entries[i].1.as_str());
        proof {
            let line = text_line(all[i as int]);
            assert(all[i as int].0 + seq![':', ' '] + all[i as int].1 == line);
            if i == 0 {
                assert(text@ =~= line);
            } else {
                assert(text@ =~= text_block(all.subrange(0, i as int)) + seq!['\n'] + line);
            }
        }
        i += 1;
    }
    assert(all.subrange(0, entries.len() as int) =~= all);
    text
}

/// The key that `name` is the canonical string of.
pub open spec fn key_named<KT: ComponentKey>(name: Seq<char>) -> Option<KT> {
    if exists|k: KT| k.canonical() == name {
        Some(choose|k: KT| k.canonical() == name)
    } else {
        None
    }
}

/// The registry that a list of fields stands for, read field by field: each
/// name has to be a key's canonical string (`UnknownKey` otherwise) and no
/// key may come twice (`DuplicateKey`). The first field that fails decides.
pub open spec fn decoded<KT: ComponentKey>(fields: Seq<(Seq<char>, Seq<char>)>) -> Result<
    Map<KT, Seq<char>>,
    DeviceInfoError,
>
    decreases fields.len(),
{
    if fields.len() == 0 {
        Ok(Map::empty())
    } else {
        match decoded::<KT>(fields.drop_last()) {
            Err(e) => Err(e),
            Ok(registry) => match key_named::<KT>(fields.last().0) {
                None => Err(DeviceInfoError::UnknownKey),
                Some(k) => if registry.contains_key(k) {
                    Err(DeviceInfoError::DuplicateKey)
                } else {
                    Ok(registry.insert(k, fields.last().1))
                },
            },
        }
    }
}

/// A key's canonical string names that key and no other.
pub proof fn lemma_key_named<KT: ComponentKey>(k: KT)
    ensures
        key_named::<KT>(k.canonical()) == Some(k),
{
    let found = choose|x: KT| x.canonical() == k.canonical();
    KT::lemma_canonical_injective(found, k);
}

/// Once a field has failed, the fields behind it change nothing.
proof fn lemma_decoded_failure_stays<KT: ComponentKey>(
    fields: Seq<(Seq<char>, Seq<char>)>,
    upto: int,
)
    requires
        0 <= upto <= fields.len(),
        decoded::<KT>(fields.subrange(0, upto)) is Err,
    ensures
        decoded::<KT>(fields) == decoded::<KT>(fields.subrange(0, upto)),
    decreases fields.len() - upto,
{
    if upto < fields.len() {
        assert(fields.subrange(0, upto + 1).drop_last() =~= fields.subrange(0, upto));
        lemma_decoded_failure_stays::<KT>(fields, upto + 1);
    } else {
        assert(fields.subrange(0, upto) =~= fields);
    }
}

/// Fields whose names are the canonical strings of distinct keys stand for
/// the registry that binds each of those keys to the value beside its name.
proof fn lemma_decoded_distinct<KT: ComponentKey>(
    fields: Seq<(Seq<char>, Seq<char>)>,
    keys: Seq<KT>,
)
    requires
        fields.len() == keys.len(),
        forall|i: int| 0 <= i < keys.len() ==> (#[trigger] fields[i]).0 == keys[i].canonical(),
        keys.no_duplicates(),
    ensures
        decoded::<KT>(fields) == Ok::<Map<KT, Seq<char>>, DeviceInfoError>(
            model_of(Seq::new(keys.len(), |i: int| (keys[i], fields[i].1))),
        ),
    decreases fields.len(),
{
    let pairs = Seq::new(keys.len(), |i: int| (keys[i], fields[i].1));
    if fields.len() > 0 {
        let head = fields.drop_last();
        let head_keys = keys.drop_last();
        let head_pairs = Seq::new(head_keys.len(), |i: int| (head_keys[i], head[i].1));
        lemma_decoded_distinct::<KT>(head, head_keys);
        assert(pairs.drop_last() =~= head_pairs);
        lemma_key_named::<KT>(keys.last());
        lemma_model_of(head_pairs);
        assert(!model_of(head_pairs).contains_key(keys.last())) by {
            if model_of(head_pairs).contains_key(keys.last()) {
                let i = choose|i: int|
                    0 <= i < head_pairs.len() && (#[trigger] head_pairs[i]).0 == keys.last();
                assert(keys[i] == keys[keys.len() - 1]);
            }
        }
    }
}

/// Reading back the fields of a registry's listing gives the registry, in
/// whatever order the fields come.
pub proof fn lemma_decoded_rearranged<KT: ComponentKey>(
    registry: Map<KT, Seq<char>>,
    fields: Seq<(Seq<char>, Seq<char>)>,
)
    requires
        registry.dom().finite(),
        fields.to_multiset() == listing(registry).to_multiset(),
    ensures
        decoded::<KT>(fields) == Ok::<Map<KT, Seq<char>>, DeviceInfoError>(registry),
{
    let order = ordered_keys(registry.dom());
    let listed = listing(registry);
    lemma_ordered_keys(registry.dom());
    to_multiset_len(fields);
    to_multiset_len(listed);
    // Each field is an entry of the listing, and so has a key.
    assert forall|j: int| 0 <= j < fields.len() implies listed.contains(#[trigger] fields[j]) by {
        to_multiset_contains(fields, fields[j]);
        to_multiset_contains(listed, fields[j]);
        assert(fields.contains(fields[j]));
    }
    let at = |j: int| choose|i: int| 0 <= i < listed.len() && listed[i] == fields[j];
    let keys = Seq::new(fields.len(), |j: int| order[at(j)]);
    assert forall|j: int| 0 <= j < fields.len() implies 0 <= at(j) < listed.len() && listed[at(j)]
        == #[trigger] fields[j] by {
        assert(listed.contains(fields[j]));
    }
    // The listing holds no entry twice, so neither do the fields.
    assert(listed.no_duplicates()) by {
        assert forall|a: int, b: int|
            0 <= a < listed.len() && 0 <= b < listed.len() && a != b implies listed[a]
            != listed[b] by {
            KT::lemma_canonical_injective(order[a], order[b]);
        }
    }
    listed.lemma_multiset_has_no_duplicates();
    fields.lemma_multiset_has_no_duplicates_conv();
    assert(keys.no_duplicates()) by {
        assert forall|a: int, b: int|
            0 <= a < keys.len() && 0 <= b < keys.len() && a != b implies keys[a] != keys[b] by {
            if keys[a] == keys[b] {
                assert(listed[at(a)] == fields[a] && listed[at(b)] == fields[b]);
                assert(at(a) == at(b));
            }
        }
    }
    assert forall|j: int| 0 <= j < keys.len() implies (#[trigger] fields[j]).0
        == keys[j].canonical() by {
        assert(listed[at(j)] == fields[j]);
    }
    lemma_decoded_distinct::<KT>(fields, keys);
    let pairs = Seq::new(keys.len(), |j: int| (keys[j], fields[j].1));
    lemma_model_of(pairs);
    assert(distinct_keys(pairs)) by {
        assert forall|a: int, b: int| 0 <= a < b < pairs.len() implies (#[trigger] pairs[a]).0 != (
        #[trigger] pairs[b]).0 by {
            assert(keys[a] != keys[b]);
        }
    }
    assert(model_of(pairs) =~= registry) by {
        assert forall|k: KT| model_of(pairs).contains_key(k) <==> registry.contains_key(k) by {
            if model_of(pairs).contains_key(k) {
                let j = choose|j: int| 0 <= j < pairs.len() && (#[trigger] pairs[j]).0 == k;
                assert(order.contains(order[at(j)]));
            }
            if registry.contains_key(k) {
                assert(order.contains(k));
                let i = choose|i: int| 0 <= i < order.len() && order[i] == k;
                to_multiset_contains(listed, listed[i]);
                to_multiset_contains(fields, listed[i]);
                assert(listed.contains(listed[i]));
                let j = choose|j: int| 0 <= j < fields.len() && fields[j] == listed[i];
                assert(listed[at(j)] == listed[i]);
                assert(at(j) == i);
                assert(pairs[j].0 == k);
            }
        }
        assert forall|k: KT| model_of(pairs).contains_key(k) implies model_of(pairs)[k]
            == registry[k] by {
            let j = choose|j: int| 0 <= j < pairs.len() && (#[trigger] pairs[j]).0 == k;
            assert(model_of(pairs)[pairs[j].0] == pairs[j].1);
            assert(listed[at(j)] == fields[j]);
        }
    }
}

/// A registry's listing, read back, gives the registry: nothing is lost
/// between a registry and its canonical form, whatever order its entries
/// were inserted in.
pub proof fn lemma_decoded_listing<KT: ComponentKey>(registry: Map<KT, Seq<char>>)
    requires
        registry.dom().finite(),
    ensures
        decoded::<KT>(listing(registry)) == Ok::<Map<KT, Seq<char>>, DeviceInfoError>(registry),
{
    lemma_decoded_rearranged::<KT>(registry, listing(registry));
}

/// Builds the registry that `entries` stand for, entry by entry.
pub fn registry_from_entries<KT: ComponentKey>(entries: &Vec<(String, String)>) -> (registry:
    Result<ComponentMap<KT>, DeviceInfoError>)
    ensures
        match decoded::<KT>(string_pairs(entries@)) {
            Ok(expected) => registry is Ok && registry->Ok_0@ == expected,
            Err(e) => registry is Err && registry->Err_0 == e,
        },
{
    let ghost all = string_pairs(entries@);
    let mut components = ComponentMap::<KT>::new();
    let mut i: usize = 0;
    assert(all.subrange(0, 0) =~= Seq::empty());
    while i < entries.len()
        invariant
            i <= entries.len(),
            all == string_pairs(entries@),
            decoded::<KT>(all.subrange(0, i as int)) == Ok::<Map<KT, Seq<char>>, DeviceInfoError>(
                components@,
            ),
        decreases entries.len() - i,
    {
        proof {
            let next = all.subrange(0, i + 1);
            assert(next.drop_last() =~= all.subrange(0, i as int));
            assert(next.last() == all[i as int]);
        }
        match KT::from_canonical(entries[i].0.as_str()) {
            None => {
                proof {
                    lemma_decoded_failure_stays::<KT>(all, i + 1);
                }
                return Err(DeviceInfoError::UnknownKey);
            },
            Some(key) => {
                proof {
                    lemma_key_named::<KT>(key);
                }
                let done = components.try_insert(key, entries[i].1.clone());
                if done.is_err() {
                    proof {
                        lemma_decoded_failure_stays::<KT>(all, i + 1);
                    }
                    return Err(DeviceInfoError::DuplicateKey);
                }
            },
        }
        i += 1;
    }
    assert(all.subrange(0, entries.len() as int) =~= all);
    Ok(components)
}

/// The error of the JSON library; nothing of it is looked into.
#[verifier::external_type_specification]
#[verifier::external_body]
pub struct ExJsonError(serde_json::Error);

/// The compact JSON text of the object whose members are `fields`, in their
/// order, each value a JSON string: what `serde_json::to_string` writes.
pub uninterp spec fn json_document(fields: Seq<(Seq<char>, Seq<char>)>) -> Seq<char>;

/// The members of the JSON object that `text` is, where it is an object
/// whose values are all strings: what `serde_json::from_str` reads into a
/// map from strings to strings, ordered by name. `None` for every other
/// text.
pub uninterp spec fn json_fields(text: Seq<char>) -> Option<Seq<(Seq<char>, Seq<char>)>>;

/// No two fields have the same name.
pub open spec fn distinct_names(fields: Seq<(Seq<char>, Seq<char>)>) -> bool {
    forall|i: int, j: int|
        0 <= i < j < fields.len() ==> (#[trigger] fields[i]).0 != (#[trigger] fields[j]).0
}

/// `serde_json::to_string` on a JSON object whose members are `fields`, each
/// value a JSON string. It writes such an object without fail. The text has
/// a name, and where no name repeats it reads back (see `document_fields`)
/// as the same fields, each once, in some order.
#[verifier::external_body]
fn document_text(fields: &Vec<(String, String)>) -> (text: Result<String, serde_json::Error>)
    ensures
        text is Ok,
        text matches Ok(t) ==> t@ == json_document(string_pairs(fields@)),
        text matches Ok(t) ==> distinct_names(string_pairs(fields@)) ==> json_fields(t@) is Some
            && json_fields(t@)->Some_0.to_multiset() == string_pairs(fields@).to_multiset(),
{
    let object: serde_json::Map<String, serde_json::Value> = fields.iter().map(
        |field| (field.0.clone(), serde_json::Value::String(field.1.clone())),
    ).collect();
    serde_json::to_string(&serde_json::Value::Object(object))
}

/// `serde_json::from_str` into a map from strings to strings, handed on as
/// the list of its entries. It fails exactly where `json_fields` is `None`.
#[verifier::external_body]
fn document_fields(text: &str) -> (fields: Result<Vec<(String, String)>, serde_json::Error>)
    ensures
        match fields {
            Ok(read) => json_fields(text@) == Some(string_pairs(read@)),
            Err(_) => json_fields(text@) is None,
        },
{
    serde_json::from_str::<std::collections::BTreeMap<String, String>>(text).map(
        |object| object.into_iter().collect(),
    )
}

/// The registry that a JSON document stands for: `Decode` where the text is
/// no JSON object of strings, else what its members decode to.
pub open spec fn registry_of_document<KT: ComponentKey>(text: Seq<char>) -> Result<
    Map<KT, Seq<char>>,
    DeviceInfoError,
> {
    match json_fields(text) {
        None => Err(DeviceInfoError::Decode),
        Some(fields) => decoded::<KT>(fields),
    }
}

/// The names of a registry's listing are all different.
pub proof fn lemma_listing_names<KT: ComponentKey>(registry: Map<KT, Seq<char>>)
    requires
        registry.dom().finite(),
    ensures
        distinct_names(listing(registry)),
        listing(registry).len() == registry.dom().len(),
{
    let order = ordered_keys(registry.dom());
    lemma_ordered_keys(registry.dom());
    assert forall|i: int, j: int| 0 <= i < j < listing(registry).len() implies (
    #[trigger] listing(registry)[i]).0 != (#[trigger] listing(registry)[j]).0 by {
        KT::lemma_canonical_injective(order[i], order[j]);
    }
}

/// Writes the store as a JSON document: an object with one member for each
/// entry, in ascending order of key, the name being the key's canonical
/// string. Reading the document back gives the store's registry again.
pub fn to_json<KT: ComponentKey>(components: &ComponentMap<KT>) -> (text: String)
    ensures
        text@ == json_document(listing(components@)),
        registry_of_document::<KT>(text@) == Ok::<Map<KT, Seq<char>>, DeviceInfoError>(
            components@,
        ),
{
    let entries = components.entries();
    proof {
        components.lemma_finite();
        lemma_listing_names(components@);
    }
    match document_text(&entries) {
        Ok(text) => {
            proof {
                lemma_decoded_rearranged::<KT>(components@, json_fields(text@)->Some_0);
            }
            text
        },
        Err(_) => String::new(),
    }
}

/// Reads a JSON document back into a store. A text that is no JSON object
/// of strings gives `Decode`; a member whose name is no key's canonical
/// string gives `UnknownKey`: no member is dropped in silence.
pub fn from_json<KT: ComponentKey>(text: &str) -> (components: Result<
    ComponentMap<KT>,
    DeviceInfoError,
>)
    ensures
        match registry_of_document::<KT>(text@) {
            Ok(expected) => components is Ok && components->Ok_0@ == expected,
            Err(e) => components is Err && components->Err_0 == e,
        },
{
    match document_fields(text) {
        Ok(fields) => registry_from_entries::<KT>(&fields),
        Err(_) => Err(DeviceInfoError::Decode),
    }
}

} // verus!
