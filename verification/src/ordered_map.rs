//! Maps from text to text that keep the order in which their keys came.

use indexmap::IndexMap;
use vstd::prelude::*;

verus! {

#[verifier::external_type_specification]
#[verifier::external_body]
#[verifier::reject_recursive_types(K)]
#[verifier::reject_recursive_types(V)]
#[verifier::reject_recursive_types(S)]
pub struct ExIndexMap<K, V, S>(IndexMap<K, V, S>);

/// The pairs of key and value that `map` holds, in their order.
pub uninterp spec fn map_pairs(map: IndexMap<String, String>) -> Seq<(Seq<char>, Seq<char>)>;

/// Whether no two of `pairs` have the same key.
pub open spec fn keys_differ(pairs: Seq<(Seq<char>, Seq<char>)>) -> bool {
    forall|i: int, j: int|
        0 <= i < j < pairs.len() ==> (#[trigger] pairs[i]).0 != (#[trigger] pairs[j]).0
}

/// Whether one of `pairs` has the key `key`.
pub open spec fn has_key(pairs: Seq<(Seq<char>, Seq<char>)>, key: Seq<char>) -> bool {
    exists|i: int| 0 <= i < pairs.len() && (#[trigger] pairs[i]).0 == key
}

/// The first of each pair, in order.
pub open spec fn keys_of(pairs: Seq<(Seq<char>, Seq<char>)>) -> Seq<Seq<char>> {
    Seq::new(pairs.len(), |i: int| pairs[i].0)
}

/// `pairs` after `value` was set under `key`: the pair with that key keeps its place
/// and takes the value; where there is none, the new pair comes last.
pub open spec fn with_pair(
    pairs: Seq<(Seq<char>, Seq<char>)>,
    key: Seq<char>,
    value: Seq<char>,
) -> Seq<(Seq<char>, Seq<char>)> {
    if has_key(pairs, key) {
        let i = choose|i: int| 0 <= i < pairs.len() && (#[trigger] pairs[i]).0 == key;
        pairs.update(i, (key, value))
    } else {
        pairs.push((key, value))
    }
}

/// Makes an empty map with `IndexMap::new`.
#[verifier::external_body]
pub(crate) fn new_map() -> (map: IndexMap<String, String>)
    ensures
        map_pairs(map) == Seq::<(Seq<char>, Seq<char>)>::empty(),
{
    IndexMap::new()
}

/// Sets a value with `IndexMap::insert`. As its documentation says, a key that the
/// map holds keeps its place and takes the new value, and the earlier value is handed
/// back; any other key goes last, with nothing handed back.
#[verifier::external_body]
pub(crate) fn insert_pair(
    map: &mut IndexMap<String, String>,
    key: String,
    value: String,
) -> (earlier: Option<String>)
    ensures
        map_pairs(*final(map)) == with_pair(map_pairs(*old(map)), key@, value@),
        earlier is Some <==> has_key(map_pairs(*old(map)), key@),
{
    map.insert(key, value)
}

/// Copies the pairs of a map out, in their order, with `IndexMap::iter`. No two pairs
/// of a map have the same key.
#[verifier::external_body]
pub(crate) fn pairs_of(map: &IndexMap<String, String>) -> (pairs: Vec<(String, String)>)
    ensures
        pairs.deep_view() == map_pairs(*map),
        keys_differ(pairs.deep_view()),
{
    map.iter().map(|(key, value)| (key.clone(), value.clone())).collect()
}

/// Copies the keys of a map out, in their order, with `IndexMap::keys`.
#[verifier::external_body]
pub(crate) fn keys(map: &IndexMap<String, String>) -> (keys: Vec<String>)
    ensures
        keys.deep_view() == keys_of(map_pairs(*map)),
{
    map.keys().cloned().collect()
}

} // verus!
