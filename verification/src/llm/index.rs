//! Ordered indexes from names and ids to positions, on `indexmap`.
use vstd::prelude::*;

verus! {

/// The insertion-ordered map of `indexmap`.
#[verifier::external_type_specification]
#[verifier::external_body]
#[verifier::reject_recursive_types(K)]
#[verifier::reject_recursive_types(V)]
#[verifier::reject_recursive_types(S)]
pub struct ExIndexMap<K, V, S>(indexmap::IndexMap<K, V, S>);

/// The entries of an index by name, in order.
pub uninterp spec fn name_entries(m: indexmap::IndexMap<String, usize>) -> Seq<(Seq<char>, usize)>;

/// The entries of an index by id, in order.
pub uninterp spec fn id_entries(m: indexmap::IndexMap<i64, usize>) -> Seq<(i64, usize)>;

/// The position of the entry with a key.
pub open spec fn key_index<K>(entries: Seq<(K, usize)>, key: K) -> Option<int>
    decreases entries.len(),
{
    if entries.len() == 0 {
        None
    } else {
        match key_index(entries.drop_last(), key) {
            Some(i) => Some(i),
            None => if entries.last().0 == key {
                Some(entries.len() - 1)
            } else {
                None
            },
        }
    }
}

/// The entries with a value put under a key: in place where the key is there,
/// else last.
pub open spec fn with_key<K>(entries: Seq<(K, usize)>, key: K, value: usize) -> Seq<(K, usize)> {
    match key_index(entries, key) {
        Some(i) => entries.update(i, (key, value)),
        None => entries.push((key, value)),
    }
}

/// The value under a key.
pub open spec fn value_at<K>(entries: Seq<(K, usize)>, key: K) -> Option<usize> {
    match key_index(entries, key) {
        Some(i) => Some(entries[i].1),
        None => None,
    }
}

/// `IndexMap::new`: an empty map.
#[verifier::external_body]
pub(crate) fn new_names() -> (r: indexmap::IndexMap<String, usize>)
    ensures
        name_entries(r).len() == 0,
{
    indexmap::IndexMap::new()
}

/// `IndexMap::insert`: a key that is there keeps its place and takes the
/// value; a new key comes last.
#[verifier::external_body]
pub(crate) fn insert_name(m: &mut indexmap::IndexMap<String, usize>, key: String, value: usize)
    ensures
        name_entries(*final(m)) == with_key(name_entries(*old(m)), key@, value),
{
    m.insert(key, value);
}

/// `IndexMap::get`: the value under a key.
#[verifier::external_body]
pub(crate) fn get_name(m: &indexmap::IndexMap<String, usize>, key: &str) -> (r: Option<usize>)
    ensures
        r == value_at(name_entries(*m), key@),
{
    m.get(key).copied()
}

/// `IndexMap::new`: an empty map.
#[verifier::external_body]
pub(crate) fn new_ids() -> (r: indexmap::IndexMap<i64, usize>)
    ensures
        id_entries(r).len() == 0,
{
    indexmap::IndexMap::new()
}

/// `IndexMap::insert`: a key that is there keeps its place and takes the
/// value; a new key comes last.
#[verifier::external_body]
pub(crate) fn insert_id(m: &mut indexmap::IndexMap<i64, usize>, key: i64, value: usize)
    ensures
        id_entries(*final(m)) == with_key(id_entries(*old(m)), key, value),
{
    m.insert(key, value);
}

/// `IndexMap::get`: the value under a key.
#[verifier::external_body]
pub(crate) fn get_id(m: &indexmap::IndexMap<i64, usize>, key: i64) -> (r: Option<usize>)
    ensures
        r == value_at(id_entries(*m), key),
{
    m.get(&key).copied()
}

} // verus!
