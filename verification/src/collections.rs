//! Trusted view of the insertion-ordered map and set of the `indexmap` crate.
//!
//! The channel aggregation fills an insertion-ordered map (channel name to
//! newest record, branch point to labels), and listing results are collected
//! into an insertion-ordered set of versions. The contents of each are named
//! as a sequence of entries in insertion order, and each method the logic
//! calls is wrapped with a contract stating what the crate documents: an
//! existing key keeps its place and has its value replaced, a new key is
//! appended last.

use indexmap::IndexMap;
use indexmap::IndexSet;
use vstd::prelude::*;

verus! {

#[verifier::external_type_specification]
#[verifier::external_body]
#[verifier::reject_recursive_types(K)]
#[verifier::reject_recursive_types(V)]
#[verifier::reject_recursive_types(S)]
pub struct ExIndexMap<K, V, S>(IndexMap<K, V, S>);

#[verifier::external_type_specification]
#[verifier::external_body]
#[verifier::reject_recursive_types(T)]
#[verifier::reject_recursive_types(S)]
pub struct ExIndexSet<T, S>(IndexSet<T, S>);

/// The first position of `s` holding key `k`, or -1 when none does.
pub open spec fn index_of_key<K, V>(s: Seq<(K, V)>, k: K) -> int
    decreases s.len(),
{
    if s.len() == 0 {
        -1
    } else if s[0].0 == k {
        0
    } else {
        let r = index_of_key(s.drop_first(), k);
        if r < 0 {
            -1
        } else {
            r + 1
        }
    }
}

/// The entries of a channel map, in insertion order: channel name, and the
/// milestone and branch position of its record.
pub uninterp spec fn channel_entries(m: IndexMap<String, (u16, u64)>) -> Seq<
    (Seq<char>, (u16, u64)),
>;

/// Relies on indexmap::IndexMap::new: a new map has no entries.
#[verifier::external_body]
pub(crate) fn channel_map_new() -> (m: IndexMap<String, (u16, u64)>)
    ensures
        channel_entries(m) == Seq::<(Seq<char>, (u16, u64))>::empty(),
{
    IndexMap::new()
}

/// Relies on indexmap::IndexMap::get: the value stored at the key, if the
/// key is present.
#[verifier::external_body]
pub(crate) fn channel_map_get(m: &IndexMap<String, (u16, u64)>, k: &String) -> (r: Option<
    (u16, u64),
>)
    ensures
        index_of_key(channel_entries(*m), k@) < 0 <==> r is None,
        index_of_key(channel_entries(*m), k@) >= 0 ==> r == Some(
            channel_entries(*m)[index_of_key(channel_entries(*m), k@)].1,
        ),
{
    m.get(k).copied()
}

/// Relies on indexmap::IndexMap::insert: an existing key keeps its place in
/// the order and its value is replaced; a new key is appended last.
#[verifier::external_body]
pub(crate) fn channel_map_insert(m: &mut IndexMap<String, (u16, u64)>, k: String, v: (u16, u64))
    ensures
        ({
            let old_e = channel_entries(*old(m));
            let i = index_of_key(old_e, k@);
            if i < 0 {
                channel_entries(*final(m)) == old_e.push((k@, v))
            } else {
                channel_entries(*final(m)) == old_e.update(i, (k@, v))
            }
        }),
{
    m.insert(k, v);
}

/// Relies on indexmap::IndexMap::iter: the entries, in insertion order.
#[verifier::external_body]
pub(crate) fn channel_map_entries_vec(m: &IndexMap<String, (u16, u64)>) -> (r: Vec<
    (String, (u16, u64)),
>)
    ensures
        r@.len() == channel_entries(*m).len(),
        forall|i: int|
            0 <= i < r@.len() ==> ((#[trigger] r@[i]).0@, r@[i].1) == channel_entries(*m)[i],
{
    m.iter().map(|(k, v)| (k.clone(), *v)).collect()
}

/// The entries of a download map, in insertion order: branch point, and the
/// labels of the channels that resolved to it.
pub uninterp spec fn download_entries(m: IndexMap<u64, Vec<String>>) -> Seq<
    (u64, Seq<Seq<char>>),
>;

/// Relies on indexmap::IndexMap::new: a new map has no entries.
#[verifier::external_body]
pub(crate) fn download_map_new() -> (m: IndexMap<u64, Vec<String>>)
    ensures
        download_entries(m) == Seq::<(u64, Seq<Seq<char>>)>::empty(),
{
    IndexMap::new()
}

/// Relies on indexmap::IndexMap::get: the value stored at the key, if the
/// key is present (handed out as a copy).
#[verifier::external_body]
pub(crate) fn download_map_get(m: &IndexMap<u64, Vec<String>>, k: u64) -> (r: Option<Vec<String>>)
    ensures
        index_of_key(download_entries(*m), k) < 0 <==> r is None,
        index_of_key(download_entries(*m), k) >= 0 ==> (r is Some && r->0@.map_values(
            |l: String| l@,
        ) == download_entries(*m)[index_of_key(download_entries(*m), k)].1),
{
    m.get(&k).cloned()
}

/// Relies on indexmap::IndexMap::insert: an existing key keeps its place in
/// the order and its value is replaced; a new key is appended last.
#[verifier::external_body]
pub(crate) fn download_map_insert(m: &mut IndexMap<u64, Vec<String>>, k: u64, v: Vec<String>)
    ensures
        ({
            let old_e = download_entries(*old(m));
            let i = index_of_key(old_e, k);
            if i < 0 {
                download_entries(*final(m)) == old_e.push((k, v@.map_values(|l: String| l@)))
            } else {
                download_entries(*final(m)) == old_e.update(i, (k, v@.map_values(|l: String| l@)))
            }
        }),
{
    m.insert(k, v);
}

/// Relies on indexmap::IndexMap::iter: the entries, in insertion order.
#[verifier::external_body]
pub(crate) fn download_map_entries_vec(m: &IndexMap<u64, Vec<String>>) -> (r: Vec<
    (u64, Vec<String>),
>)
    ensures
        r@.len() == download_entries(*m).len(),
        forall|i: int|
            0 <= i < r@.len() ==> ((#[trigger] r@[i]).0, r@[i].1@.map_values(|l: String| l@))
                == download_entries(*m)[i],
{
    m.iter().map(|(k, v)| (*k, v.clone())).collect()
}

/// The members of a version set, in insertion order.
pub uninterp spec fn build_set_items(s: IndexSet<u64>) -> Seq<u64>;

/// Relies on indexmap::IndexSet::new: a new set has no members.
#[verifier::external_body]
pub(crate) fn build_set_new() -> (s: IndexSet<u64>)
    ensures
        build_set_items(s) == Seq::<u64>::empty(),
{
    IndexSet::new()
}

/// Relies on indexmap::IndexSet::insert: a value already present leaves the
/// set unchanged; a new one is appended last.
#[verifier::external_body]
pub(crate) fn build_set_insert(s: &mut IndexSet<u64>, v: u64)
    ensures
        build_set_items(*old(s)).contains(v) ==> build_set_items(*final(s)) == build_set_items(
            *old(s),
        ),
        !build_set_items(*old(s)).contains(v) ==> build_set_items(*final(s)) == build_set_items(
            *old(s),
        ).push(v),
{
    s.insert(v);
}

/// Relies on indexmap::IndexSet::iter: the members, in insertion order.
#[verifier::external_body]
pub(crate) fn build_set_to_vec(s: &IndexSet<u64>) -> (r: Vec<u64>)
    ensures
        r@ == build_set_items(*s),
{
    s.iter().copied().collect()
}

} // verus!
