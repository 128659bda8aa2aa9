//! The occupancy index: a concurrent map from window handle to cell index.
//!
//! A window handle is an opaque token that the platform assigns; the engine
//! holds it as an `isize` and never looks inside.
//!
//! The map itself is `dashmap::DashMap`. Verus does not read that crate, so
//! what the map holds is given a name, `index_entries`, and each method that
//! the engine calls is wrapped in a function whose contract is stated over
//! that name and taken on trust from the crate's source. The wrappers that
//! change the map take it by `&mut`, although the map would let itself be
//! changed through `&`: so the verifier sees every change.
use dashmap::DashMap;
use vstd::prelude::*;

verus! {

/// `dashmap::DashMap`, declared so that the engine can hold one. Nothing of
/// its inside is known to the verifier.
#[verifier::external_type_specification]
#[verifier::external_body]
#[verifier::reject_recursive_types(K)]
#[verifier::reject_recursive_types(V)]
#[verifier::reject_recursive_types(S)]
pub struct ExDashMap<K, V, S>(DashMap<K, V, S>);

/// The entries that an occupancy index holds: for each handle in it, the
/// cell that it is entered under.
pub uninterp spec fn index_entries(index: DashMap<isize, usize>) -> Map<isize, usize>;

/// An index that holds nothing.
pub open spec fn no_entries() -> Map<isize, usize> {
    Map::empty()
}

/// `DashMap::new`: trusted to return a map without entries.
#[verifier::external_body]
pub(crate) fn index_new() -> (made: DashMap<isize, usize>)
    ensures
        index_entries(made) == no_entries(),
{
    DashMap::new()
}

/// `DashMap::get`: trusted to find the value stored under `hwnd`, if any.
#[verifier::external_body]
pub(crate) fn index_get(index: &DashMap<isize, usize>, hwnd: isize) -> (cell: Option<usize>)
    ensures
        cell == (if index_entries(*index).contains_key(hwnd) {
            Some(index_entries(*index)[hwnd])
        } else {
            None
        }),
{
    index.get(&hwnd).map(|entry| *entry.value())
}

/// `DashMap::contains_key`: trusted to say whether `hwnd` is a key.
#[verifier::external_body]
pub(crate) fn index_contains_key(index: &DashMap<isize, usize>, hwnd: isize) -> (found: bool)
    ensures
        found == index_entries(*index).contains_key(hwnd),
{
    index.contains_key(&hwnd)
}

/// `DashMap::insert`: trusted to store `cell` under `hwnd`, replacing an
/// earlier value, which it returns, and to leave other keys alone.
#[verifier::external_body]
pub(crate) fn index_insert(index: &mut DashMap<isize, usize>, hwnd: isize, cell: usize) -> (prior:
    Option<usize>)
    ensures
        index_entries(*final(index)) == index_entries(*old(index)).insert(hwnd, cell),
        prior == (if index_entries(*old(index)).contains_key(hwnd) {
            Some(index_entries(*old(index))[hwnd])
        } else {
            None
        }),
{
    index.insert(hwnd, cell)
}

/// `DashMap::remove`: trusted to drop the entry under `hwnd`, returning it
/// if there was one, and to leave other keys alone.
#[verifier::external_body]
pub(crate) fn index_remove(index: &mut DashMap<isize, usize>, hwnd: isize) -> (prior: Option<
    (isize, usize),
>)
    ensures
        index_entries(*final(index)) == index_entries(*old(index)).remove(hwnd),
        prior == (if index_entries(*old(index)).contains_key(hwnd) {
            Some((hwnd, index_entries(*old(index))[hwnd]))
        } else {
            None
        }),
{
    index.remove(&hwnd)
}

/// `DashMap::iter`: trusted to visit every entry exactly once, in an order
/// of which nothing is claimed.
#[verifier::external_body]
pub(crate) fn index_pairs(index: &DashMap<isize, usize>) -> (pairs: Vec<(isize, usize)>)
    ensures
        forall|k: int|
            0 <= k < pairs@.len() ==> index_entries(*index).contains_pair(
                (#[trigger] pairs@[k]).0,
                pairs@[k].1,
            ),
        forall|h: isize|
            index_entries(*index).contains_key(h) ==> exists|k: int|
                0 <= k < pairs@.len() && (#[trigger] pairs@[k]).0 == h,
        forall|j: int, k: int|
            0 <= j < k < pairs@.len() ==> (#[trigger] pairs@[j]).0 != (#[trigger] pairs@[k]).0,
{
    index.iter().map(|entry| (*entry.key(), *entry.value())).collect()
}

} // verus!
