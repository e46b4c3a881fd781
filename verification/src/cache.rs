//! The concurrent map that finds a plugin's slot by its identity.
//!
//! The map is `scc::HashMap`. Verus does not look inside it: what it holds
//! has a name, and each method that the registry calls has a contract over
//! that name. Every change goes through `&mut`, so that one owner at a time
//! speaks of what the map holds.

use vstd::prelude::*;

verus! {

#[verifier::external_type_specification]
#[verifier::external_body]
#[verifier::reject_recursive_types(K)]
#[verifier::reject_recursive_types(V)]
#[verifier::reject_recursive_types(H)]
pub struct ExSlotMap<K, V, H: core::hash::BuildHasher>(scc::HashMap<K, V, H>);

/// What the map holds: for each identity in it, the slot of its instance.
pub uninterp spec fn slots_of(index: scc::HashMap<String, usize>) -> Map<Seq<char>, usize>;

/// The map of slots that holds nothing.
pub open spec fn no_slots() -> Map<Seq<char>, usize> {
    Map::empty()
}

/// Calls `scc::HashMap::default`, which creates a map that holds nothing.
#[verifier::external_body]
pub(crate) fn index_new() -> (index: scc::HashMap<String, usize>)
    ensures
        slots_of(index) == no_slots(),
{
    scc::HashMap::default()
}

/// Calls `scc::HashMap::contains`, which says whether the map holds a value
/// for the key.
#[verifier::external_body]
pub(crate) fn index_contains(index: &scc::HashMap<String, usize>, id: &str) -> (found: bool)
    ensures
        found == slots_of(*index).contains_key(id@),
{
    index.contains(id)
}

/// Calls `scc::HashMap::get` and reads the entry that it hands out: the
/// value stored for the key, or `None` where the map has no such key.
#[verifier::external_body]
pub(crate) fn index_get(index: &scc::HashMap<String, usize>, id: &str) -> (slot: Option<usize>)
    ensures
        slot == if slots_of(*index).contains_key(id@) {
            Some(slots_of(*index)[id@])
        } else {
            None
        },
{
    index.get(id).map(|entry| *entry.get())
}

/// Calls `scc::HashMap::insert`, which stores the pair where the map has no
/// such key, and where it has one leaves the map as it is and hands the
/// pair back.
#[verifier::external_body]
pub(crate) fn index_insert(index: &mut scc::HashMap<String, usize>, id: String, slot: usize) -> (r:
    Result<(), (String, usize)>)
    ensures
        slots_of(*old(index)).contains_key(id@) ==> (r matches Err(back) && back.0 == id
            && back.1 == slot) && slots_of(*final(index)) == slots_of(*old(index)),
        !slots_of(*old(index)).contains_key(id@) ==> r is Ok && slots_of(*final(index))
            == slots_of(*old(index)).insert(id@, slot),
{
    index.insert(id, slot)
}

} // verus!
