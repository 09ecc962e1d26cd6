//! The registry of native pointers handed out to Java: a pointer is valid
//! while it is registered and not null.

use std::collections::HashSet;
use vstd::prelude::*;

verus! {

broadcast use vstd::std_specs::hash::group_hash_axioms;

/// The set of native pointers currently handed out.
pub struct JniPointerRegistry {
    set: HashSet<usize>,
}

impl View for JniPointerRegistry {
    type V = Set<usize>;

    closed spec fn view(&self) -> Set<usize> {
        self.set@
    }
}

impl JniPointerRegistry {
    /// A registry with no pointer.
    pub fn new() -> (r: Self)
        ensures
            r@ == Set::<usize>::empty(),
    {
        JniPointerRegistry { set: HashSet::new() }
    }
}

/// Records `ptr` as handed out.
pub fn register_jni_ptr(registry: &mut JniPointerRegistry, ptr: usize)
    ensures
        final(registry)@ == old(registry)@.insert(ptr),
{
    registry.set.insert(ptr);
}

/// Records `ptr` as no longer handed out.
pub fn unregister_jni_ptr(registry: &mut JniPointerRegistry, ptr: usize)
    ensures
        final(registry)@ == old(registry)@.remove(ptr),
{
    registry.set.remove(&ptr);
}

/// Whether `ptr` is not null and currently handed out.
pub fn is_jni_ptr_valid(registry: &JniPointerRegistry, ptr: usize) -> (valid: bool)
    ensures
        valid == (ptr != 0 && registry@.contains(ptr)),
{
    if ptr == 0 {
        return false;
    }
    registry.set.contains(&ptr)
}

/// A registered pointer other than null is valid until it is unregistered,
/// and an unregistered one is no longer valid; pointers other than the one
/// registered or unregistered keep their validity.
pub proof fn law_register_unregister(before: Set<usize>, ptr: usize, other: usize)
    ensures
        ptr != 0 ==> before.insert(ptr).contains(ptr),
        !before.remove(ptr).contains(ptr),
        other != ptr ==> (before.insert(ptr).contains(other) == before.contains(other)),
        other != ptr ==> (before.remove(ptr).contains(other) == before.contains(other)),
{
}

} // verus!
