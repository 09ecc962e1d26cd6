//! Registries of validation objects handed out to foreign callers, held in
//! concurrent sets of the dashmap crate, and the slot through which a
//! foreign caller configures a validator builder until it is built.

use dashmap::DashSet;
use vstd::prelude::*;

verus! {

/// The concurrent set of the dashmap crate.
#[verifier::external_type_specification]
#[verifier::external_body]
#[verifier::reject_recursive_types(K)]
#[verifier::reject_recursive_types(S)]
pub struct ExDashSet<K, S>(DashSet<K, S>);

/// The pointers that a dashmap set of pointers holds.
pub uninterp spec fn dash_set_contents(set: DashSet<usize>) -> Set<usize>;

/// Calls `DashSet::new`. Trusted: a new set holds nothing.
#[verifier::external_body]
fn dash_set_new() -> (set: DashSet<usize>)
    ensures
        dash_set_contents(set) == Set::<usize>::empty(),
{
    DashSet::new()
}

/// Calls `DashSet::insert`. Trusted: the key is added, and the result says
/// whether it was absent before (the source returns `is_none()` of the
/// previous value in the underlying map).
#[verifier::external_body]
fn dash_set_insert(set: &mut DashSet<usize>, key: usize) -> (added: bool)
    ensures
        dash_set_contents(*final(set)) == dash_set_contents(*old(set)).insert(key),
        added == !dash_set_contents(*old(set)).contains(key),
{
    set.insert(key)
}

/// Calls `DashSet::remove`. Trusted: the key is removed, and the stored key
/// is returned when it was present.
#[verifier::external_body]
fn dash_set_remove(set: &mut DashSet<usize>, key: usize) -> (removed: Option<usize>)
    ensures
        dash_set_contents(*final(set)) == dash_set_contents(*old(set)).remove(key),
        removed == (if dash_set_contents(*old(set)).contains(key) { Some(key) } else { None::<usize> }),
{
    set.remove(&key)
}

/// Calls `DashSet::contains`. Trusted: says whether the key is held.
#[verifier::external_body]
fn dash_set_contains(set: &DashSet<usize>, key: usize) -> (found: bool)
    ensures
        found == dash_set_contents(*set).contains(key),
{
    set.contains(&key)
}

/// An empty registry.
pub fn new_registry() -> (registry: DashSet<usize>)
    ensures
        dash_set_contents(registry) == Set::<usize>::empty(),
{
    dash_set_new()
}

/// Records `ptr` in `registry`.
pub fn register_ptr(registry: &mut DashSet<usize>, ptr: usize)
    ensures
        dash_set_contents(*final(registry)) == dash_set_contents(*old(registry)).insert(ptr),
{
    dash_set_insert(registry, ptr);
}

/// Removes `ptr` from `registry`, saying whether it was there.
pub fn unregister_ptr(registry: &mut DashSet<usize>, ptr: usize) -> (was_there: bool)
    ensures
        dash_set_contents(*final(registry)) == dash_set_contents(*old(registry)).remove(ptr),
        was_there == dash_set_contents(*old(registry)).contains(ptr),
{
    dash_set_remove(registry, ptr).is_some()
}

/// Whether `ptr` is not null and recorded in `registry`.
pub fn is_valid_ptr(registry: &DashSet<usize>, ptr: usize) -> (valid: bool)
    ensures
        valid == (ptr != 0 && dash_set_contents(*registry).contains(ptr)),
{
    ptr != 0 && dash_set_contains(registry, ptr)
}

/// A pointer is freed at most once: unregistering it a second time finds
/// it gone.
pub proof fn law_unregister_once(before: Set<usize>, ptr: usize)
    ensures
        !before.remove(ptr).contains(ptr),
        before.remove(ptr).remove(ptr) == before.remove(ptr),
{
    assert(before.remove(ptr).remove(ptr) =~= before.remove(ptr));
}

/// The slot holding a validator builder while a foreign caller configures
/// it; building takes the builder out, after which the slot is consumed.
pub struct BuilderSlot<B> {
    inner: Option<B>,
}

impl<B> BuilderSlot<B> {
    /// The builder the slot holds, or `None` once it has been consumed.
    pub closed spec fn builder(&self) -> Option<B> {
        self.inner
    }

    /// A slot holding `builder`.
    pub fn new(builder: B) -> (slot: Self)
        ensures
            slot.builder() == Some(builder),
    {
        BuilderSlot { inner: Some(builder) }
    }

    /// Replaces the builder by `f` applied to it; a consumed slot is left
    /// as it is and `f` is not called.
    pub fn modify<F: FnOnce(B) -> B>(&mut self, f: F)
        requires
            old(self).builder() matches Some(b) ==> f.requires((b,)),
        ensures
            old(self).builder() is None ==> final(self).builder() is None,
            old(self).builder() matches Some(b) ==> (final(self).builder() matches Some(r) && f.ensures((b,), r)),
    {
        match self.inner.take() {
            Some(b) => {
                self.inner = Some(f(b));
            },
            None => {},
        }
    }

    /// Takes the builder out to build it; the slot is consumed afterwards.
    pub fn take_builder(&mut self) -> (b: Option<B>)
        ensures
            b == old(self).builder(),
            final(self).builder() is None,
    {
        self.inner.take()
    }
}

/// A builder is built at most once: once the slot is consumed, a further
/// take gives nothing and a further modification leaves it consumed.
pub proof fn law_built_at_most_once<B>(consumed: BuilderSlot<B>, taken_again: Option<B>, modified: BuilderSlot<B>)
    requires
        consumed.builder() is None,
        taken_again == consumed.builder(),
        consumed.builder() is None ==> modified.builder() is None,
    ensures
        taken_again is None,
        modified.builder() is None,
{
}

} // verus!
