//! The life of an identity in the registry.
//!
//! An identity is absent, then under construction, then present. Only one
//! caller constructs it: the others wait, and get the instance that the one
//! has built. A construction that fails leaves the identity absent, so that
//! it can be tried again. A present identity stays as it is.

use std::sync::Arc;
use vstd::prelude::*;

verus! {

/// Where an identity stands.
pub enum SlotState<T> {
    /// Nothing is stored and nobody constructs.
    Absent,
    /// One caller constructs the instance.
    Loading,
    /// The instance is stored.
    Present(Arc<T>),
}

/// What a caller that asks for a plugin does next.
pub enum LoadStep<T> {
    /// The instance exists: take it.
    Ready(Arc<T>),
    /// Another caller constructs the instance: ask again later.
    Wait,
    /// The identity was absent and is now this caller's to construct. The
    /// caller reports the instance once it is built, or the failure.
    Construct,
}

/// What the registry knows of its plugins: the instances that it stores,
/// each under its identity, and the identities under construction.
pub struct RegistryState<T> {
    pub instances: Map<Seq<char>, Arc<T>>,
    pub loading: Set<Seq<char>>,
}

impl<T> RegistryState<T> {
    /// The registry that stores nothing and constructs nothing.
    pub open spec fn empty() -> Self {
        RegistryState { instances: Map::empty(), loading: Set::empty() }
    }

    /// No stored identity is under construction.
    pub open spec fn wf(self) -> bool {
        forall|id: Seq<char>| self.loading.contains(id) ==> !self.instances.contains_key(id)
    }

    /// Where an identity stands.
    pub open spec fn slot(self, id: Seq<char>) -> SlotState<T> {
        if self.instances.contains_key(id) {
            SlotState::Present(self.instances[id])
        } else if self.loading.contains(id) {
            SlotState::Loading
        } else {
            SlotState::Absent
        }
    }

    /// The instance stored under an identity.
    pub open spec fn found(self, id: Seq<char>) -> Option<Arc<T>> {
        if self.instances.contains_key(id) {
            Some(self.instances[id])
        } else {
            None
        }
    }

    /// What a caller that asks for an identity is told.
    pub open spec fn answer(self, id: Seq<char>) -> LoadStep<T> {
        match self.slot(id) {
            SlotState::Present(instance) => LoadStep::Ready(instance),
            SlotState::Loading => LoadStep::Wait,
            SlotState::Absent => LoadStep::Construct,
        }
    }

    /// The registry after a caller has asked for an identity: an absent
    /// identity is under construction, and nothing else has changed.
    pub open spec fn requested(self, id: Seq<char>) -> Self {
        match self.slot(id) {
            SlotState::Absent => RegistryState {
                instances: self.instances,
                loading: self.loading.insert(id),
            },
            _ => self,
        }
    }

    /// The instance that stands under an identity once a caller has
    /// reported one as built: the stored one where the identity was
    /// present, else the reported one.
    pub open spec fn kept(self, id: Seq<char>, instance: Arc<T>) -> Arc<T> {
        if self.instances.contains_key(id) {
            self.instances[id]
        } else {
            instance
        }
    }

    /// The registry after a caller has reported an instance as built.
    pub open spec fn built(self, id: Seq<char>, instance: Arc<T>) -> Self {
        if self.instances.contains_key(id) {
            self
        } else {
            RegistryState {
                instances: self.instances.insert(id, instance),
                loading: self.loading.remove(id),
            }
        }
    }

    /// The registry after a caller has reported that a construction
    /// failed: the identity is not under construction.
    pub open spec fn failed(self, id: Seq<char>) -> Self {
        RegistryState { instances: self.instances, loading: self.loading.remove(id) }
    }

    /// Whether an instance can be registered under an identity.
    pub open spec fn accepts(self, id: Seq<char>) -> bool {
        !self.instances.contains_key(id)
    }

    /// The registry after an instance was handed in for an identity: stored
    /// where the identity was not present, and refused where it was.
    pub open spec fn registered(self, id: Seq<char>, instance: Arc<T>) -> Self {
        if self.accepts(id) {
            RegistryState {
                instances: self.instances.insert(id, instance),
                loading: self.loading.remove(id),
            }
        } else {
            self
        }
    }
}

/// Every step leaves the registry with no stored identity under
/// construction.
pub proof fn lemma_steps_keep_wf<T>(state: RegistryState<T>, id: Seq<char>, instance: Arc<T>)
    requires
        state.wf(),
    ensures
        RegistryState::<T>::empty().wf(),
        state.requested(id).wf(),
        state.built(id, instance).wf(),
        state.failed(id).wf(),
        state.registered(id, instance).wf(),
{
}

/// An identity that was never asked for nor registered is unknown: the
/// new registry finds nothing, and a step for one identity changes
/// nothing for another.
pub proof fn lemma_steps_touch_one_identity<T>(
    state: RegistryState<T>,
    id: Seq<char>,
    instance: Arc<T>,
    other: Seq<char>,
)
    requires
        other != id,
    ensures
        RegistryState::<T>::empty().found(other) is None,
        RegistryState::<T>::empty().slot(other) is Absent,
        state.requested(id).slot(other) == state.slot(other),
        state.built(id, instance).slot(other) == state.slot(other),
        state.failed(id).slot(other) == state.slot(other),
        state.registered(id, instance).slot(other) == state.slot(other),
        state.requested(id).answer(other) == state.answer(other),
{
}

/// An identity is constructed once. Of the callers that ask for an absent
/// identity the first is told to construct, and the others to wait until it
/// has reported. Then each of them is handed the instance that was built,
/// also one that comes with an instance of its own.
pub proof fn lemma_one_construction<T>(
    state: RegistryState<T>,
    id: Seq<char>,
    first: Arc<T>,
    second: Arc<T>,
)
    requires
        state.wf(),
        state.slot(id) is Absent,
    ensures
        state.answer(id) is Construct,
        state.requested(id).answer(id) is Wait,
        state.requested(id).requested(id) == state.requested(id),
        state.requested(id).built(id, first).answer(id) == LoadStep::Ready(first),
        state.requested(id).built(id, first).kept(id, second) == first,
        state.requested(id).built(id, first).built(id, second) == state.requested(id).built(
            id,
            first,
        ),
{
}

/// A present identity stays present with its instance, whatever is asked,
/// reported or registered, for it or for another identity.
pub proof fn lemma_present_stays<T>(
    state: RegistryState<T>,
    id: Seq<char>,
    acted: Seq<char>,
    instance: Arc<T>,
)
    requires
        state.instances.contains_key(id),
    ensures
        state.requested(acted).found(id) == state.found(id),
        state.built(acted, instance).found(id) == state.found(id),
        state.failed(acted).found(id) == state.found(id),
        state.registered(acted, instance).found(id) == state.found(id),
{
}

/// An instance that is registered under an identity that is not present
/// is the one that is found there afterwards. Under a present identity
/// the registry refuses it and stays as it is.
pub proof fn lemma_registered_is_found<T>(state: RegistryState<T>, id: Seq<char>, instance: Arc<T>)
    ensures
        state.accepts(id) ==> state.registered(id, instance).found(id) == Some(instance),
        !state.accepts(id) ==> state.registered(id, instance) == state,
        !state.accepts(id) ==> state.registered(id, instance).found(id) == state.found(id),
{
}

/// A construction that fails leaves the identity absent, and the next
/// caller that asks is told to construct: what it builds is stored.
pub proof fn lemma_failed_load_can_be_retried<T>(
    state: RegistryState<T>,
    id: Seq<char>,
    instance: Arc<T>,
)
    requires
        state.wf(),
        state.slot(id) is Absent,
    ensures
        state.requested(id).failed(id).slot(id) is Absent,
        state.requested(id).failed(id).found(id) is None,
        state.requested(id).failed(id) == state,
        state.requested(id).failed(id).answer(id) is Construct,
        state.requested(id).failed(id).requested(id).built(id, instance).found(id) == Some(
            instance,
        ),
{
    let back = state.requested(id).failed(id);
    assert(back.loading =~= state.loading);
}

} // verus!
