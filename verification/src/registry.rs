//! The registry of plugins.
//!
//! The registry stores one shared instance for each identity, finds it by
//! the identity in a concurrent map, keeps the table of virtual paths, and
//! prepares what is needed to start a plugin that is not stored yet.

use crate::cache::{index_contains, index_get, index_insert, index_new, no_slots, slots_of};
use crate::error::PluginError;
use crate::identity::{id_format_accepted, stable_id, stable_identity};
use crate::manifest::Manifest;
use crate::paths::{mapping_of, merged_pairs, path_pairs, specific_first, VirtualPathTable};
use crate::plan::{assemble_plan, LoadFailure, LoadPlan, SandboxContext};
use crate::protocol::{LoadStep, RegistryState};
use std::sync::Arc;
use vstd::prelude::*;

verus! {

/// Calls `Arc::clone`, which makes one more handle to the same value.
#[verifier::external_body]
fn share<T>(instance: &Arc<T>) -> (shared: Arc<T>)
    ensures
        shared == *instance,
{
    Arc::clone(instance)
}

/// The identities of a list, as a set.
pub open spec fn identities(pending: Seq<String>) -> Set<Seq<char>> {
    Set::new(|id: Seq<char>| exists|i: int| 0 <= i < pending.len() && #[trigger] pending[i]@ == id)
}

/// No identity stands twice in the list.
pub open spec fn distinct_identities(pending: Seq<String>) -> bool {
    forall|i: int, j: int| 0 <= i < j < pending.len() ==> pending[i]@ != pending[j]@
}

/// Where an identity stands in a list.
fn position(pending: &Vec<String>, id: &String) -> (at: Option<usize>)
    ensures
        match at {
            Some(i) => i < pending@.len() && pending@[i as int]@ == id@,
            None => !identities(pending@).contains(id@),
        },
{
    let mut i: usize = 0;
    while i < pending.len()
        invariant
            i <= pending.len(),
            forall|j: int| 0 <= j < i ==> pending@[j]@ != id@,
        decreases pending.len() - i,
    {
        if pending[i] == *id {
            return Some(i);
        }
        i += 1;
    }
    None
}

/// Takes an identity out of a list in which none stands twice.
fn forget(pending: &mut Vec<String>, id: &String)
    requires
        distinct_identities(old(pending)@),
    ensures
        distinct_identities(final(pending)@),
        identities(final(pending)@) == identities(old(pending)@).remove(id@),
{
    match position(pending, id) {
        Some(at) => {
            let ghost before = pending@;
            pending.remove(at);
            proof {
                let after = pending@;
                assert forall|i: int, j: int| 0 <= i < j < after.len() implies after[i]@
                    != after[j]@ by {
                    let a = if i < at { i } else { i + 1 };
                    let b = if j < at { j } else { j + 1 };
                    assert(before[a]@ != before[b]@);
                }
                assert forall|other: Seq<char>|
                    identities(after).contains(other) <==> identities(before).remove(
                        id@,
                    ).contains(other) by {
                    if identities(after).contains(other) {
                        let i = choose|i: int| 0 <= i < after.len() && #[trigger] after[i]@ == other;
                        let a = if i < at { i } else { i + 1 };
                        assert(before[a]@ == other);
                        if a < at {
                            assert(before[a]@ != before[at as int]@);
                        } else {
                            assert(before[at as int]@ != before[a]@);
                        }
                    }
                    if identities(before).remove(id@).contains(other) {
                        let a = choose|a: int|
                            0 <= a < before.len() && #[trigger] before[a]@ == other;
                        let i = if a < at { a } else { a - 1 };
                        assert(after[i]@ == other);
                    }
                }
                assert(identities(after) =~= identities(before).remove(id@));
            }
        },
        None => {
            assert(identities(pending@) =~= identities(pending@).remove(id@));
        },
    }
}

/// The registry of the plugins of one kind.
#[derive(Debug)]
pub struct PluginRegistry<T> {
    index: scc::HashMap<String, usize>,
    slots: Vec<(String, Arc<T>)>,
    pending: Vec<String>,
    virtual_paths: VirtualPathTable,
}

impl<T> View for PluginRegistry<T> {
    type V = RegistryState<T>;

    closed spec fn view(&self) -> RegistryState<T> {
        RegistryState {
            instances: Map::new(
                |id: Seq<char>| slots_of(self.index).contains_key(id),
                |id: Seq<char>| self.slots@[slots_of(self.index)[id] as int].1,
            ),
            loading: identities(self.pending@),
        }
    }
}

impl<T> PluginRegistry<T> {
    /// The map finds each stored instance's slot and nothing else, no
    /// identity under construction is stored or listed twice, and the
    /// table of virtual paths names no host prefix twice.
    pub closed spec fn wf(&self) -> bool {
        &&& self.virtual_paths.wf()
        &&& forall|id: Seq<char>| #[trigger]
            slots_of(self.index).contains_key(id) ==> slots_of(self.index)[id] < self.slots@.len()
                && self.slots@[slots_of(self.index)[id] as int].0@ == id
        &&& forall|i: int|
            0 <= i < self.slots@.len() ==> slots_of(self.index).contains_key(
                #[trigger] self.slots@[i].0@,
            ) && slots_of(self.index)[self.slots@[i].0@] == i
        &&& distinct_identities(self.pending@)
        &&& forall|i: int|
            0 <= i < self.pending@.len() ==> !slots_of(self.index).contains_key(
                #[trigger] self.pending@[i]@,
            )
    }

    /// The table of virtual paths.
    pub closed spec fn table(&self) -> VirtualPathTable {
        self.virtual_paths
    }

    /// The stored instances with their identities, in the order in which
    /// they were stored.
    pub closed spec fn stored(&self) -> Seq<(String, Arc<T>)> {
        self.slots@
    }

    /// A registry in order has a state in order, and lists each stored
    /// instance once.
    pub proof fn lemma_wf(&self)
        requires
            self.wf(),
        ensures
            self@.wf(),
            self.table().wf(),
            forall|i: int|
                0 <= i < self.stored().len() ==> self@.instances.contains_key(
                    #[trigger] self.stored()[i].0@,
                ) && self@.instances[self.stored()[i].0@] == self.stored()[i].1,
            forall|id: Seq<char>| #[trigger]
                self@.instances.contains_key(id) ==> exists|i: int|
                    0 <= i < self.stored().len() && self.stored()[i].0@ == id,
            forall|i: int, j: int|
                0 <= i < j < self.stored().len() ==> self.stored()[i].0@ != self.stored()[j].0@,
    {
        assert forall|id: Seq<char>| self@.loading.contains(id) implies !self@.instances.contains_key(
            id,
        ) by {
            let i = choose|i: int| 0 <= i < self.pending@.len() && #[trigger] self.pending@[i]@ == id;
        }
        assert forall|id: Seq<char>| #[trigger] self@.instances.contains_key(id) implies exists|
            i: int,
        |
            0 <= i < self.stored().len() && self.stored()[i].0@ == id by {
            let i = slots_of(self.index)[id] as int;
            assert(self.stored()[i].0@ == id);
        }
    }

    /// Creates a registry that stores nothing, with the table of virtual
    /// paths merged from two sources, of which the second wins.
    pub fn new(first: &Vec<(String, String)>, second: &Vec<(String, String)>) -> (registry: Self)
        ensures
            registry.wf(),
            registry@ == RegistryState::<T>::empty(),
            registry.stored().len() == 0,
            registry.table().pairs() == specific_first(
                merged_pairs(path_pairs(first@) + path_pairs(second@)),
            ),
            registry.table().mapping() == mapping_of(path_pairs(first@) + path_pairs(second@)),
            first@.len() == 0 && second@.len() == 0 ==> registry.table().pairs().len() == 0,
    {
        let registry = PluginRegistry {
            index: index_new(),
            slots: Vec::new(),
            pending: Vec::new(),
            virtual_paths: VirtualPathTable::new(first, second),
        };
        proof {
            assert(slots_of(registry.index) == no_slots());
            assert(registry@.instances =~= Map::empty());
            assert(registry@.loading =~= Set::empty());
        }
        registry
    }

    /// The table of virtual paths.
    pub fn get_virtual_paths(&self) -> (table: &VirtualPathTable)
        ensures
            *table == self.table(),
    {
        &self.virtual_paths
    }

    /// The stored instances with their identities, in the order in which
    /// they were stored.
    pub fn get_cache(&self) -> (cache: &Vec<(String, Arc<T>)>)
        ensures
            cache@ == self.stored(),
    {
        &self.slots
    }

    /// Whether an instance is stored under the identity.
    pub fn is_registered(&self, id: &str) -> (found: bool)
        ensures
            found == self@.instances.contains_key(id@),
    {
        index_contains(&self.index, id)
    }

    /// The instance stored under the identity, or `UnknownId`. Nothing is
    /// constructed.
    pub fn get_instance(&self, id: &str) -> (r: Result<Arc<T>, PluginError>)
        requires
            self.wf(),
        ensures
            match self@.found(id@) {
                Some(instance) => r matches Ok(got) && got == instance,
                None => r matches Err(PluginError::UnknownId { id: unknown }) && unknown@ == id@,
            },
    {
        match index_get(&self.index, id) {
            Some(slot) => Ok(share(&self.slots[slot].1)),
            None => Err(PluginError::UnknownId { id: id.to_owned() }),
        }
    }

    /// Asks for the plugin of an identity. A stored instance is handed
    /// out. An absent identity becomes the caller's to construct. While
    /// it is under construction, every other caller is told to wait.
    pub fn request(&mut self, id: &str) -> (step: LoadStep<T>)
        requires
            old(self).wf(),
        ensures
            final(self).wf(),
            step == old(self)@.answer(id@),
            final(self)@ == old(self)@.requested(id@),
            final(self).table() == old(self).table(),
            final(self).stored() == old(self).stored(),
    {
        proof {
            self.lemma_wf();
        }
        match index_get(&self.index, id) {
            Some(slot) => LoadStep::Ready(share(&self.slots[slot].1)),
            None => {
                let key = id.to_owned();
                match position(&self.pending, &key) {
                    Some(_) => LoadStep::Wait,
                    None => {
                        let ghost before = self.pending@;
                        self.pending.push(key);
                        proof {
                            let after = self.pending@;
                            assert forall|other: Seq<char>|
                                identities(after).contains(other) <==> identities(before).insert(
                                    id@,
                                ).contains(other) by {
                                if identities(after).contains(other) {
                                    let i = choose|i: int|
                                        0 <= i < after.len() && #[trigger] after[i]@ == other;
                                    if i < before.len() {
                                        assert(before[i]@ == other);
                                    }
                                }
                                if identities(before).contains(other) {
                                    let i = choose|i: int|
                                        0 <= i < before.len() && #[trigger] before[i]@ == other;
                                    assert(after[i]@ == other);
                                }
                                if other == id@ {
                                    assert(after[before.len() as int]@ == other);
                                }
                            }
                            assert(identities(after) =~= identities(before).insert(id@));
                            assert forall|i: int, j: int|
                                0 <= i < j < after.len() implies after[i]@ != after[j]@ by {
                                if j < before.len() {
                                    assert(before[i]@ != before[j]@);
                                } else {
                                    assert(before[i]@ == after[i]@);
                                }
                            }
                            assert(self@.instances =~= old(self)@.instances);
                        }
                        LoadStep::Construct
                    },
                }
            },
        }
    }

    /// Stores an instance under an identity that has none, and takes the
    /// identity out of those under construction.
    fn store(&mut self, id: &str, instance: Arc<T>)
        requires
            old(self).wf(),
            !old(self)@.instances.contains_key(id@),
        ensures
            final(self).wf(),
            final(self)@.instances == old(self)@.instances.insert(id@, instance),
            final(self)@.loading == old(self)@.loading.remove(id@),
            final(self).table() == old(self).table(),
            final(self).stored().len() == old(self).stored().len() + 1,
            final(self).stored().drop_last() == old(self).stored(),
            final(self).stored().last().0@ == id@,
            final(self).stored().last().1 == instance,
    {
        let key = id.to_owned();
        forget(&mut self.pending, &key);
        let slot = self.slots.len();
        let ghost slots_before = self.slots@;
        let ghost index_before = slots_of(self.index);
        let _ = index_insert(&mut self.index, key, slot);
        self.slots.push((id.to_owned(), instance));
        proof {
            let index_after = slots_of(self.index);
            assert(index_after == index_before.insert(id@, slot));
            assert(self.slots@.drop_last() =~= slots_before);
            assert forall|other: Seq<char>| #[trigger]
                index_after.contains_key(other) implies index_after[other] < self.slots@.len()
                && self.slots@[index_after[other] as int].0@ == other by {
                if other != id@ {
                    assert(index_before.contains_key(other));
                }
            }
            assert forall|i: int| 0 <= i < self.slots@.len() implies index_after.contains_key(
                #[trigger] self.slots@[i].0@,
            ) && index_after[self.slots@[i].0@] == i by {
                if i < slots_before.len() {
                    assert(self.slots@[i] == slots_before[i]);
                    assert(index_before.contains_key(slots_before[i].0@));
                }
            }
            assert forall|i: int| 0 <= i < self.pending@.len() implies !index_after.contains_key(
                #[trigger] self.pending@[i]@,
            ) by {
                assert(identities(self.pending@).contains(self.pending@[i]@));
                assert(identities(old(self).pending@).contains(self.pending@[i]@));
                let j = choose|j: int|
                    0 <= j < old(self).pending@.len() && #[trigger] old(self).pending@[j]@
                        == self.pending@[i]@;
                assert(!index_before.contains_key(old(self).pending@[j]@));
            }
            assert forall|other: Seq<char>| #[trigger]
                self@.instances.contains_key(other) implies self@.instances[other] == old(
                self,
            )@.instances.insert(id@, instance)[other] by {
                if other != id@ {
                    assert(index_before.contains_key(other));
                    assert(self.slots@[index_before[other] as int] == slots_before[index_before[other] as int]);
                }
            }
            assert(self@.instances =~= old(self)@.instances.insert(id@, instance));
        }
    }

    /// Reports that the instance of an identity is built. It is stored,
    /// and the identity is no longer under construction. Where an
    /// instance is stored already, that one stays and is handed out.
    pub fn complete_load(&mut self, id: &str, plugin: T) -> (instance: Arc<T>)
        requires
            old(self).wf(),
        ensures
            final(self).wf(),
            instance == old(self)@.kept(id@, Arc::new(plugin)),
            final(self)@ == old(self)@.built(id@, Arc::new(plugin)),
            final(self).table() == old(self).table(),
    {
        match index_get(&self.index, id) {
            Some(slot) => share(&self.slots[slot].1),
            None => {
                let instance = Arc::new(plugin);
                self.store(id, share(&instance));
                instance
            },
        }
    }

    /// Reports that the construction of an identity failed. The identity
    /// is no longer under construction, so that it can be asked for again.
    pub fn abandon_load(&mut self, id: &str)
        requires
            old(self).wf(),
        ensures
            final(self).wf(),
            final(self)@ == old(self)@.failed(id@),
            final(self).table() == old(self).table(),
            final(self).stored() == old(self).stored(),
    {
        let key = id.to_owned();
        forget(&mut self.pending, &key);
        proof {
            assert(self@.instances =~= old(self)@.instances);
            assert forall|i: int| 0 <= i < self.pending@.len() implies !slots_of(
                self.index,
            ).contains_key(#[trigger] self.pending@[i]@) by {
                assert(identities(self.pending@).contains(self.pending@[i]@));
                assert(identities(old(self).pending@).contains(self.pending@[i]@));
                let j = choose|j: int|
                    0 <= j < old(self).pending@.len() && #[trigger] old(self).pending@[j]@
                        == self.pending@[i]@;
            }
        }
    }

    /// Stores an instance that was built elsewhere. An identity that is
    /// present keeps its instance, and the call fails with `ExistingId`.
    pub fn register(&mut self, id: String, plugin: T) -> (r: Result<(), PluginError>)
        requires
            old(self).wf(),
        ensures
            final(self).wf(),
            final(self)@ == old(self)@.registered(id@, Arc::new(plugin)),
            final(self).table() == old(self).table(),
            old(self)@.accepts(id@) ==> r is Ok,
            !old(self)@.accepts(id@) ==> (r matches Err(PluginError::ExistingId { id: existing })
                && existing@ == id@) && final(self).stored() == old(self).stored(),
    {
        if self.is_registered(id.as_str()) {
            return Err(PluginError::ExistingId { id });
        }
        self.store(id.as_str(), Arc::new(plugin));
        Ok(())
    }

    /// Rewrites a host path to the path that the sandbox sees.
    pub fn to_virtual_path(&self, path: &str) -> (r: String)
        ensures
            r@ == self.table().to_virtual_spec(path@),
            self.table().pairs().len() == 0 ==> r@ == path@,
    {
        self.virtual_paths.to_virtual_path(path)
    }

    /// Rewrites a path that the sandbox sees to the host path.
    pub fn from_virtual_path(&self, path: &str) -> (r: String)
        ensures
            r@ == self.table().from_virtual_spec(path@),
            self.table().pairs().len() == 0 ==> r@ == path@,
    {
        self.virtual_paths.from_virtual_path(path)
    }

    /// The paths that a plugin is told of: the working directory and the
    /// root of the workspace, each as the sandbox sees it.
    pub fn create_context(&self, working_dir: &str, workspace_root: &str) -> (context:
        SandboxContext)
        ensures
            context.working_dir@ == self.table().to_virtual_spec(working_dir@),
            context.workspace_root@ == self.table().to_virtual_spec(workspace_root@),
    {
        SandboxContext {
            working_dir: self.to_virtual_path(working_dir),
            workspace_root: self.to_virtual_path(workspace_root),
        }
    }

    /// The manifest of a plugin before anything is customized: every host
    /// is allowed, the allowed paths are all the pairs of the table of
    /// virtual paths, and calls never time out.
    pub fn create_manifest(&self, id: &str, wasm_file: String) -> (manifest: Manifest)
        ensures
            manifest.is_default_for(id@, wasm_file@, self.table().pairs()),
            mapping_of(path_pairs(manifest.allowed_paths@)) == self.table().mapping(),
            manifest.timeout_ms is None,
    {
        Manifest::build(id, wasm_file, &self.virtual_paths)
    }

    /// Plans the start of a plugin whose binary has been fetched: builds
    /// the manifest, lets the caller customize it, and settles the stable
    /// identity. The customization is handed the manifest as it is built.
    /// Its failure is reported as it is, and before that of the stable
    /// identity.
    pub fn load_with_config<E, F>(&self, id: &str, locator: &str, wasm_file: String, op: F) -> (r:
        Result<LoadPlan, LoadFailure<E>>) where F: FnOnce(Manifest) -> Result<Manifest, E>
        requires
            forall|built: Manifest|
                built.is_default_for(id@, wasm_file@, self.table().pairs()) ==> op.requires(
                    (built,),
                ),
        ensures
            match r {
                Ok(plan) => id_format_accepted(stable_identity(id@)) && plan.is_for(
                    id@,
                    stable_identity(id@),
                    locator@,
                    wasm_file@,
                ) && exists|built: Manifest|
                    built.is_default_for(id@, wasm_file@, self.table().pairs()) && op.ensures(
                        (built,),
                        Ok(plan.manifest),
                    ),
                Err(LoadFailure::Configure(failure)) => exists|built: Manifest|
                    built.is_default_for(id@, wasm_file@, self.table().pairs()) && op.ensures(
                        (built,),
                        Err(failure),
                    ),
                Err(LoadFailure::Registry(failure)) => !id_format_accepted(stable_identity(id@))
                    && (failure matches PluginError::InvalidId { id: rejected } && rejected@
                    == stable_identity(id@)) && exists|built: Manifest, configured: Manifest|
                    built.is_default_for(id@, wasm_file@, self.table().pairs()) && op.ensures(
                        (built,),
                        Ok(configured),
                    ),
            },
    {
        let manifest = self.create_manifest(id, wasm_file.clone());
        let ghost built = manifest;
        let configured = op(manifest);
        assert(op.ensures((built,), configured));
        match configured {
            Err(failure) => Err(LoadFailure::Configure(failure)),
            Ok(customized) => {
                let stable = stable_id(id);
                assert(op.ensures((built,), Ok(customized)));
                assemble_plan(id, locator, wasm_file, Ok(customized), stable)
            },
        }
    }

    /// Plans the start of a plugin whose binary has been fetched, with the
    /// manifest as it is built. No plan is made where the stable identity
    /// is no identifier.
    pub fn load_without_config(&self, id: &str, locator: &str, wasm_file: String) -> (r: Result<
        LoadPlan,
        PluginError,
    >)
        ensures
            id_format_accepted(stable_identity(id@)) ==> (r matches Ok(plan) && plan.is_for(
                id@,
                stable_identity(id@),
                locator@,
                wasm_file@,
            ) && plan.manifest.is_default_for(id@, wasm_file@, self.table().pairs())),
            !id_format_accepted(stable_identity(id@)) ==> (r matches Err(
                PluginError::InvalidId { id: rejected },
            ) && rejected@ == stable_identity(id@)),
    {
        let manifest = self.create_manifest(id, wasm_file.clone());
        let stable = stable_id(id);
        match assemble_plan::<PluginError>(id, locator, wasm_file, Ok(manifest), stable) {
            Ok(plan) => Ok(plan),
            Err(LoadFailure::Registry(failure)) => Err(failure),
            Err(LoadFailure::Configure(failure)) => Err(failure),
        }
    }
}

} // verus!
