//! What is needed to start a plugin that is not stored yet.

use crate::error::PluginError;
use crate::manifest::Manifest;
use vstd::prelude::*;

verus! {

/// The paths that a plugin is told of, as the plugin sees them.
#[derive(Debug)]
pub struct SandboxContext {
    /// The directory in which the host works.
    pub working_dir: String,
    /// The root of the workspace.
    pub workspace_root: String,
}

/// What the wrapper of a plugin is constructed from, as far as the
/// registry knows it.
#[derive(Debug)]
pub struct Registration {
    /// The identity under which the registry stores the plugin.
    pub id: String,
    /// The identity under which the sandbox knows the plugin.
    pub id_stable: String,
    /// Where the binary of the plugin comes from.
    pub locator: String,
    /// The binary of the plugin, as a path on the host.
    pub wasm_file: String,
}

/// A plugin that is ready to be started: what it is constructed from, and
/// what it is allowed to do.
#[derive(Debug)]
pub struct LoadPlan {
    pub registration: Registration,
    pub manifest: Manifest,
}

/// Why no plan was made.
#[derive(Debug)]
pub enum LoadFailure<E> {
    /// The caller's customization of the manifest failed, with this.
    Configure(E),
    /// The registry failed.
    Registry(PluginError),
}

impl LoadPlan {
    /// The plan names this identity, stable identity, locator and binary.
    pub open spec fn is_for(
        &self,
        id: Seq<char>,
        id_stable: Seq<char>,
        locator: Seq<char>,
        wasm_file: Seq<char>,
    ) -> bool {
        &&& self.registration.id@ == id
        &&& self.registration.id_stable@ == id_stable
        &&& self.registration.locator@ == locator
        &&& self.registration.wasm_file@ == wasm_file
    }
}

/// Makes the plan once the manifest has been customized and the stable
/// identity settled. A failed customization is reported first, then a
/// stable identity that is no identifier.
pub fn assemble_plan<E>(
    id: &str,
    locator: &str,
    wasm_file: String,
    configured: Result<Manifest, E>,
    stable: Result<String, PluginError>,
) -> (r: Result<LoadPlan, LoadFailure<E>>)
    ensures
        match (configured, stable) {
            (Err(failure), _) => r matches Err(LoadFailure::Configure(reported)) && reported
                == failure,
            (Ok(_), Err(failure)) => r matches Err(LoadFailure::Registry(reported)) && reported
                == failure,
            (Ok(manifest), Ok(id_stable)) => r matches Ok(plan) && plan.manifest == manifest
                && plan.is_for(id@, id_stable@, locator@, wasm_file@),
        },
{
    match configured {
        Err(failure) => Err(LoadFailure::Configure(failure)),
        Ok(manifest) => match stable {
            Err(failure) => Err(LoadFailure::Registry(failure)),
            Ok(id_stable) => Ok(
                LoadPlan {
                    registration: Registration {
                        id: id.to_owned(),
                        id_stable,
                        locator: locator.to_owned(),
                        wasm_file,
                    },
                    manifest,
                },
            ),
        },
    }
}

} // verus!
