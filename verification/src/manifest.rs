//! What a plugin is allowed to do.
//!
//! The manifest of a plugin names its binary and grants it the network, the
//! directories of the table of virtual paths, and all the time it needs.

use crate::paths::{path_pairs, VirtualPathTable};
use vstd::prelude::*;

verus! {

/// The host that stands for every host.
pub open spec fn any_host() -> Seq<char> {
    seq!['*']
}

/// The capabilities of one plugin instance.
#[derive(Debug)]
pub struct Manifest {
    /// The identity for which the manifest was built.
    pub id: String,
    /// The binary of the plugin, as a path on the host.
    pub wasm_file: String,
    /// The hosts that the plugin may reach over the network.
    pub allowed_hosts: Vec<String>,
    /// The host directories that the plugin may reach, each with the name
    /// under which the plugin sees it.
    pub allowed_paths: Vec<(String, String)>,
    /// After how many milliseconds a call into the plugin is given up.
    pub timeout_ms: Option<u64>,
    /// Settings handed to the plugin, as keys and values.
    pub config: Vec<(String, String)>,
}

impl Manifest {
    /// The manifest is the one that is built for this identity and binary
    /// under this table, before anything is customized: every host is
    /// allowed, the allowed paths are the pairs of the table, calls never
    /// time out, and no setting is made.
    pub open spec fn is_default_for(
        &self,
        id: Seq<char>,
        wasm_file: Seq<char>,
        table: Seq<(Seq<char>, Seq<char>)>,
    ) -> bool {
        &&& self.id@ == id
        &&& self.wasm_file@ == wasm_file
        &&& self.allowed_hosts@.len() == 1
        &&& self.allowed_hosts@[0]@ == any_host()
        &&& path_pairs(self.allowed_paths@) == table
        &&& self.timeout_ms is None
        &&& self.config@.len() == 0
    }

    /// Builds the manifest of a plugin from its identity, its binary and
    /// the table of virtual paths.
    pub fn build(id: &str, wasm_file: String, table: &VirtualPathTable) -> (manifest: Manifest)
        ensures
            manifest.is_default_for(id@, wasm_file@, table.pairs()),
    {
        let star = "*";
        proof {
            reveal_strlit("*");
            assert(star@ =~= any_host());
        }
        let mut allowed_hosts: Vec<String> = Vec::new();
        allowed_hosts.push(star.to_owned());
        Manifest {
            id: id.to_owned(),
            wasm_file,
            allowed_hosts,
            allowed_paths: copy_pairs(table.entries()),
            timeout_ms: None,
            config: Vec::new(),
        }
    }
}

/// A copy of a list of pairs.
pub fn copy_pairs(pairs: &Vec<(String, String)>) -> (copy: Vec<(String, String)>)
    ensures
        copy@ == pairs@,
{
    let mut copy: Vec<(String, String)> = Vec::new();
    let mut i: usize = 0;
    while i < pairs.len()
        invariant
            i <= pairs.len(),
            copy@ == pairs@.take(i as int),
        decreases pairs.len() - i,
    {
        let host = pairs[i].0.clone();
        let guest = pairs[i].1.clone();
        copy.push((host, guest));
        assert(copy@ =~= pairs@.take(i as int + 1));
        i += 1;
    }
    assert(pairs@.take(pairs.len() as int) =~= pairs@);
    copy
}

/// The host directories that a table names, in its order. Each of them
/// must exist before a plugin is started with the table's pairs.
pub fn host_dirs(table: &VirtualPathTable) -> (dirs: Vec<String>)
    ensures
        dirs@.len() == table.pairs().len(),
        forall|i: int| 0 <= i < dirs@.len() ==> dirs@[i]@ == table.pairs()[i].0,
{
    let entries = table.entries();
    let mut dirs: Vec<String> = Vec::new();
    let mut i: usize = 0;
    while i < entries.len()
        invariant
            i <= entries.len(),
            path_pairs(entries@) == table.pairs(),
            dirs@.len() == i,
            forall|j: int| 0 <= j < i ==> dirs@[j]@ == table.pairs()[j].0,
        decreases entries.len() - i,
    {
        let host = entries[i].0.clone();
        assert(path_pairs(entries@)[i as int].0 == entries@[i as int].0@);
        dirs.push(host);
        i += 1;
    }
    dirs
}

} // verus!
