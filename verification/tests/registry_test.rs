use moon_plugin::error::{ErrorKind, PluginError};
use moon_plugin::manifest::Manifest;
use moon_plugin::plan::LoadFailure;
use moon_plugin::protocol::LoadStep;
use moon_plugin::registry::PluginRegistry;
use std::sync::Arc;

fn pairs(list: &[(&str, &str)]) -> Vec<(String, String)> {
    list.iter().map(|(host, guest)| (host.to_string(), guest.to_string())).collect()
}

fn empty_registry() -> PluginRegistry<String> {
    PluginRegistry::new(&Vec::new(), &Vec::new())
}

#[test]
fn unknown_identity_is_not_found() {
    let registry = empty_registry();
    let failure = registry.get_instance("never-seen").unwrap_err();
    assert_eq!(failure.kind(), ErrorKind::UnknownId);
    assert_eq!(failure.id(), "never-seen");
    assert!(!registry.is_registered("never-seen"));
}

#[test]
fn new_registry_stores_nothing() {
    let registry = empty_registry();
    assert!(registry.get_cache().is_empty());
    assert_eq!(registry.get_virtual_paths().len(), 0);
}

#[test]
fn register_then_get_returns_the_instance() {
    let mut registry = empty_registry();
    assert!(registry.register("node".to_string(), "node plugin".to_string()).is_ok());
    assert!(registry.is_registered("node"));
    let found = registry.get_instance("node").unwrap();
    assert_eq!(found.as_str(), "node plugin");
}

#[test]
fn register_twice_fails_and_keeps_the_first() {
    let mut registry = empty_registry();
    registry.register("node".to_string(), "first".to_string()).unwrap();
    let before = registry.get_instance("node").unwrap();
    let failure = registry.register("node".to_string(), "second".to_string()).unwrap_err();
    assert!(matches!(failure, PluginError::ExistingId { ref id } if id == "node"));
    let after = registry.get_instance("node").unwrap();
    assert!(Arc::ptr_eq(&before, &after));
    assert_eq!(after.as_str(), "first");
    assert_eq!(registry.get_cache().len(), 1);
}

#[test]
fn register_leaves_other_identities_unknown() {
    let mut registry = empty_registry();
    registry.register("node".to_string(), "node plugin".to_string()).unwrap();
    assert_eq!(registry.get_instance("rust").unwrap_err().kind(), ErrorKind::UnknownId);
}

#[test]
fn first_request_constructs_and_the_next_waits() {
    let mut registry = empty_registry();
    assert!(matches!(registry.request("go"), LoadStep::Construct));
    assert!(matches!(registry.request("go"), LoadStep::Wait));
    assert!(matches!(registry.request("go"), LoadStep::Wait));
    assert!(!registry.is_registered("go"));
    assert_eq!(registry.get_instance("go").unwrap_err().kind(), ErrorKind::UnknownId);
}

#[test]
fn all_callers_get_the_one_instance() {
    let mut registry = empty_registry();
    assert!(matches!(registry.request("go"), LoadStep::Construct));
    let built = registry.complete_load("go", "go plugin".to_string());
    let mut handles = Vec::new();
    for _ in 0..5 {
        match registry.request("go") {
            LoadStep::Ready(instance) => handles.push(instance),
            _ => panic!("a stored plugin must be handed out"),
        }
    }
    for handle in &handles {
        assert!(Arc::ptr_eq(handle, &built));
    }
    assert_eq!(registry.get_cache().len(), 1);
}

#[test]
fn a_second_report_keeps_the_first_instance() {
    let mut registry = empty_registry();
    assert!(matches!(registry.request("go"), LoadStep::Construct));
    let first = registry.complete_load("go", "first".to_string());
    let second = registry.complete_load("go", "second".to_string());
    assert!(Arc::ptr_eq(&first, &second));
    assert_eq!(registry.get_instance("go").unwrap().as_str(), "first");
    assert_eq!(registry.get_cache().len(), 1);
}

#[test]
fn distinct_identities_are_constructed_independently() {
    let mut registry = empty_registry();
    assert!(matches!(registry.request("go"), LoadStep::Construct));
    assert!(matches!(registry.request("rust"), LoadStep::Construct));
    assert!(matches!(registry.request("node"), LoadStep::Construct));
    let rust = registry.complete_load("rust", "rust plugin".to_string());
    assert!(matches!(registry.request("go"), LoadStep::Wait));
    assert!(matches!(registry.request("node"), LoadStep::Wait));
    match registry.request("rust") {
        LoadStep::Ready(instance) => assert!(Arc::ptr_eq(&instance, &rust)),
        _ => panic!("a stored plugin must be handed out"),
    }
}

#[test]
fn failed_load_can_be_retried() {
    let mut registry = empty_registry();
    assert!(matches!(registry.request("deno"), LoadStep::Construct));
    registry.abandon_load("deno");
    assert!(!registry.is_registered("deno"));
    assert_eq!(registry.get_instance("deno").unwrap_err().kind(), ErrorKind::UnknownId);
    assert!(registry.get_cache().is_empty());
    assert!(matches!(registry.request("deno"), LoadStep::Construct));
    let built = registry.complete_load("deno", "deno plugin".to_string());
    assert!(Arc::ptr_eq(&built, &registry.get_instance("deno").unwrap()));
    assert_eq!(registry.get_cache().len(), 1);
}

#[test]
fn abandoning_does_not_remove_a_stored_instance() {
    let mut registry = empty_registry();
    registry.register("bun".to_string(), "bun plugin".to_string()).unwrap();
    registry.abandon_load("bun");
    assert_eq!(registry.get_instance("bun").unwrap().as_str(), "bun plugin");
}

#[test]
fn register_while_loading_stores_the_instance() {
    let mut registry = empty_registry();
    assert!(matches!(registry.request("bun"), LoadStep::Construct));
    registry.register("bun".to_string(), "registered".to_string()).unwrap();
    let kept = registry.complete_load("bun", "loaded".to_string());
    assert_eq!(kept.as_str(), "registered");
    assert!(matches!(registry.request("bun"), LoadStep::Ready(_)));
}

#[test]
fn cache_lists_instances_in_the_order_stored() {
    let mut registry = empty_registry();
    registry.register("b".to_string(), "second letter".to_string()).unwrap();
    registry.register("a".to_string(), "first letter".to_string()).unwrap();
    let cache = registry.get_cache();
    assert_eq!(cache.len(), 2);
    assert_eq!(cache[0].0, "b");
    assert_eq!(cache[0].1.as_str(), "second letter");
    assert_eq!(cache[1].0, "a");
    assert_eq!(cache[1].1.as_str(), "first letter");
}

#[test]
fn unstable_identity_is_stored_under_its_own_name() {
    let mut registry = empty_registry();
    assert!(matches!(registry.request("unstable_foo"), LoadStep::Construct));
    let plan = registry
        .load_without_config("unstable_foo", "file://foo.wasm", "/plugins/foo.wasm".to_string())
        .unwrap();
    assert_eq!(plan.registration.id, "unstable_foo");
    assert_eq!(plan.registration.id_stable, "foo");
    let built = registry.complete_load("unstable_foo", "foo plugin".to_string());
    assert!(Arc::ptr_eq(&built, &registry.get_instance("unstable_foo").unwrap()));
    let failure = registry.get_instance("foo").unwrap_err();
    assert!(matches!(failure, PluginError::UnknownId { ref id } if id == "foo"));
}

#[test]
fn plan_without_config_has_the_default_manifest() {
    let registry: PluginRegistry<String> = PluginRegistry::new(
        &pairs(&[("/home/me/.proto", "/proto")]),
        &pairs(&[("/home/me/work", "/workspace")]),
    );
    let plan = registry
        .load_without_config("rust", "github://moonrepo/rust", "/plugins/rust.wasm".to_string())
        .unwrap();
    assert_eq!(plan.registration.id, "rust");
    assert_eq!(plan.registration.id_stable, "rust");
    assert_eq!(plan.registration.locator, "github://moonrepo/rust");
    assert_eq!(plan.registration.wasm_file, "/plugins/rust.wasm");
    assert_eq!(plan.manifest.id, "rust");
    assert_eq!(plan.manifest.wasm_file, "/plugins/rust.wasm");
    assert_eq!(plan.manifest.allowed_hosts, vec!["*".to_string()]);
    assert_eq!(plan.manifest.timeout_ms, None);
    assert!(plan.manifest.config.is_empty());
    assert_eq!(plan.manifest.allowed_paths.len(), 2);
    assert!(plan.manifest.allowed_paths.contains(&("/home/me/.proto".to_string(), "/proto".to_string())));
    assert!(plan.manifest.allowed_paths.contains(&("/home/me/work".to_string(), "/workspace".to_string())));
}

#[test]
fn plan_with_config_applies_the_customization() {
    let registry = empty_registry();
    let plan = registry
        .load_with_config("node", "file://node.wasm", "/plugins/node.wasm".to_string(), |mut manifest| {
            manifest.config.push(("version".to_string(), "20".to_string()));
            Ok::<_, String>(manifest)
        })
        .unwrap();
    assert_eq!(plan.manifest.config, vec![("version".to_string(), "20".to_string())]);
    assert_eq!(plan.manifest.allowed_hosts, vec!["*".to_string()]);
    assert_eq!(plan.manifest.timeout_ms, None);
    assert_eq!(plan.registration.id_stable, "node");
}

#[test]
fn customization_sees_the_manifest_as_built() {
    let registry: PluginRegistry<String> =
        PluginRegistry::new(&pairs(&[("/host", "/guest")]), &Vec::new());
    let mut seen = None;
    let _ = registry.load_with_config("node", "loc", "/node.wasm".to_string(), |manifest| {
        seen = Some((
            manifest.id.clone(),
            manifest.wasm_file.clone(),
            manifest.allowed_hosts.clone(),
            manifest.allowed_paths.clone(),
            manifest.timeout_ms,
            manifest.config.len(),
        ));
        Ok::<_, String>(manifest)
    });
    assert_eq!(
        seen,
        Some((
            "node".to_string(),
            "/node.wasm".to_string(),
            vec!["*".to_string()],
            pairs(&[("/host", "/guest")]),
            None,
            0,
        ))
    );
}

#[test]
fn failed_customization_is_reported_as_it_is() {
    let registry = empty_registry();
    let outcome = registry.load_with_config("node", "loc", "/node.wasm".to_string(), |_| {
        Err::<Manifest, String>("no such setting".to_string())
    });
    match outcome {
        Err(LoadFailure::Configure(failure)) => assert_eq!(failure, "no such setting"),
        _ => panic!("the customization's failure must be reported"),
    }
}

#[test]
fn failed_customization_comes_before_a_bad_identity() {
    let registry = empty_registry();
    let outcome = registry.load_with_config("not valid!", "loc", "/x.wasm".to_string(), |_| {
        Err::<Manifest, u8>(7)
    });
    assert!(matches!(outcome, Err(LoadFailure::Configure(7))));
}

#[test]
fn bad_stable_identity_fails_the_plan() {
    let registry = empty_registry();
    let outcome = registry.load_with_config("unstable_not valid!", "loc", "/x.wasm".to_string(), |manifest| {
        Ok::<_, String>(manifest)
    });
    match outcome {
        Err(LoadFailure::Registry(PluginError::InvalidId { id })) => assert_eq!(id, "not valid!"),
        _ => panic!("an identity that is no identifier must be refused"),
    }
    let failure = registry
        .load_without_config("unstable_not valid!", "loc", "/x.wasm".to_string())
        .unwrap_err();
    assert_eq!(failure.kind(), ErrorKind::InvalidId);
    assert_eq!(failure.id(), "not valid!");
}

#[test]
fn manifest_grants_every_pair_of_the_table_and_no_timeout() {
    let registry: PluginRegistry<String> = PluginRegistry::new(
        &pairs(&[("/a", "/x"), ("/b", "/y")]),
        &pairs(&[("/b", "/z"), ("/c", "/w")]),
    );
    let manifest = registry.create_manifest("tool", "/tool.wasm".to_string());
    assert_eq!(manifest.timeout_ms, None);
    assert_eq!(manifest.allowed_hosts, vec!["*".to_string()]);
    assert_eq!(&manifest.allowed_paths, registry.get_virtual_paths().entries());
    let mut granted = manifest.allowed_paths.clone();
    granted.sort();
    assert_eq!(granted, pairs(&[("/a", "/x"), ("/b", "/z"), ("/c", "/w")]));
}

#[test]
fn context_holds_the_virtual_paths() {
    let registry: PluginRegistry<String> = PluginRegistry::new(
        &pairs(&[("/home/me/work", "/workspace")]),
        &Vec::new(),
    );
    let context = registry.create_context("/home/me/work/packages/app", "/home/me/work");
    assert_eq!(context.working_dir, "/workspace/packages/app");
    assert_eq!(context.workspace_root, "/workspace");
}

#[test]
fn registry_rewrites_paths_both_ways() {
    let registry: PluginRegistry<String> = PluginRegistry::new(
        &pairs(&[("/home/me/.proto", "/proto")]),
        &pairs(&[("/home/me/work", "/workspace")]),
    );
    assert_eq!(registry.to_virtual_path("/home/me/work/src/lib.rs"), "/workspace/src/lib.rs");
    assert_eq!(registry.from_virtual_path("/workspace/src/lib.rs"), "/home/me/work/src/lib.rs");
    assert_eq!(registry.to_virtual_path("/home/me/.proto/bin"), "/proto/bin");
    assert_eq!(registry.from_virtual_path("/proto/bin"), "/home/me/.proto/bin");
    assert_eq!(registry.to_virtual_path("/etc/hosts"), "/etc/hosts");
    assert_eq!(registry.from_virtual_path("/etc/hosts"), "/etc/hosts");
}

#[test]
fn registry_can_be_printed() {
    let mut registry: PluginRegistry<String> =
        PluginRegistry::new(&pairs(&[("/host", "/guest")]), &Vec::new());
    registry.register("node".to_string(), "node plugin".to_string()).unwrap();
    let printed = format!("{:?}", registry);
    assert!(printed.contains("PluginRegistry"));
    assert!(printed.contains("virtual_paths"));
    assert!(printed.contains("/guest"));
    assert!(printed.contains("node plugin"));
}
