use moon_plugin::error::{ErrorKind, PluginError};
use moon_plugin::identity::{settle_stable_id, stable_id, strip_unstable};
use moon_plugin::plan::{assemble_plan, LoadFailure};
use moon_plugin::manifest::Manifest;
use moon_plugin::paths::VirtualPathTable;

#[test]
fn marker_is_removed_from_the_front() {
    assert_eq!(strip_unstable("unstable_rust"), "rust");
    assert_eq!(strip_unstable("unstable_foo"), "foo");
    assert_eq!(strip_unstable("unstable_unstable_x"), "unstable_x");
}

#[test]
fn identity_without_marker_is_kept() {
    assert_eq!(strip_unstable("rust"), "rust");
    assert_eq!(strip_unstable(""), "");
    assert_eq!(strip_unstable("unstable"), "unstable");
    assert_eq!(strip_unstable("unstable-rust"), "unstable-rust");
    assert_eq!(strip_unstable("my_unstable_rust"), "my_unstable_rust");
    assert_eq!(strip_unstable("Unstable_rust"), "Unstable_rust");
}

#[test]
fn marker_alone_leaves_nothing() {
    assert_eq!(strip_unstable("unstable_"), "");
}

#[test]
fn marker_is_removed_before_other_scripts() {
    assert_eq!(strip_unstable("unstable_日本語"), "日本語");
    assert_eq!(strip_unstable("日本語_unstable_"), "日本語_unstable_");
}

#[test]
fn stable_id_of_an_identifier() {
    assert_eq!(stable_id("unstable_rust").unwrap(), "rust");
    assert_eq!(stable_id("rust").unwrap(), "rust");
    assert_eq!(stable_id("@scope/tool.name-1_2").unwrap(), "@scope/tool.name-1_2");
}

#[test]
fn stable_id_refuses_what_is_no_identifier() {
    let failure = stable_id("unstable_has space").unwrap_err();
    assert!(matches!(failure, PluginError::InvalidId { ref id } if id == "has space"));
    let failure = stable_id("unstable_").unwrap_err();
    assert_eq!(failure.kind(), ErrorKind::InvalidId);
    assert_eq!(failure.id(), "");
    assert_eq!(stable_id("a!b").unwrap_err().id(), "a!b");
}

#[test]
fn settle_passes_the_verdict_on() {
    assert_eq!(settle_stable_id("rust".to_string(), Ok("rust".to_string())).unwrap(), "rust");
    let refused = warpgate_api::Id::new("no good").unwrap_err();
    let failure = settle_stable_id("no good".to_string(), Err(refused)).unwrap_err();
    assert!(matches!(failure, PluginError::InvalidId { ref id } if id == "no good"));
}

#[test]
fn error_kinds_and_identities() {
    let unknown = PluginError::UnknownId { id: "a".to_string() };
    let existing = PluginError::ExistingId { id: "b".to_string() };
    let invalid = PluginError::InvalidId { id: "c".to_string() };
    assert_eq!(unknown.kind(), ErrorKind::UnknownId);
    assert_eq!(existing.kind(), ErrorKind::ExistingId);
    assert_eq!(invalid.kind(), ErrorKind::InvalidId);
    assert_eq!(unknown.id(), "a");
    assert_eq!(existing.id(), "b");
    assert_eq!(invalid.id(), "c");
}

fn some_manifest() -> Manifest {
    Manifest::build("tool", "/tool.wasm".to_string(), &VirtualPathTable::new(&Vec::new(), &Vec::new()))
}

#[test]
fn assemble_makes_the_plan() {
    let plan = assemble_plan::<String>(
        "unstable_tool",
        "file://tool.wasm",
        "/tool.wasm".to_string(),
        Ok(some_manifest()),
        Ok("tool".to_string()),
    )
    .unwrap();
    assert_eq!(plan.registration.id, "unstable_tool");
    assert_eq!(plan.registration.id_stable, "tool");
    assert_eq!(plan.registration.locator, "file://tool.wasm");
    assert_eq!(plan.registration.wasm_file, "/tool.wasm");
    assert_eq!(plan.manifest.id, "tool");
}

#[test]
fn assemble_reports_the_customization_first() {
    let outcome = assemble_plan(
        "tool",
        "loc",
        "/tool.wasm".to_string(),
        Err::<Manifest, u32>(3),
        Err(PluginError::InvalidId { id: "tool".to_string() }),
    );
    assert!(matches!(outcome, Err(LoadFailure::Configure(3))));
    let outcome = assemble_plan("tool", "loc", "/tool.wasm".to_string(), Err::<Manifest, u32>(4), Ok("tool".to_string()));
    assert!(matches!(outcome, Err(LoadFailure::Configure(4))));
}

#[test]
fn assemble_reports_the_bad_identity() {
    let outcome = assemble_plan::<u32>(
        "tool",
        "loc",
        "/tool.wasm".to_string(),
        Ok(some_manifest()),
        Err(PluginError::InvalidId { id: "bad id".to_string() }),
    );
    match outcome {
        Err(LoadFailure::Registry(PluginError::InvalidId { id })) => assert_eq!(id, "bad id"),
        _ => panic!("the registry's failure must be reported"),
    }
}
