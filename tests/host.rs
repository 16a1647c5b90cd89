use vcon_engine::host::{
    admit_descriptor, complete_boot, descriptor_path, detect_lifecycle, EngineError,
    LifecycleAvailability,
};
use vcon_engine::manifest::{Manifest, ManifestError};
use vcon_engine::storage::StorageError;

const SAMPLE_MANIFEST: &str = r#"id = "com.vcon.sample_game"
name = "Sample Game"
version = "0.1.0"
entrypoint = "src/main.py"
sdk_version = "1"
assets_path = "assets"
save_quota_mb = 16
permissions = ["storage"]
"#;

const SAMPLE_SOURCE: &str = "import vcon\n\n\ndef on_boot():\n    pass\n\n\ndef on_update(dt):\n    pass\n\n\ndef on_render(alpha):\n    pass\n\n\ndef on_shutdown():\n    pass\n";

fn manifest_with(perms: &[&str]) -> Manifest {
    let mut m = Manifest::parse(SAMPLE_MANIFEST).unwrap();
    m.permissions = perms.iter().map(|p| p.to_string()).collect();
    m
}

#[test]
fn boots_sample_through_every_stage() {
    let m = Manifest::parse(SAMPLE_MANIFEST).expect("sample should parse");
    let admitted = admit_descriptor("carts/sample", m).expect("sample should be admitted");
    assert_eq!(admitted.entrypoint_path(), "carts/sample/src/main.py");
    assert_eq!(admitted.manifest().save_quota_mb, 16);
    let report = complete_boot(admitted, SAMPLE_SOURCE, "/tmp/vcon-test-saves")
        .expect("sample should boot");
    assert_eq!(report.manifest.id, "com.vcon.sample_game");
    assert_eq!(
        report.lifecycle,
        LifecycleAvailability { on_boot: true, on_shutdown: true }
    );
    assert_eq!(report.save_namespace.quota_mb, 16);
    assert_eq!(report.save_namespace.root, "/tmp/vcon-test-saves/com.vcon.sample_game");
    assert_eq!(report.entrypoint_path, "carts/sample/src/main.py");
}

#[test]
fn blocked_permission_stops_before_entrypoint() {
    let err = admit_descriptor("/tmp/nowhere", manifest_with(&["network"]))
        .expect_err("policy violation should fail");
    assert!(err.message().contains("permission `network` is blocked"));
    assert!(matches!(err, EngineError::Policy(_)));
    let err = admit_descriptor("/tmp/nowhere", manifest_with(&["network", "storage", "network"]))
        .unwrap_err();
    assert_eq!(
        err,
        EngineError::Policy(
            "permission `network` is blocked in V1; permission `network` is blocked in V1"
                .to_owned()
        )
    );
}

#[test]
fn invalid_manifest_is_refused_first() {
    let mut m = manifest_with(&["network"]);
    m.save_quota_mb = 0;
    let err = admit_descriptor("c", m).unwrap_err();
    assert_eq!(
        err,
        EngineError::Manifest(ManifestError::Validation(
            "manifest key `save_quota_mb` must be greater than 0".to_owned()
        ))
    );
    assert_eq!(
        err.message(),
        "manifest error: manifest validation error: manifest key `save_quota_mb` must be greater than 0"
    );
}

#[test]
fn import_gate_joins_findings() {
    let admitted = admit_descriptor("c", manifest_with(&[])).unwrap();
    let err = complete_boot(admitted, "import socket\nfrom random import x\n", "/s").unwrap_err();
    assert_eq!(
        err.message(),
        "sandbox policy violation: network module `socket` import is blocked in V1; import `random` is outside SDK-facing APIs"
    );
}

#[test]
fn bad_game_id_is_a_storage_error() {
    let mut m = manifest_with(&[]);
    m.id = "com vcon".to_owned();
    let admitted = admit_descriptor("c", m).unwrap();
    let err = complete_boot(admitted, "import vcon\n", "/s").unwrap_err();
    assert_eq!(
        err,
        EngineError::Storage(StorageError::InvalidGameId(
            "game id may only include [a-zA-Z0-9._-]".to_owned()
        ))
    );
    assert_eq!(
        err.message(),
        "storage error: invalid game id: game id may only include [a-zA-Z0-9._-]"
    );
}

#[test]
fn lifecycle_detection_is_textual() {
    assert_eq!(
        detect_lifecycle("def on_boot():\n    pass\n"),
        LifecycleAvailability { on_boot: true, on_shutdown: false }
    );
    assert_eq!(
        detect_lifecycle("def on_shutdown ():\n"),
        LifecycleAvailability { on_boot: false, on_shutdown: false }
    );
    assert_eq!(
        detect_lifecycle(""),
        LifecycleAvailability { on_boot: false, on_shutdown: false }
    );
}

#[test]
fn descriptor_lives_in_cartridge_root() {
    assert_eq!(descriptor_path("carts/a"), "carts/a/vcon.toml");
    assert_eq!(descriptor_path("carts/a/"), "carts/a/vcon.toml");
}

#[test]
fn read_errors_render_their_path() {
    let e = EngineError::ReadManifest { path: "a/vcon.toml".to_owned(), reason: "gone".to_owned() };
    assert_eq!(e.message(), "failed to read manifest at a/vcon.toml: gone");
    let e = EngineError::ReadEntrypoint { path: "a/m.py".to_owned(), reason: "gone".to_owned() };
    assert_eq!(e.message(), "failed to read entrypoint at a/m.py: gone");
}
