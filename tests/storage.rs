use std::path::Path;

use vcon_engine::manifest::Manifest;
use vcon_engine::storage::{sanitize_game_id, SaveNamespace, StorageError};

fn manifest() -> Manifest {
    Manifest {
        id: "com.example.demo".to_owned(),
        name: "Demo".to_owned(),
        version: "0.1.0".to_owned(),
        entrypoint: "src/main.py".to_owned(),
        sdk_version: "1".to_owned(),
        assets_path: "assets".to_owned(),
        save_quota_mb: 8,
        permissions: vec!["storage".to_owned()],
    }
}

#[test]
fn builds_namespaced_slot_path() {
    let namespace = SaveNamespace::from_manifest("/tmp/vcon/saves", &manifest())
        .expect("namespace should be created");
    let slot = namespace
        .slot_path("slot_a")
        .expect("slot path should be created");
    assert_eq!(Path::new(&slot), Path::new("/tmp/vcon/saves/com.example.demo/slot_a.json"));
}

#[test]
fn rejects_slot_traversal() {
    let namespace = SaveNamespace::from_manifest("/tmp/vcon/saves", &manifest())
        .expect("namespace should be created");
    let err = namespace
        .slot_path("../bad")
        .expect_err("traversal should be blocked");
    assert!(err.message().contains("path traversal"));
}

#[test]
fn namespace_root_and_slot_under_short_root() {
    let ns = SaveNamespace::from_manifest("/tmp/s", &manifest()).unwrap();
    assert_eq!(ns.root, "/tmp/s/com.example.demo");
    assert_eq!(ns.game_id, "com.example.demo");
    assert_eq!(ns.quota_mb, 8);
    assert_eq!(ns.slot_path("slot_a").unwrap(), "/tmp/s/com.example.demo/slot_a.json");
}

#[test]
fn bad_slot_names_fail() {
    let ns = SaveNamespace::from_manifest("/tmp/s", &manifest()).unwrap();
    assert_eq!(
        ns.slot_path("../bad"),
        Err(StorageError::InvalidSlot(
            "slot name must not contain path traversal components".to_owned()
        ))
    );
    assert_eq!(
        ns.slot_path(""),
        Err(StorageError::InvalidSlot("slot name must be non-empty".to_owned()))
    );
    assert_eq!(
        ns.slot_path("  "),
        Err(StorageError::InvalidSlot("slot name must be non-empty".to_owned()))
    );
    assert!(ns.slot_path("a/b").is_err());
    assert!(ns.slot_path("a..b").is_err());
    assert_eq!(ns.slot_path("a.b").unwrap(), "/tmp/s/com.example.demo/a.b.json");
}

#[test]
fn derivation_is_repeatable() {
    let a = SaveNamespace::from_manifest("/tmp/s", &manifest()).unwrap();
    let b = SaveNamespace::from_manifest("/tmp/s", &manifest()).unwrap();
    assert_eq!(a.root, b.root);
    assert_eq!(a.game_id, b.game_id);
    assert_eq!(a.slot_path("x").unwrap(), b.slot_path("x").unwrap());
}

#[test]
fn root_joining_follows_separators() {
    let ns = SaveNamespace::from_manifest("/tmp/s/", &manifest()).unwrap();
    assert_eq!(ns.root, "/tmp/s/com.example.demo");
    let ns = SaveNamespace::from_manifest("", &manifest()).unwrap();
    assert_eq!(ns.root, "com.example.demo");
}

#[test]
fn game_ids_are_checked() {
    assert_eq!(sanitize_game_id("A-z_0.9"), Ok("A-z_0.9".to_owned()));
    assert_eq!(
        sanitize_game_id(""),
        Err(StorageError::InvalidGameId("game id must not be empty".to_owned()))
    );
    assert_eq!(
        sanitize_game_id("a/b"),
        Err(StorageError::InvalidGameId(
            "game id may only include [a-zA-Z0-9._-]".to_owned()
        ))
    );
    let mut m = manifest();
    m.id = "bad id".to_owned();
    let err = SaveNamespace::from_manifest("/tmp/s", &m).unwrap_err();
    assert_eq!(
        err.message(),
        "invalid game id: game id may only include [a-zA-Z0-9._-]"
    );
    assert_eq!(
        StorageError::InvalidSlot("x".to_owned()).message(),
        "invalid slot: x"
    );
}
