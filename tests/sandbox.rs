use vcon_engine::manifest::Manifest;
use vcon_engine::sandbox::{
    check_runtime_import, extract_import_roots, first_module_root, join_messages,
    scan_entrypoint_source, validate_manifest_permissions, PolicyViolation,
};

#[test]
fn blocks_network_permission() {
    let manifest = Manifest {
        id: "com.example.demo".to_owned(),
        name: "Demo".to_owned(),
        version: "0.1.0".to_owned(),
        entrypoint: "src/main.py".to_owned(),
        sdk_version: "1".to_owned(),
        assets_path: "assets".to_owned(),
        save_quota_mb: 8,
        permissions: vec!["storage".to_owned(), "network".to_owned()],
    };

    let violations = validate_manifest_permissions(&manifest);
    assert_eq!(
        violations,
        vec![PolicyViolation::BlockedPermission("network".to_owned())]
    );
}

#[test]
fn blocks_non_sdk_and_network_imports() {
    let source = r#"
import vcon
import socket
from random import randint
"#;

    let violations = scan_entrypoint_source(source);
    assert_eq!(
        violations,
        vec![
            PolicyViolation::NetworkImport("socket".to_owned()),
            PolicyViolation::ImportNotAllowed("random".to_owned())
        ]
    );
}

#[test]
fn allows_sdk_imports() {
    let source = r#"
import vcon
from vcon import input
"#;

    let violations = scan_entrypoint_source(source);
    assert!(violations.is_empty());
}

#[test]
fn each_import_form_is_classified() {
    assert_eq!(
        scan_entrypoint_source("import socket"),
        vec![PolicyViolation::NetworkImport("socket".to_owned())]
    );
    assert_eq!(
        scan_entrypoint_source("from random import randint"),
        vec![PolicyViolation::ImportNotAllowed("random".to_owned())]
    );
    assert!(scan_entrypoint_source("import vcon").is_empty());
}

#[test]
fn every_network_module_is_flagged() {
    let src = "import urllib.request\nimport http.client\nimport requests\n  import asyncio\n";
    assert_eq!(
        scan_entrypoint_source(src),
        vec![
            PolicyViolation::NetworkImport("urllib".to_owned()),
            PolicyViolation::NetworkImport("http".to_owned()),
            PolicyViolation::NetworkImport("requests".to_owned()),
            PolicyViolation::NetworkImport("asyncio".to_owned()),
        ]
    );
}

#[test]
fn permissions_keep_order_and_repeats() {
    let mut m = Manifest {
        id: "a".to_owned(),
        name: "a".to_owned(),
        version: "a".to_owned(),
        entrypoint: "a.py".to_owned(),
        sdk_version: "a".to_owned(),
        assets_path: "a".to_owned(),
        save_quota_mb: 1,
        permissions: vec![],
    };
    assert!(validate_manifest_permissions(&m).is_empty());
    m.permissions = vec!["network".to_owned(), "input".to_owned(), "network".to_owned()];
    assert_eq!(
        validate_manifest_permissions(&m),
        vec![
            PolicyViolation::BlockedPermission("network".to_owned()),
            PolicyViolation::BlockedPermission("network".to_owned()),
        ]
    );
}

#[test]
fn import_roots_are_extracted_per_line() {
    let src = "import os.path\r\nfrom a.b import c\n\timport  x, y\nx = 1  # import z\nimport \nimportlib\nfrom .rel import q";
    assert_eq!(extract_import_roots(src), vec!["os", "a", "x"]);
}

#[test]
fn first_module_root_cases() {
    assert_eq!(first_module_root("os.path as p"), "os");
    assert_eq!(first_module_root("  a, b"), "a");
    assert_eq!(first_module_root("a,,"), "a");
    assert_eq!(first_module_root(".rel import q"), "");
    assert_eq!(first_module_root(""), "");
    assert_eq!(first_module_root("vcon"), "vcon");
}

#[test]
fn violation_messages_and_joining() {
    let v = vec![
        PolicyViolation::BlockedPermission("network".to_owned()),
        PolicyViolation::NetworkImport("socket".to_owned()),
        PolicyViolation::ImportNotAllowed("random".to_owned()),
    ];
    assert_eq!(v[0].message(), "permission `network` is blocked in V1");
    assert_eq!(v[1].message(), "network module `socket` import is blocked in V1");
    assert_eq!(v[2].message(), "import `random` is outside SDK-facing APIs");
    assert_eq!(
        join_messages(&v),
        "permission `network` is blocked in V1; network module `socket` import is blocked in V1; import `random` is outside SDK-facing APIs"
    );
    assert_eq!(join_messages(&vec![]), "");
    assert_eq!(
        v[1].runtime_message(),
        "vcon sandbox: blocked network module 'socket'"
    );
    assert_eq!(
        v[2].runtime_message(),
        "vcon sandbox: import 'random' is outside SDK-facing APIs"
    );
}

#[test]
fn runtime_guard_checks_only_cartridge_imports() {
    assert_eq!(
        check_runtime_import("cartridge_entry_0", "socket", 0),
        Err(PolicyViolation::NetworkImport("socket".to_owned()))
    );
    assert_eq!(
        check_runtime_import("cartridge_entry_3", "http.client", 0),
        Err(PolicyViolation::NetworkImport("http".to_owned()))
    );
    assert_eq!(
        check_runtime_import("cartridge_entry_1", "random", 0),
        Err(PolicyViolation::ImportNotAllowed("random".to_owned()))
    );
    assert_eq!(check_runtime_import("cartridge_entry_1", "vcon.input", 0), Ok(()));
    assert_eq!(check_runtime_import("cartridge_entry_1", "helpers", 1), Ok(()));
    assert_eq!(
        check_runtime_import("cartridge_entry_1", "socket", 1),
        Err(PolicyViolation::NetworkImport("socket".to_owned()))
    );
    assert_eq!(check_runtime_import("vcon.net", "socket", 0), Ok(()));
    assert_eq!(check_runtime_import("", "random", 0), Ok(()));
}
