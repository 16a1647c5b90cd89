use vcon_engine::manifest::{Manifest, ManifestError};

fn demo() -> Manifest {
    Manifest {
        id: "com.example.demo".to_owned(),
        name: "Demo".to_owned(),
        version: "0.1.0".to_owned(),
        entrypoint: "src/main.py".to_owned(),
        sdk_version: "1".to_owned(),
        assets_path: "assets".to_owned(),
        save_quota_mb: 8,
        permissions: vec!["storage".to_owned()],
    }
}

fn validation_message(m: &Manifest) -> String {
    match m.validate() {
        Err(ManifestError::Validation(msg)) => msg,
        other => panic!("expected a validation error, got {:?}", other),
    }
}

#[test]
fn parses_valid_manifest() {
    let input = r#"
id = "com.example.demo"
name = "Demo"
version = "0.1.0"
entrypoint = "src/main.py"
sdk_version = "1"
assets_path = "assets"
save_quota_mb = 8
permissions = ["storage"]
"#;

    let manifest = Manifest::parse(input).expect("manifest should parse");
    assert_eq!(manifest.id, "com.example.demo");
    assert_eq!(manifest.permissions, vec!["storage"]);
}

#[test]
fn rejects_missing_required_key() {
    let input = r#"
name = "Demo"
version = "0.1.0"
entrypoint = "src/main.py"
sdk_version = "1"
assets_path = "assets"
save_quota_mb = 8
permissions = ["storage"]
"#;

    let err = Manifest::parse(input).expect_err("missing id must fail");
    assert!(err.message().contains("missing field `id`"));
}

#[test]
fn rejects_non_python_entrypoint() {
    let input = r#"
id = "com.example.demo"
name = "Demo"
version = "0.1.0"
entrypoint = "src/main.txt"
sdk_version = "1"
assets_path = "assets"
save_quota_mb = 8
permissions = ["storage"]
"#;

    let err = Manifest::parse(input).expect_err("invalid entrypoint should fail");
    assert!(err.message().contains("must point to a .py file"));
}

#[test]
fn parse_reads_every_field() {
    let input = "id = \"a\"\nname = \"B\"\nversion = \"2\"\nentrypoint = \"x.py\"\nsdk_version = \"3\"\nassets_path = \"as\"\nsave_quota_mb = 4\n";
    let m = Manifest::parse(input).expect("should parse");
    assert_eq!(
        m,
        Manifest {
            id: "a".to_owned(),
            name: "B".to_owned(),
            version: "2".to_owned(),
            entrypoint: "x.py".to_owned(),
            sdk_version: "3".to_owned(),
            assets_path: "as".to_owned(),
            save_quota_mb: 4,
            permissions: vec![],
        }
    );
}

#[test]
fn parse_names_each_missing_key() {
    let full = [
        ("id", "\"a\""),
        ("name", "\"B\""),
        ("version", "\"2\""),
        ("entrypoint", "\"x.py\""),
        ("sdk_version", "\"3\""),
        ("assets_path", "\"as\""),
        ("save_quota_mb", "4"),
    ];
    for skip in 0..full.len() {
        let mut text = String::new();
        for (i, (k, v)) in full.iter().enumerate() {
            if i != skip {
                text.push_str(&format!("{k} = {v}\n"));
            }
        }
        let err = Manifest::parse(&text).expect_err("a missing key must fail");
        assert_eq!(
            err,
            ManifestError::Parse(format!("missing field `{}`", full[skip].0))
        );
    }
}

#[test]
fn parse_rejects_malformed_document() {
    let err = Manifest::parse("id = = \"x\"").expect_err("malformed text must fail");
    assert!(matches!(err, ManifestError::Parse(_)));
    assert!(err.message().starts_with("manifest parse error: "));
}

#[test]
fn parse_rejects_wrong_types() {
    let base = "name = \"B\"\nversion = \"2\"\nentrypoint = \"x.py\"\nsdk_version = \"3\"\nassets_path = \"as\"\n";
    let err = Manifest::parse(&format!("id = 5\n{base}save_quota_mb = 4\n")).unwrap_err();
    assert_eq!(
        err,
        ManifestError::Parse("invalid type for key `id`, expected a string".to_owned())
    );
    let err = Manifest::parse(&format!("id = \"a\"\n{base}save_quota_mb = \"4\"\n")).unwrap_err();
    assert_eq!(
        err,
        ManifestError::Parse("invalid type for key `save_quota_mb`, expected an integer".to_owned())
    );
    let err = Manifest::parse(&format!("id = \"a\"\n{base}save_quota_mb = -1\n")).unwrap_err();
    assert_eq!(
        err,
        ManifestError::Parse("invalid value for key `save_quota_mb`, expected a u32".to_owned())
    );
    let err = Manifest::parse(&format!(
        "id = \"a\"\n{base}save_quota_mb = 4\npermissions = [\"x\", 3]\n"
    ))
    .unwrap_err();
    assert_eq!(
        err,
        ManifestError::Parse(
            "invalid type for key `permissions`, expected an array of strings".to_owned()
        )
    );
}

#[test]
fn validate_accepts_demo() {
    assert_eq!(demo().validate(), Ok(()));
}

#[test]
fn validate_reports_first_broken_rule() {
    let mut m = demo();
    m.id = "  ".to_owned();
    m.name = String::new();
    assert_eq!(validation_message(&m), "manifest key `id` must be a non-empty string");

    let mut m = demo();
    m.name = "\t".to_owned();
    assert_eq!(validation_message(&m), "manifest key `name` must be a non-empty string");

    let mut m = demo();
    m.version = String::new();
    assert_eq!(validation_message(&m), "manifest key `version` must be a non-empty string");

    let mut m = demo();
    m.entrypoint = " ".to_owned();
    assert_eq!(validation_message(&m), "manifest key `entrypoint` must be a non-empty string");

    let mut m = demo();
    m.entrypoint = "main.pyc".to_owned();
    assert_eq!(validation_message(&m), "manifest key `entrypoint` must point to a .py file");

    let mut m = demo();
    m.sdk_version = String::new();
    assert_eq!(validation_message(&m), "manifest key `sdk_version` must be a non-empty string");

    let mut m = demo();
    m.assets_path = String::new();
    assert_eq!(validation_message(&m), "manifest key `assets_path` must be a non-empty string");

    let mut m = demo();
    m.save_quota_mb = 0;
    assert_eq!(validation_message(&m), "manifest key `save_quota_mb` must be greater than 0");
}

#[test]
fn manifest_error_messages() {
    assert_eq!(
        ManifestError::Parse("x".to_owned()).message(),
        "manifest parse error: x"
    );
    assert_eq!(
        ManifestError::Validation("y".to_owned()).message(),
        "manifest validation error: y"
    );
}
