//! The boot pipeline: descriptor validation, the permission gate, the import
//! gate, lifecycle-hook detection and save-namespace allocation, in this order,
//! the first failure ending the boot. Reading files is left to the caller, which
//! hands each stage the text it read.
use vstd::prelude::*;
use vstd::string::*;

use crate::manifest::{
    manifest_error_message, valid_manifest, validation_issue, Manifest, ManifestError,
    ManifestView,
};
use crate::sandbox::{
    is_blocked_permission, join_messages, joined_messages, permission_violations,
    scan_entrypoint_source, source_violations, validate_manifest_permissions, PolicyViolationView,
};
use crate::storage::{
    join_path, join_path_text, namespace_for, storage_error_message, SaveNamespace, StorageError,
};
use crate::text::{contains_str, contains_text};

verus! {

/// Which optional lifecycle hooks the entry script defines, by a textual check.
#[derive(Debug, Clone, Copy, PartialEq, Eq)]
pub struct LifecycleAvailability {
    pub on_boot: bool,
    pub on_shutdown: bool,
}

/// The outcome of a successful boot.
#[derive(Debug, Clone)]
pub struct BootReport {
    pub manifest: Manifest,
    pub entrypoint_path: String,
    pub lifecycle: LifecycleAvailability,
    pub save_namespace: SaveNamespace,
}

/// A cartridge whose descriptor passed validation and the permission gate, with
/// the path of the entry script that is to be read next. Only
/// [`admit_descriptor`] makes one.
#[derive(Debug, Clone)]
pub struct AdmittedCartridge {
    manifest: Manifest,
    entrypoint_path: String,
}

impl AdmittedCartridge {
    pub closed spec fn spec_manifest(&self) -> ManifestView {
        self.manifest@
    }

    pub closed spec fn spec_entrypoint_path(&self) -> Seq<char> {
        self.entrypoint_path@
    }

    pub fn manifest(&self) -> (r: &Manifest)
        ensures
            r@ == self.spec_manifest(),
    {
        &self.manifest
    }

    /// The path of the entry script to read.
    pub fn entrypoint_path(&self) -> (r: &str)
        ensures
            r@ == self.spec_entrypoint_path(),
    {
        self.entrypoint_path.as_str()
    }
}

/// Why a boot failed.
#[derive(Debug, Clone, PartialEq, Eq)]
pub enum EngineError {
    ReadManifest { path: String, reason: String },
    Manifest(ManifestError),
    Policy(String),
    ReadEntrypoint { path: String, reason: String },
    Storage(StorageError),
}

/// The name of the descriptor file in a cartridge directory.
pub open spec fn descriptor_file_name() -> Seq<char> {
    "vcon.toml"@
}

/// The hook detection: a literal definition of each hook anywhere in the text.
pub open spec fn lifecycle_of(source: Seq<char>) -> LifecycleAvailability {
    LifecycleAvailability {
        on_boot: contains_text(source, "def on_boot("@),
        on_shutdown: contains_text(source, "def on_shutdown("@),
    }
}

/// Some permission that the manifest requests is blocked.
pub open spec fn requests_blocked_permission(perms: Seq<Seq<char>>) -> bool {
    permission_violations(perms).len() > 0
}

/// The path of the descriptor file of the cartridge in `cartridge_dir`.
pub fn descriptor_path(cartridge_dir: &str) -> (r: String)
    ensures
        r@ == join_path(cartridge_dir@, descriptor_file_name()),
{
    join_path_text(cartridge_dir, "vcon.toml")
}

/// The textual hook detection on the entry script's source; it runs nothing.
pub fn detect_lifecycle(source: &str) -> (r: LifecycleAvailability)
    ensures
        r == lifecycle_of(source@),
{
    LifecycleAvailability {
        on_boot: contains_str(source, "def on_boot("),
        on_shutdown: contains_str(source, "def on_shutdown("),
    }
}

/// The stages that follow the reading of the descriptor: validation, then the
/// permission gate. On success the entry script's path is handed out; when a
/// blocked permission is requested no path is, so the entry script is never read.
pub fn admit_descriptor(cartridge_dir: &str, manifest: Manifest) -> (r: Result<
    AdmittedCartridge,
    EngineError,
>)
    ensures
        if !valid_manifest(manifest@) {
            r matches Err(EngineError::Manifest(ManifestError::Validation(msg))) && Some(msg@)
                == validation_issue(manifest@)
        } else if requests_blocked_permission(manifest@.permissions) {
            r matches Err(EngineError::Policy(msg)) && msg@ == joined_messages(
                permission_violations(manifest@.permissions),
            )
        } else {
            r matches Ok(a) && a.spec_manifest() == manifest@ && a.spec_entrypoint_path() == join_path(
                cartridge_dir@,
                manifest@.entrypoint,
            )
        },
{
    match manifest.validate() {
        Ok(()) => {},
        Err(e) => {
            return Err(EngineError::Manifest(e));
        },
    }
    let violations = validate_manifest_permissions(&manifest);
    if violations.len() > 0 {
        return Err(EngineError::Policy(join_messages(&violations)));
    }
    let entrypoint_path = join_path_text(cartridge_dir, manifest.entrypoint.as_str());
    Ok(AdmittedCartridge { manifest, entrypoint_path })
}

/// The stages that follow the reading of the entry script: the import gate, the
/// hook detection and the allocation of the save namespace under `saves_root`.
pub fn complete_boot(admitted: AdmittedCartridge, entrypoint_source: &str, saves_root: &str) -> (r:
    Result<BootReport, EngineError>)
    ensures
        if source_violations(entrypoint_source@).len() > 0 {
            r matches Err(EngineError::Policy(msg)) && msg@ == joined_messages(
                source_violations(entrypoint_source@),
            )
        } else {
            match namespace_for(
                saves_root@,
                admitted.spec_manifest().id,
                admitted.spec_manifest().save_quota_mb,
            ) {
                Err(e) => r matches Err(EngineError::Storage(x)) && x@ == e,
                Ok(n) => r matches Ok(rep) && rep.manifest@ == admitted.spec_manifest()
                    && rep.entrypoint_path@ == admitted.spec_entrypoint_path() && rep.lifecycle
                    == lifecycle_of(entrypoint_source@) && rep.save_namespace@ == n,
            }
        },
{
    let violations = scan_entrypoint_source(entrypoint_source);
    if violations.len() > 0 {
        return Err(EngineError::Policy(join_messages(&violations)));
    }
    let lifecycle = detect_lifecycle(entrypoint_source);
    let save_namespace = match SaveNamespace::from_manifest(saves_root, &admitted.manifest) {
        Ok(n) => n,
        Err(e) => {
            return Err(EngineError::Storage(e));
        },
    };
    Ok(
        BootReport {
            manifest: admitted.manifest,
            entrypoint_path: admitted.entrypoint_path,
            lifecycle,
            save_namespace,
        },
    )
}

/// The text shown for a boot failure.
pub open spec fn engine_error_message(e: EngineError) -> Seq<char> {
    match e {
        EngineError::ReadManifest { path, reason } => "failed to read manifest at "@ + path@
            + ": "@ + reason@,
        EngineError::Manifest(m) => "manifest error: "@ + manifest_error_message(m),
        EngineError::Policy(m) => "sandbox policy violation: "@ + m@,
        EngineError::ReadEntrypoint { path, reason } => "failed to read entrypoint at "@ + path@
            + ": "@ + reason@,
        EngineError::Storage(s) => "storage error: "@ + storage_error_message(s@),
    }
}

impl EngineError {
    pub fn message(&self) -> (r: String)
        ensures
            r@ == engine_error_message(*self),
    {
        match self {
            EngineError::ReadManifest { path, reason } => "failed to read manifest at ".to_owned().concat(
                path.as_str(),
            ).concat(": ").concat(reason.as_str()),
            EngineError::Manifest(m) => {
                let inner = m.message();
                "manifest error: ".to_owned().concat(inner.as_str())
            },
            EngineError::Policy(m) => "sandbox policy violation: ".to_owned().concat(m.as_str()),
            EngineError::ReadEntrypoint { path, reason } => "failed to read entrypoint at ".to_owned().concat(
                path.as_str(),
            ).concat(": ").concat(reason.as_str()),
            EngineError::Storage(s) => {
                let inner = s.message();
                "storage error: ".to_owned().concat(inner.as_str())
            },
        }
    }
}

/// A permission list that holds a blocked permission yields a finding for it, so
/// `admit_descriptor` refuses a valid manifest that requests it with a policy
/// error, and no entry-script path is handed out to be read.
pub proof fn lemma_blocked_permission_found(perms: Seq<Seq<char>>, i: int)
    requires
        0 <= i < perms.len(),
        is_blocked_permission(perms[i]),
    ensures
        requests_blocked_permission(perms),
        permission_violations(perms).contains(PolicyViolationView::BlockedPermission(perms[i])),
    decreases perms.len(),
{
    let v = PolicyViolationView::BlockedPermission(perms[i]);
    let rest = permission_violations(perms.drop_last());
    if i == perms.len() - 1 {
        assert(rest.push(v).last() == v);
        assert(permission_violations(perms) == rest.push(v));
        assert(permission_violations(perms)[rest.len() as int] == v);
    } else {
        lemma_blocked_permission_found(perms.drop_last(), i);
        assert(perms.drop_last()[i] == perms[i]);
        let k = choose|k: int| 0 <= k < rest.len() && rest[k] == v;
        if is_blocked_permission(perms.last()) {
            assert(rest.push(PolicyViolationView::BlockedPermission(perms.last()))[k] == v);
        }
        assert(permission_violations(perms)[k] == v);
    }
}

} // verus!
