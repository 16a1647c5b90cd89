//! The cartridge descriptor and its field-level validation.
use vstd::prelude::*;
use vstd::string::*;

use crate::text::{blank, ends_with, ends_with_str, is_blank};

verus! {

/// A cartridge descriptor, as read from the descriptor document.
#[derive(Debug, Clone, PartialEq, Eq)]
pub struct Manifest {
    pub id: String,
    pub name: String,
    pub version: String,
    pub entrypoint: String,
    pub sdk_version: String,
    pub assets_path: String,
    pub save_quota_mb: u32,
    pub permissions: Vec<String>,
}

/// The mathematical value of a [`Manifest`].
pub ghost struct ManifestView {
    pub id: Seq<char>,
    pub name: Seq<char>,
    pub version: Seq<char>,
    pub entrypoint: Seq<char>,
    pub sdk_version: Seq<char>,
    pub assets_path: Seq<char>,
    pub save_quota_mb: u32,
    pub permissions: Seq<Seq<char>>,
}

impl View for Manifest {
    type V = ManifestView;

    open spec fn view(&self) -> ManifestView {
        ManifestView {
            id: self.id@,
            name: self.name@,
            version: self.version@,
            entrypoint: self.entrypoint@,
            sdk_version: self.sdk_version@,
            assets_path: self.assets_path@,
            save_quota_mb: self.save_quota_mb,
            permissions: self.permissions@.map_values(|p: String| p@),
        }
    }
}

/// Why a descriptor was refused.
#[derive(Debug, Clone, PartialEq, Eq)]
pub enum ManifestError {
    /// The document is malformed, or a required key is missing or has the wrong type.
    Parse(String),
    /// A key is present but its value breaks a field rule.
    Validation(String),
}

pub ghost enum ManifestErrorView {
    Parse(Seq<char>),
    Validation(Seq<char>),
}

impl View for ManifestError {
    type V = ManifestErrorView;

    open spec fn view(&self) -> ManifestErrorView {
        match self {
            ManifestError::Parse(d) => ManifestErrorView::Parse(d@),
            ManifestError::Validation(d) => ManifestErrorView::Validation(d@),
        }
    }
}

pub open spec fn manifest_result_view(r: Result<Manifest, ManifestError>) -> Result<
    ManifestView,
    ManifestErrorView,
> {
    match r {
        Ok(m) => Ok(m@),
        Err(e) => Err(e@),
    }
}

/// The file extension that guest scripts carry.
pub open spec fn script_extension() -> Seq<char> {
    ".py"@
}

pub open spec fn non_empty_message(key: Seq<char>) -> Seq<char> {
    "manifest key `"@ + key + "` must be a non-empty string"@
}

/// The first field rule that `m` breaks, as its message, checked in the order
/// id, name, version, entrypoint (non-empty, then extension), sdk_version,
/// assets_path, save_quota_mb; `None` when `m` keeps every rule.
pub open spec fn validation_issue(m: ManifestView) -> Option<Seq<char>> {
    if is_blank(m.id) {
        Some(non_empty_message("id"@))
    } else if is_blank(m.name) {
        Some(non_empty_message("name"@))
    } else if is_blank(m.version) {
        Some(non_empty_message("version"@))
    } else if is_blank(m.entrypoint) {
        Some(non_empty_message("entrypoint"@))
    } else if !ends_with(m.entrypoint, script_extension()) {
        Some("manifest key `entrypoint` must point to a .py file"@)
    } else if is_blank(m.sdk_version) {
        Some(non_empty_message("sdk_version"@))
    } else if is_blank(m.assets_path) {
        Some(non_empty_message("assets_path"@))
    } else if m.save_quota_mb == 0 {
        Some("manifest key `save_quota_mb` must be greater than 0"@)
    } else {
        None
    }
}

pub open spec fn valid_manifest(m: ManifestView) -> bool {
    validation_issue(m) is None
}

fn non_empty_error(key: &str) -> (r: ManifestError)
    ensures
        r matches ManifestError::Validation(msg) && msg@ == non_empty_message(key@),
{
    let msg = "manifest key `".to_owned().concat(key).concat("` must be a non-empty string");
    ManifestError::Validation(msg)
}

impl Manifest {
    /// Applies the field rules in their fixed order and reports the first one broken.
    pub fn validate(&self) -> (r: Result<(), ManifestError>)
        ensures
            r is Ok <==> valid_manifest(self@),
            r matches Err(e) ==> e matches ManifestError::Validation(msg) && Some(msg@)
                == validation_issue(self@),
    {
        if blank(self.id.as_str()) {
            return Err(non_empty_error("id"));
        }
        if blank(self.name.as_str()) {
            return Err(non_empty_error("name"));
        }
        if blank(self.version.as_str()) {
            return Err(non_empty_error("version"));
        }
        if blank(self.entrypoint.as_str()) {
            return Err(non_empty_error("entrypoint"));
        }
        if !ends_with_str(self.entrypoint.as_str(), ".py") {
            return Err(
                ManifestError::Validation(
                    "manifest key `entrypoint` must point to a .py file".to_owned(),
                ),
            );
        }
        if blank(self.sdk_version.as_str()) {
            return Err(non_empty_error("sdk_version"));
        }
        if blank(self.assets_path.as_str()) {
            return Err(non_empty_error("assets_path"));
        }
        if self.save_quota_mb == 0 {
            return Err(
                ManifestError::Validation(
                    "manifest key `save_quota_mb` must be greater than 0".to_owned(),
                ),
            );
        }
        Ok(())
    }
}

/// The text shown for a descriptor error: a prefix naming its kind, then its detail.
pub open spec fn manifest_error_message(e: ManifestError) -> Seq<char> {
    match e {
        ManifestError::Parse(d) => "manifest parse error: "@ + d@,
        ManifestError::Validation(d) => "manifest validation error: "@ + d@,
    }
}

impl ManifestError {
    pub fn message(&self) -> (r: String)
        ensures
            r@ == manifest_error_message(*self),
    {
        match self {
            ManifestError::Parse(d) => "manifest parse error: ".to_owned().concat(d.as_str()),
            ManifestError::Validation(d) => "manifest validation error: ".to_owned().concat(
                d.as_str(),
            ),
        }
    }
}

} // verus!
