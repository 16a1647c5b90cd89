//! Reading a manifest out of its descriptor document. The document syntax is
//! TOML, read by the `toml` crate; which keys are required, their types, and the
//! order in which faults are reported are decided here.
use vstd::prelude::*;
use vstd::string::*;

use crate::sandbox::strings_view;
use crate::text::ends_with;
use crate::manifest::{
    manifest_result_view, script_extension, validation_issue, Manifest, ManifestError, ManifestErrorView,
    ManifestView,
};

verus! {

#[verifier::external_type_specification]
#[verifier::external_body]
#[verifier::reject_recursive_types(K)]
#[verifier::reject_recursive_types(V)]
pub struct ExTomlMap<K, V>(toml::map::Map<K, V>);

#[verifier::external_type_specification]
#[verifier::external_body]
pub struct ExTomlValue(toml::Value);

/// What the descriptor logic reads of one top-level value of a document.
pub ghost enum DescriptorValue {
    /// A string.
    Text(Seq<char>),
    /// An integer.
    Integer(int),
    /// An array; each item is given as its text when it is a string, else `None`.
    Array(Seq<Option<Seq<char>>>),
    /// Any other value.
    Other,
}

/// The top-level entries of a TOML table, keyed by name.
pub uninterp spec fn table_entries(t: toml::Table) -> Map<Seq<char>, DescriptorValue>;

/// The top-level entries of the TOML document `s`, or `None` when `s` is not a
/// well-formed TOML document.
pub uninterp spec fn toml_document(s: Seq<char>) -> Option<Map<Seq<char>, DescriptorValue>>;

/// Relies on `toml::from_str` into a `toml::Table`: it fails exactly on text that
/// is not a TOML document, and otherwise holds the document's top-level entries.
#[verifier::external_body]
fn parse_toml_table(input: &str) -> (r: Result<toml::Table, String>)
    ensures
        match toml_document(input@) {
            Some(m) => r matches Ok(t) && table_entries(t) == m,
            None => r is Err,
        },
{
    toml::from_str::<toml::Table>(input).map_err(|e| e.to_string())
}

/// Relies on `toml::map::Map::contains_key`: whether the table has an entry `key`.
#[verifier::external_body]
fn table_has(t: &toml::Table, key: &str) -> (r: bool)
    ensures
        r == table_entries(*t).contains_key(key@),
{
    t.contains_key(key)
}

/// Relies on `toml::map::Map::get`: the entry `key` when it is a string.
#[verifier::external_body]
fn table_text(t: &toml::Table, key: &str) -> (r: Option<String>)
    ensures
        match r {
            Some(s) => table_entries(*t).contains_key(key@) && table_entries(*t)[key@]
                == DescriptorValue::Text(s@),
            None => !(table_entries(*t).contains_key(key@) && table_entries(*t)[key@] is Text),
        },
{
    match t.get(key) {
        Some(toml::Value::String(s)) => Some(s.clone()),
        _ => None,
    }
}

/// Relies on `toml::map::Map::get`: the entry `key` when it is an integer.
#[verifier::external_body]
fn table_integer(t: &toml::Table, key: &str) -> (r: Option<i64>)
    ensures
        match r {
            Some(i) => table_entries(*t).contains_key(key@) && table_entries(*t)[key@]
                == DescriptorValue::Integer(i as int),
            None => !(table_entries(*t).contains_key(key@) && table_entries(*t)[key@] is Integer),
        },
{
    match t.get(key) {
        Some(toml::Value::Integer(i)) => Some(*i),
        _ => None,
    }
}

/// Relies on `toml::map::Map::get`: the length of the entry `key` when it is an array.
#[verifier::external_body]
fn table_array_len(t: &toml::Table, key: &str) -> (r: Option<usize>)
    ensures
        match r {
            Some(n) => table_entries(*t).contains_key(key@) && table_entries(*t)[key@] is Array
                && table_entries(*t)[key@]->Array_0.len() == n,
            None => !(table_entries(*t).contains_key(key@) && table_entries(*t)[key@] is Array),
        },
{
    match t.get(key) {
        Some(toml::Value::Array(items)) => Some(items.len()),
        _ => None,
    }
}

/// Relies on `toml::map::Map::get`: item `i` of the array entry `key` when that
/// item is a string.
#[verifier::external_body]
fn table_array_text(t: &toml::Table, key: &str, i: usize) -> (r: Option<String>)
    requires
        table_entries(*t).contains_key(key@),
        table_entries(*t)[key@] is Array,
        i < table_entries(*t)[key@]->Array_0.len(),
    ensures
        match r {
            Some(s) => table_entries(*t)[key@]->Array_0[i as int] == Some(s@),
            None => table_entries(*t)[key@]->Array_0[i as int] is None,
        },
{
    match t.get(key) {
        Some(toml::Value::Array(items)) => match items.get(i) {
            Some(toml::Value::String(s)) => Some(s.clone()),
            _ => None,
        },
        _ => None,
    }
}

pub open spec fn missing_field_message(key: Seq<char>) -> Seq<char> {
    "missing field `"@ + key + "`"@
}

pub open spec fn invalid_type_message(key: Seq<char>, expected: Seq<char>) -> Seq<char> {
    "invalid type for key `"@ + key + "`, expected "@ + expected
}

/// The fault of a required string entry, if any.
pub open spec fn text_fault(m: Map<Seq<char>, DescriptorValue>, key: Seq<char>) -> Option<
    Seq<char>,
> {
    if !m.contains_key(key) {
        Some(missing_field_message(key))
    } else if !(m[key] is Text) {
        Some(invalid_type_message(key, "a string"@))
    } else {
        None
    }
}

/// The fault of the required quota entry, if any: it must be an integer that
/// fits in 32 unsigned bits.
pub open spec fn quota_fault(m: Map<Seq<char>, DescriptorValue>) -> Option<Seq<char>> {
    let key = "save_quota_mb"@;
    if !m.contains_key(key) {
        Some(missing_field_message(key))
    } else if !(m[key] is Integer) {
        Some(invalid_type_message(key, "an integer"@))
    } else if !(0 <= m[key]->Integer_0 <= u32::MAX) {
        Some("invalid value for key `save_quota_mb`, expected a u32"@)
    } else {
        None
    }
}

/// The texts of the array's items.
pub open spec fn texts_of(items: Seq<Option<Seq<char>>>) -> Seq<Seq<char>> {
    items.map_values(|o: Option<Seq<char>>| o->0)
}

/// The array holds only strings.
pub open spec fn all_text(items: Seq<Option<Seq<char>>>) -> bool {
    forall|i: int| 0 <= i < items.len() ==> #[trigger] items[i] is Some
}

/// The fault of the optional permissions entry, if any: when present it must be
/// an array of strings.
pub open spec fn permissions_fault(m: Map<Seq<char>, DescriptorValue>) -> Option<Seq<char>> {
    let key = "permissions"@;
    if m.contains_key(key) && !(m[key] is Array && all_text(m[key]->Array_0)) {
        Some(invalid_type_message(key, "an array of strings"@))
    } else {
        None
    }
}

/// The first fault of the entries, the keys taken in the order id, name,
/// version, entrypoint, sdk_version, assets_path, save_quota_mb, permissions.
pub open spec fn entries_fault(m: Map<Seq<char>, DescriptorValue>) -> Option<Seq<char>> {
    if text_fault(m, "id"@) is Some {
        text_fault(m, "id"@)
    } else if text_fault(m, "name"@) is Some {
        text_fault(m, "name"@)
    } else if text_fault(m, "version"@) is Some {
        text_fault(m, "version"@)
    } else if text_fault(m, "entrypoint"@) is Some {
        text_fault(m, "entrypoint"@)
    } else if text_fault(m, "sdk_version"@) is Some {
        text_fault(m, "sdk_version"@)
    } else if text_fault(m, "assets_path"@) is Some {
        text_fault(m, "assets_path"@)
    } else if quota_fault(m) is Some {
        quota_fault(m)
    } else {
        permissions_fault(m)
    }
}

/// The manifest that fault-free entries describe; permissions default to none.
pub open spec fn manifest_of_entries(m: Map<Seq<char>, DescriptorValue>) -> ManifestView {
    ManifestView {
        id: m["id"@]->Text_0,
        name: m["name"@]->Text_0,
        version: m["version"@]->Text_0,
        entrypoint: m["entrypoint"@]->Text_0,
        sdk_version: m["sdk_version"@]->Text_0,
        assets_path: m["assets_path"@]->Text_0,
        save_quota_mb: m["save_quota_mb"@]->Integer_0 as u32,
        permissions: if m.contains_key("permissions"@) {
            texts_of(m["permissions"@]->Array_0)
        } else {
            seq![]
        },
    }
}

/// Reading the entries without validation: the first fault as a parse error, or
/// the manifest.
pub open spec fn read_entries(m: Map<Seq<char>, DescriptorValue>) -> Result<
    ManifestView,
    ManifestErrorView,
> {
    match entries_fault(m) {
        Some(msg) => Err(ManifestErrorView::Parse(msg)),
        None => Ok(manifest_of_entries(m)),
    }
}

/// Reading the entries, then the field rules: the outcome of parsing a
/// well-formed document with these entries.
pub open spec fn manifest_from_entries(m: Map<Seq<char>, DescriptorValue>) -> Result<
    ManifestView,
    ManifestErrorView,
> {
    match entries_fault(m) {
        Some(msg) => Err(ManifestErrorView::Parse(msg)),
        None => match validation_issue(manifest_of_entries(m)) {
            Some(msg) => Err(ManifestErrorView::Validation(msg)),
            None => Ok(manifest_of_entries(m)),
        },
    }
}

fn read_text(t: &toml::Table, key: &str) -> (r: Result<String, ManifestError>)
    ensures
        match text_fault(table_entries(*t), key@) {
            Some(msg) => r matches Err(ManifestError::Parse(e)) && e@ == msg,
            None => r matches Ok(s) && table_entries(*t)[key@] == DescriptorValue::Text(s@),
        },
{
    match table_text(t, key) {
        Some(s) => Ok(s),
        None => {
            if table_has(t, key) {
                Err(
                    ManifestError::Parse(
                        "invalid type for key `".to_owned().concat(key).concat("`, expected ").concat(
                            "a string",
                        ),
                    ),
                )
            } else {
                Err(
                    ManifestError::Parse(
                        "missing field `".to_owned().concat(key).concat("`"),
                    ),
                )
            }
        },
    }
}

fn read_quota(t: &toml::Table) -> (r: Result<u32, ManifestError>)
    ensures
        match quota_fault(table_entries(*t)) {
            Some(msg) => r matches Err(ManifestError::Parse(e)) && e@ == msg,
            None => r matches Ok(q) && q == table_entries(*t)["save_quota_mb"@]->Integer_0,
        },
{
    match table_integer(t, "save_quota_mb") {
        Some(i) => {
            if 0 <= i && i <= 4294967295 {
                Ok(i as u32)
            } else {
                Err(
                    ManifestError::Parse(
                        "invalid value for key `save_quota_mb`, expected a u32".to_owned(),
                    ),
                )
            }
        },
        None => {
            if table_has(t, "save_quota_mb") {
                Err(
                    ManifestError::Parse(
                        "invalid type for key `".to_owned().concat("save_quota_mb").concat(
                            "`, expected ",
                        ).concat("an integer"),
                    ),
                )
            } else {
                Err(
                    ManifestError::Parse(
                        "missing field `".to_owned().concat("save_quota_mb").concat("`"),
                    ),
                )
            }
        },
    }
}

fn read_permissions(t: &toml::Table) -> (r: Result<Vec<String>, ManifestError>)
    ensures
        match permissions_fault(table_entries(*t)) {
            Some(msg) => r matches Err(ManifestError::Parse(e)) && e@ == msg,
            None => r matches Ok(v) && strings_view(v@) == manifest_of_entries(
                table_entries(*t),
            ).permissions,
        },
{
    let ghost m = table_entries(*t);
    let ghost key = "permissions"@;
    let n = match table_array_len(t, "permissions") {
        Some(n) => n,
        None => {
            if table_has(t, "permissions") {
                return Err(
                    ManifestError::Parse(
                        "invalid type for key `".to_owned().concat("permissions").concat(
                            "`, expected ",
                        ).concat("an array of strings"),
                    ),
                );
            }
            return Ok(Vec::new());
        },
    };
    let ghost items = m[key]->Array_0;
    let mut out: Vec<String> = Vec::new();
    let mut i: usize = 0;
    while i < n
        invariant
            m == table_entries(*t),
            key == "permissions"@,
            m.contains_key(key),
            m[key] is Array,
            items == m[key]->Array_0,
            n == items.len(),
            i <= n,
            forall|j: int| 0 <= j < i ==> #[trigger] items[j] is Some,
            strings_view(out@) == texts_of(items.subrange(0, i as int)),
        decreases n - i,
    {
        match table_array_text(t, "permissions", i) {
            Some(s) => {
                let ghost prev = out@;
                out.push(s);
                proof {
                    assert(strings_view(prev).len() == prev.len());
                    assert(texts_of(items.subrange(0, i as int)).len() == i);
                    assert(prev.len() == i);
                    assert forall|j: int| 0 <= j < i + 1 implies #[trigger] strings_view(out@)[j]
                        == texts_of(items.subrange(0, i + 1))[j] by {
                        if j < i {
                            assert(strings_view(prev)[j] == texts_of(items.subrange(0, i as int))[j]);
                        } else {
                            assert(items.subrange(0, i + 1)[j] == Some(s@));
                        }
                    }
                    assert(strings_view(out@) =~= texts_of(items.subrange(0, i + 1)));
                }
            },
            None => {
                assert(!all_text(items));
                return Err(
                    ManifestError::Parse(
                        "invalid type for key `".to_owned().concat("permissions").concat(
                            "`, expected ",
                        ).concat("an array of strings"),
                    ),
                );
            },
        }
        i = i + 1;
    }
    assert(items.subrange(0, i as int) =~= items);
    Ok(out)
}

impl Manifest {
    /// Reads the manifest's fields out of a TOML table, without the field rules.
    pub fn from_table(t: &toml::Table) -> (r: Result<Manifest, ManifestError>)
        ensures
            manifest_result_view(r) == read_entries(table_entries(*t)),
    {
        proof {
            reveal_strlit("permissions");
        }
        let id = match read_text(t, "id") {
            Ok(s) => s,
            Err(e) => {
                return Err(e);
            },
        };
        let name = match read_text(t, "name") {
            Ok(s) => s,
            Err(e) => {
                return Err(e);
            },
        };
        let version = match read_text(t, "version") {
            Ok(s) => s,
            Err(e) => {
                return Err(e);
            },
        };
        let entrypoint = match read_text(t, "entrypoint") {
            Ok(s) => s,
            Err(e) => {
                return Err(e);
            },
        };
        let sdk_version = match read_text(t, "sdk_version") {
            Ok(s) => s,
            Err(e) => {
                return Err(e);
            },
        };
        let assets_path = match read_text(t, "assets_path") {
            Ok(s) => s,
            Err(e) => {
                return Err(e);
            },
        };
        let save_quota_mb = match read_quota(t) {
            Ok(q) => q,
            Err(e) => {
                return Err(e);
            },
        };
        let permissions = match read_permissions(t) {
            Ok(p) => p,
            Err(e) => {
                return Err(e);
            },
        };
        let m = Manifest {
            id,
            name,
            version,
            entrypoint,
            sdk_version,
            assets_path,
            save_quota_mb,
            permissions,
        };
        assert(m@ == manifest_of_entries(table_entries(*t)));
        Ok(m)
    }

    /// Parses a descriptor document, then applies the field rules. A malformed
    /// document, a missing required key or one of the wrong type gives
    /// `ManifestError::Parse`; a broken field rule gives `ManifestError::Validation`.
    pub fn parse(input: &str) -> (r: Result<Manifest, ManifestError>)
        ensures
            match toml_document(input@) {
                None => r matches Err(ManifestError::Parse(_)),
                Some(m) => manifest_result_view(r) == manifest_from_entries(m),
            },
    {
        let table = match parse_toml_table(input) {
            Ok(t) => t,
            Err(msg) => {
                return Err(ManifestError::Parse(msg));
            },
        };
        let manifest = match Manifest::from_table(&table) {
            Ok(m) => m,
            Err(e) => {
                return Err(e);
            },
        };
        match manifest.validate() {
            Ok(()) => Ok(manifest),
            Err(e) => Err(e),
        }
    }
}

/// The required keys, in the order in which their faults are reported.
pub open spec fn required_keys() -> Seq<Seq<char>> {
    seq![
        "id"@,
        "name"@,
        "version"@,
        "entrypoint"@,
        "sdk_version"@,
        "assets_path"@,
        "save_quota_mb"@,
    ]
}

/// Required key `k` is present with a value of its type.
pub open spec fn required_key_ok(m: Map<Seq<char>, DescriptorValue>, k: Seq<char>) -> bool {
    if k == "save_quota_mb"@ {
        quota_fault(m) is None
    } else {
        text_fault(m, k) is None
    }
}

/// A document that lacks a required key is refused with a parse error, never
/// read into a manifest.
pub proof fn lemma_missing_key_is_parse_error(m: Map<Seq<char>, DescriptorValue>, i: int)
    requires
        0 <= i < required_keys().len(),
        !m.contains_key(required_keys()[i]),
    ensures
        manifest_from_entries(m) is Err,
        manifest_from_entries(m)->Err_0 is Parse,
{
}

/// When every required key before it is well-formed, the parse error for a
/// missing required key names that key.
pub proof fn lemma_missing_key_is_named(m: Map<Seq<char>, DescriptorValue>, i: int)
    requires
        0 <= i < required_keys().len(),
        !m.contains_key(required_keys()[i]),
        forall|j: int| 0 <= j < i ==> required_key_ok(m, #[trigger] required_keys()[j]),
    ensures
        manifest_from_entries(m) == Err::<ManifestView, ManifestErrorView>(
            ManifestErrorView::Parse(missing_field_message(required_keys()[i])),
        ),
{
    let ks = required_keys();
    assert(ks[0] == "id"@ && ks[1] == "name"@ && ks[2] == "version"@ && ks[3] == "entrypoint"@
        && ks[4] == "sdk_version"@ && ks[5] == "assets_path"@ && ks[6] == "save_quota_mb"@);
    reveal_strlit("id");
    reveal_strlit("name");
    reveal_strlit("version");
    reveal_strlit("entrypoint");
    reveal_strlit("sdk_version");
    reveal_strlit("assets_path");
    reveal_strlit("save_quota_mb");
    if i > 0 {
        assert(required_key_ok(m, ks[0]));
    }
    if i > 1 {
        assert(required_key_ok(m, ks[1]));
    }
    if i > 2 {
        assert(required_key_ok(m, ks[2]));
    }
    if i > 3 {
        assert(required_key_ok(m, ks[3]));
    }
    if i > 4 {
        assert(required_key_ok(m, ks[4]));
    }
    if i > 5 {
        assert(required_key_ok(m, ks[5]));
    }
}

/// A document with every required key well-formed whose entrypoint does not
/// end in the guest-script extension is refused by the field rules.
pub proof fn lemma_wrong_extension_fails_validation(m: Map<Seq<char>, DescriptorValue>)
    requires
        entries_fault(m) is None,
        !ends_with(m["entrypoint"@]->Text_0, script_extension()),
    ensures
        manifest_from_entries(m) is Err,
        manifest_from_entries(m)->Err_0 is Validation,
{
}

} // verus!
