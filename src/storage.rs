//! Per-cartridge save namespaces: a sanitized game id, its quota, and the paths
//! of its save slots. Paths are computed only; nothing is created on disk.
use vstd::prelude::*;
use vstd::string::*;

use crate::manifest::Manifest;
use crate::text::{blank, chars_of, contains_chars, contains_text, is_blank};

verus! {

/// The save area of one cartridge.
#[derive(Debug, Clone)]
pub struct SaveNamespace {
    pub game_id: String,
    pub quota_mb: u32,
    pub root: String,
}

pub ghost struct SaveNamespaceView {
    pub game_id: Seq<char>,
    pub quota_mb: u32,
    pub root: Seq<char>,
}

impl View for SaveNamespace {
    type V = SaveNamespaceView;

    open spec fn view(&self) -> SaveNamespaceView {
        SaveNamespaceView { game_id: self.game_id@, quota_mb: self.quota_mb, root: self.root@ }
    }
}

/// Why a namespace or a slot path was refused.
#[derive(Debug, Clone, PartialEq, Eq)]
pub enum StorageError {
    InvalidGameId(String),
    InvalidSlot(String),
}

pub ghost enum StorageErrorView {
    InvalidGameId(Seq<char>),
    InvalidSlot(Seq<char>),
}

impl View for StorageError {
    type V = StorageErrorView;

    open spec fn view(&self) -> StorageErrorView {
        match self {
            StorageError::InvalidGameId(d) => StorageErrorView::InvalidGameId(d@),
            StorageError::InvalidSlot(d) => StorageErrorView::InvalidSlot(d@),
        }
    }
}

/// The characters a game id may hold: `[A-Za-z0-9._-]`.
pub open spec fn is_game_id_char(c: char) -> bool {
    ||| ('a' <= c && c <= 'z')
    ||| ('A' <= c && c <= 'Z')
    ||| ('0' <= c && c <= '9')
    ||| c == '.'
    ||| c == '_'
    ||| c == '-'
}

/// `part` appended to `base` as one more path component.
pub open spec fn join_path(base: Seq<char>, part: Seq<char>) -> Seq<char> {
    if base.len() == 0 {
        part
    } else if base.last() == '/' {
        base + part
    } else {
        base + "/"@ + part
    }
}

/// The game id that a manifest id yields, or why it yields none.
pub open spec fn sanitized_game_id(id: Seq<char>) -> Result<Seq<char>, StorageErrorView> {
    if id.len() == 0 {
        Err(StorageErrorView::InvalidGameId("game id must not be empty"@))
    } else if !(forall|i: int| 0 <= i < id.len() ==> is_game_id_char(#[trigger] id[i])) {
        Err(StorageErrorView::InvalidGameId("game id may only include [a-zA-Z0-9._-]"@))
    } else {
        Ok(id)
    }
}

/// The namespace that a saves root and a manifest id and quota yield.
pub open spec fn namespace_for(base: Seq<char>, id: Seq<char>, quota_mb: u32) -> Result<
    SaveNamespaceView,
    StorageErrorView,
> {
    match sanitized_game_id(id) {
        Ok(g) => Ok(SaveNamespaceView { game_id: g, quota_mb, root: join_path(base, g) }),
        Err(e) => Err(e),
    }
}

/// A slot name opens a way out of the namespace when it holds `/` or `..`.
pub open spec fn is_traversal(slot: Seq<char>) -> bool {
    slot.contains('/') || contains_text(slot, ".."@)
}

/// The file that holds slot `slot` under namespace root `root`, or why there is none.
pub open spec fn slot_path_for(root: Seq<char>, slot: Seq<char>) -> Result<
    Seq<char>,
    StorageErrorView,
> {
    if is_blank(slot) {
        Err(StorageErrorView::InvalidSlot("slot name must be non-empty"@))
    } else if is_traversal(slot) {
        Err(StorageErrorView::InvalidSlot("slot name must not contain path traversal components"@))
    } else {
        Ok(join_path(root, slot + ".json"@))
    }
}

/// Appends `part` to `base` as one more path component.
pub fn join_path_text(base: &str, part: &str) -> (r: String)
    ensures
        r@ == join_path(base@, part@),
{
    let b = chars_of(base);
    if b.len() == 0 {
        part.to_owned()
    } else if b[b.len() - 1] == '/' {
        base.to_owned().concat(part)
    } else {
        base.to_owned().concat("/").concat(part)
    }
}

fn is_game_id_char_exec(c: char) -> (r: bool)
    ensures
        r == is_game_id_char(c),
{
    ('a' <= c && c <= 'z') || ('A' <= c && c <= 'Z') || ('0' <= c && c <= '9') || c == '.' || c
        == '_' || c == '-'
}

/// Checks that `value` is a non-empty run of `[A-Za-z0-9._-]` and returns it.
pub fn sanitize_game_id(value: &str) -> (r: Result<String, StorageError>)
    ensures
        match sanitized_game_id(value@) {
            Ok(g) => r matches Ok(s) && s@ == g,
            Err(e) => r matches Err(x) && x@ == e,
        },
{
    let v = chars_of(value);
    if v.len() == 0 {
        return Err(StorageError::InvalidGameId("game id must not be empty".to_owned()));
    }
    let mut i: usize = 0;
    while i < v.len()
        invariant
            v@ == value@,
            i <= v@.len(),
            forall|j: int| 0 <= j < i ==> is_game_id_char(#[trigger] v@[j]),
        decreases v@.len() - i,
    {
        if !is_game_id_char_exec(v[i]) {
            return Err(
                StorageError::InvalidGameId("game id may only include [a-zA-Z0-9._-]".to_owned()),
            );
        }
        i = i + 1;
    }
    Ok(value.to_owned())
}

impl SaveNamespace {
    /// The namespace of `manifest` under the saves root `base_dir`: its root is
    /// `base_dir/<game id>`.
    pub fn from_manifest(base_dir: &str, manifest: &Manifest) -> (r: Result<
        SaveNamespace,
        StorageError,
    >)
        ensures
            match namespace_for(base_dir@, manifest.id@, manifest.save_quota_mb) {
                Ok(n) => r matches Ok(ns) && ns@ == n,
                Err(e) => r matches Err(x) && x@ == e,
            },
    {
        let game_id = match sanitize_game_id(manifest.id.as_str()) {
            Ok(g) => g,
            Err(e) => {
                return Err(e);
            },
        };
        let root = join_path_text(base_dir, game_id.as_str());
        Ok(SaveNamespace { game_id, quota_mb: manifest.save_quota_mb, root })
    }

    /// The file of save slot `slot`: `root/<slot>.json`. Blank names and names
    /// holding `/` or `..` are refused.
    pub fn slot_path(&self, slot: &str) -> (r: Result<String, StorageError>)
        ensures
            match slot_path_for(self.root@, slot@) {
                Ok(p) => r matches Ok(s) && s@ == p,
                Err(e) => r matches Err(x) && x@ == e,
            },
    {
        if blank(slot) {
            return Err(StorageError::InvalidSlot("slot name must be non-empty".to_owned()));
        }
        let sv = chars_of(slot);
        let slash = chars_of("/");
        let dots = chars_of("..");
        let has_slash = contains_chars(&sv, &slash);
        proof {
            reveal_strlit("/");
            if has_slash {
                let i = choose|i: int| crate::text::occurs_at(sv@, slash@, i);
                assert(sv@.subrange(i, i + 1)[0] == sv@[i]);
                assert(sv@.contains('/'));
            } else if sv@.contains('/') {
                let i = choose|i: int| 0 <= i < sv@.len() && sv@[i] == '/';
                assert(sv@.subrange(i, i + 1) =~= slash@);
                assert(crate::text::occurs_at(sv@, slash@, i));
            }
        }
        if has_slash || contains_chars(&sv, &dots) {
            return Err(
                StorageError::InvalidSlot(
                    "slot name must not contain path traversal components".to_owned(),
                ),
            );
        }
        let file = slot.to_owned().concat(".json");
        Ok(join_path_text(self.root.as_str(), file.as_str()))
    }
}

pub open spec fn storage_error_message(e: StorageErrorView) -> Seq<char> {
    match e {
        StorageErrorView::InvalidGameId(d) => "invalid game id: "@ + d,
        StorageErrorView::InvalidSlot(d) => "invalid slot: "@ + d,
    }
}

impl StorageError {
    pub fn message(&self) -> (r: String)
        ensures
            r@ == storage_error_message(self@),
    {
        match self {
            StorageError::InvalidGameId(d) => "invalid game id: ".to_owned().concat(d.as_str()),
            StorageError::InvalidSlot(d) => "invalid slot: ".to_owned().concat(d.as_str()),
        }
    }
}

/// Deriving a namespace is a function of the saves root and the manifest alone:
/// two derivations from the same inputs give the same namespace, and so the same
/// path for every slot.
pub proof fn lemma_namespace_deterministic(
    base: Seq<char>,
    m1: Manifest,
    m2: Manifest,
    n1: SaveNamespace,
    n2: SaveNamespace,
    slot: Seq<char>,
)
    requires
        m1@ == m2@,
        namespace_for(base, m1.id@, m1.save_quota_mb) == Ok::<
            SaveNamespaceView,
            StorageErrorView,
        >(n1@),
        namespace_for(base, m2.id@, m2.save_quota_mb) == Ok::<
            SaveNamespaceView,
            StorageErrorView,
        >(n2@),
    ensures
        n1@ == n2@,
        slot_path_for(n1.root@, slot) == slot_path_for(n2.root@, slot),
{
}

} // verus!
