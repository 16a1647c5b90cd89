//! The module search path of the script engine: the cartridge root and the SDK
//! root are put in front, each at most once, the cartridge root first.
use vstd::prelude::*;
use vstd::string::*;

use crate::sandbox::strings_view;
use crate::text::same_text;

verus! {

/// `path` with `entry` put in front, unless it is already there.
pub open spec fn prepended_unique(path: Seq<Seq<char>>, entry: Seq<char>) -> Seq<Seq<char>> {
    if path.contains(entry) {
        path
    } else {
        seq![entry] + path
    }
}

/// Puts `entry` in front of `path` unless `path` already holds it.
pub fn prepend_unique(path: &mut Vec<String>, entry: &str)
    ensures
        strings_view(final(path)@) == prepended_unique(strings_view(old(path)@), entry@),
{
    let ghost before = strings_view(path@);
    let mut i: usize = 0;
    while i < path.len()
        invariant
            before == strings_view(path@),
            i <= path@.len(),
            forall|j: int| 0 <= j < i ==> path@[j]@ != entry@,
        decreases path@.len() - i,
    {
        if same_text(path[i].as_str(), entry) {
            assert(before[i as int] == entry@);
            return;
        }
        i = i + 1;
    }
    assert(!before.contains(entry@));
    path.insert(0, entry.to_owned());
    assert(strings_view(path@) =~= seq![entry@] + before);
}

/// Puts the cartridge root and the SDK root in front of `path`, each at most
/// once, so that the cartridge root is searched first.
pub fn extend_search_path(path: &mut Vec<String>, cartridge_root: &str, sdk_root: &str)
    ensures
        strings_view(final(path)@) == prepended_unique(
            prepended_unique(strings_view(old(path)@), sdk_root@),
            cartridge_root@,
        ),
{
    prepend_unique(path, sdk_root);
    prepend_unique(path, cartridge_root);
}

} // verus!
