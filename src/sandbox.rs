//! The import and permission policy: a static scan of the descriptor and of the
//! entry script's text, and the decision taken for each import at run time.
use vstd::prelude::*;
use vstd::string::*;

use crate::manifest::Manifest;
use crate::text::{
    chars_of, is_space, is_space_char, occurs_at_chars, same_text, slice_chars,
    starts_with, string_from_chars,
};

verus! {

/// A breach of the fixed permission and import policy.
#[derive(Debug, Clone, PartialEq, Eq)]
pub enum PolicyViolation {
    BlockedPermission(String),
    NetworkImport(String),
    ImportNotAllowed(String),
}

pub ghost enum PolicyViolationView {
    BlockedPermission(Seq<char>),
    NetworkImport(Seq<char>),
    ImportNotAllowed(Seq<char>),
}

impl View for PolicyViolation {
    type V = PolicyViolationView;

    open spec fn view(&self) -> PolicyViolationView {
        match self {
            PolicyViolation::BlockedPermission(s) => PolicyViolationView::BlockedPermission(s@),
            PolicyViolation::NetworkImport(s) => PolicyViolationView::NetworkImport(s@),
            PolicyViolation::ImportNotAllowed(s) => PolicyViolationView::ImportNotAllowed(s@),
        }
    }
}

pub open spec fn violations_view(v: Seq<PolicyViolation>) -> Seq<PolicyViolationView> {
    v.map_values(|p: PolicyViolation| p@)
}

/// Permissions that no cartridge may request.
pub open spec fn is_blocked_permission(p: Seq<char>) -> bool {
    p == "network"@
}

/// Modules that give network access.
pub open spec fn is_network_module(m: Seq<char>) -> bool {
    ||| m == "socket"@
    ||| m == "urllib"@
    ||| m == "http"@
    ||| m == "requests"@
    ||| m == "asyncio"@
}

/// Modules of the SDK that guest code may import.
pub open spec fn is_sdk_module(m: Seq<char>) -> bool {
    m == "vcon"@
}

/// One finding for each blocked permission, in the order requested.
pub open spec fn permission_violations(perms: Seq<Seq<char>>) -> Seq<PolicyViolationView>
    decreases perms.len(),
{
    if perms.len() == 0 {
        seq![]
    } else {
        let rest = permission_violations(perms.drop_last());
        if is_blocked_permission(perms.last()) {
            rest.push(PolicyViolationView::BlockedPermission(perms.last()))
        } else {
            rest
        }
    }
}

/// The finding for one imported root module, if any.
pub open spec fn classify_root(m: Seq<char>) -> Option<PolicyViolationView> {
    if is_network_module(m) {
        Some(PolicyViolationView::NetworkImport(m))
    } else if !is_sdk_module(m) {
        Some(PolicyViolationView::ImportNotAllowed(m))
    } else {
        None
    }
}

/// The findings for a list of imported root modules, in order.
pub open spec fn root_violations(roots: Seq<Seq<char>>) -> Seq<PolicyViolationView>
    decreases roots.len(),
{
    if roots.len() == 0 {
        seq![]
    } else {
        let rest = root_violations(roots.drop_last());
        match classify_root(roots.last()) {
            Some(v) => rest.push(v),
            None => rest,
        }
    }
}

/// The first index at or after `i` that does not hold whitespace (or the end).
pub open spec fn skip_spaces(s: Seq<char>, i: int) -> int
    decreases s.len() - i,
{
    if 0 <= i < s.len() && is_space(s[i]) {
        skip_spaces(s, i + 1)
    } else {
        i
    }
}

/// The first index at or after `i` that holds whitespace (or the end).
pub open spec fn token_end(s: Seq<char>, i: int) -> int
    decreases s.len() - i,
{
    if 0 <= i < s.len() && !is_space(s[i]) {
        token_end(s, i + 1)
    } else {
        i
    }
}

/// The first index at or after `i` that holds `c` (or the end).
pub open spec fn find_char(s: Seq<char>, i: int, c: char) -> int
    decreases s.len() - i,
{
    if 0 <= i < s.len() && s[i] != c {
        find_char(s, i + 1, c)
    } else {
        i
    }
}

/// The length of `s[..j]` once its trailing commas are cut.
pub open spec fn trim_commas(s: Seq<char>, j: int) -> int
    decreases j,
{
    if 0 < j <= s.len() && s[j - 1] == ',' {
        trim_commas(s, j - 1)
    } else {
        j
    }
}

/// The first whitespace-separated token of `s`.
pub open spec fn first_token(s: Seq<char>) -> Seq<char> {
    let a = skip_spaces(s, 0);
    s.subrange(a, token_end(s, a))
}

/// The root module named at the start of the text after `import ` or `from `:
/// the first token, up to its first `.`, without trailing commas.
pub open spec fn module_root(rest: Seq<char>) -> Seq<char> {
    let t = first_token(rest);
    let d = t.subrange(0, find_char(t, 0, '.'));
    d.subrange(0, trim_commas(d, d.len() as int))
}

/// The root module that one line of script imports, or the empty text when the
/// line, its leading whitespace dropped, starts with neither `import ` nor `from `.
pub open spec fn line_import_root(line: Seq<char>) -> Seq<char> {
    let t = line.subrange(skip_spaces(line, 0), line.len() as int);
    if starts_with(t, "import "@) {
        module_root(t.subrange(7, t.len() as int))
    } else if starts_with(t, "from "@) {
        module_root(t.subrange(5, t.len() as int))
    } else {
        seq![]
    }
}

/// The lines of `s` from index `start` on, split at each `\n`; text after the last
/// `\n` forms a last line when it is not empty.
pub open spec fn lines_from(s: Seq<char>, start: int) -> Seq<Seq<char>>
    decreases s.len() - start,
{
    if start < 0 || start >= s.len() {
        seq![]
    } else {
        let e = find_char(s, start, '\n');
        if start <= e < s.len() {
            seq![s.subrange(start, e)] + lines_from(s, e + 1)
        } else {
            seq![s.subrange(start, s.len() as int)]
        }
    }
}

pub open spec fn lines(s: Seq<char>) -> Seq<Seq<char>> {
    lines_from(s, 0)
}

/// The non-empty import roots of the given lines, in order.
pub open spec fn import_roots(ls: Seq<Seq<char>>) -> Seq<Seq<char>>
    decreases ls.len(),
{
    if ls.len() == 0 {
        seq![]
    } else {
        let rest = import_roots(ls.drop_last());
        let r = line_import_root(ls.last());
        if r.len() > 0 {
            rest.push(r)
        } else {
            rest
        }
    }
}

/// Everything the static scan finds in a script's text.
pub open spec fn source_violations(src: Seq<char>) -> Seq<PolicyViolationView> {
    root_violations(import_roots(lines(src)))
}

fn is_network_module_name(m: &str) -> (r: bool)
    ensures
        r == is_network_module(m@),
{
    same_text(m, "socket") || same_text(m, "urllib") || same_text(m, "http") || same_text(
        m,
        "requests",
    ) || same_text(m, "asyncio")
}

fn is_sdk_module_name(m: &str) -> (r: bool)
    ensures
        r == is_sdk_module(m@),
{
    same_text(m, "vcon")
}

/// The findings for the permissions that `manifest` requests: one
/// `BlockedPermission` for each blocked one, in order.
pub fn validate_manifest_permissions(manifest: &Manifest) -> (r: Vec<PolicyViolation>)
    ensures
        violations_view(r@) == permission_violations(manifest@.permissions),
{
    let ghost perms = manifest@.permissions;
    let mut out: Vec<PolicyViolation> = Vec::new();
    let mut i: usize = 0;
    while i < manifest.permissions.len()
        invariant
            perms == manifest.permissions@.map_values(|p: String| p@),
            i <= manifest.permissions@.len(),
            violations_view(out@) == permission_violations(perms.subrange(0, i as int)),
        decreases manifest.permissions@.len() - i,
    {
        let p = &manifest.permissions[i];
        assert(perms.subrange(0, i + 1).drop_last() =~= perms.subrange(0, i as int));
        if same_text(p.as_str(), "network") {
            out.push(PolicyViolation::BlockedPermission(p.clone()));
        }
        assert(violations_view(out@) =~= permission_violations(perms.subrange(0, i + 1)));
        i = i + 1;
    }
    assert(perms.subrange(0, i as int) =~= perms);
    out
}

fn skip_spaces_from(s: &Vec<char>, i: usize) -> (r: usize)
    requires
        i <= s@.len(),
    ensures
        r == skip_spaces(s@, i as int),
        i <= r <= s@.len(),
{
    let mut k = i;
    while k < s.len() && is_space_char(s[k])
        invariant
            i <= k <= s@.len(),
            skip_spaces(s@, k as int) == skip_spaces(s@, i as int),
        decreases s@.len() - k,
    {
        k = k + 1;
    }
    k
}

fn token_end_from(s: &Vec<char>, i: usize) -> (r: usize)
    requires
        i <= s@.len(),
    ensures
        r == token_end(s@, i as int),
        i <= r <= s@.len(),
{
    let mut k = i;
    while k < s.len() && !is_space_char(s[k])
        invariant
            i <= k <= s@.len(),
            token_end(s@, k as int) == token_end(s@, i as int),
        decreases s@.len() - k,
    {
        k = k + 1;
    }
    k
}

fn find_char_from(s: &Vec<char>, i: usize, c: char) -> (r: usize)
    requires
        i <= s@.len(),
    ensures
        r == find_char(s@, i as int, c),
        i <= r <= s@.len(),
{
    let mut k = i;
    while k < s.len() && s[k] != c
        invariant
            i <= k <= s@.len(),
            find_char(s@, k as int, c) == find_char(s@, i as int, c),
        decreases s@.len() - k,
    {
        k = k + 1;
    }
    k
}

fn trim_commas_from(s: &Vec<char>, j: usize) -> (r: usize)
    requires
        j <= s@.len(),
    ensures
        r == trim_commas(s@, j as int),
        r <= j,
{
    let mut k = j;
    while k > 0 && s[k - 1] == ','
        invariant
            k <= j <= s@.len(),
            trim_commas(s@, k as int) == trim_commas(s@, j as int),
        decreases k,
    {
        k = k - 1;
    }
    k
}

fn module_root_chars(rest: &Vec<char>) -> (r: Vec<char>)
    ensures
        r@ == module_root(rest@),
{
    let a = skip_spaces_from(rest, 0);
    let b = token_end_from(rest, a);
    let t = slice_chars(rest, a, b);
    let dot = find_char_from(&t, 0, '.');
    let d = slice_chars(&t, 0, dot);
    let e = trim_commas_from(&d, d.len());
    slice_chars(&d, 0, e)
}

/// The root module named at the start of `input`: its first whitespace-separated
/// token, up to the first `.`, without trailing commas.
pub fn first_module_root(input: &str) -> (r: String)
    ensures
        r@ == module_root(input@),
{
    let v = chars_of(input);
    let root = module_root_chars(&v);
    string_from_chars(&root)
}

fn line_root_chars(line: &Vec<char>) -> (r: Vec<char>)
    ensures
        r@ == line_import_root(line@),
{
    proof {
        reveal_strlit("import ");
        reveal_strlit("from ");
    }
    let a = skip_spaces_from(line, 0);
    let t = slice_chars(line, a, line.len());
    let import_kw = chars_of("import ");
    let from_kw = chars_of("from ");
    if occurs_at_chars(&t, &import_kw, 0) {
        assert(starts_with(t@, "import "@));
        let rest = slice_chars(&t, import_kw.len(), t.len());
        module_root_chars(&rest)
    } else if occurs_at_chars(&t, &from_kw, 0) {
        assert(starts_with(t@, "from "@));
        let rest = slice_chars(&t, from_kw.len(), t.len());
        module_root_chars(&rest)
    } else {
        proof {
            assert(!starts_with(t@, "import "@));
            assert(!starts_with(t@, "from "@));
        }
        Vec::new()
    }
}

pub open spec fn strings_view(v: Seq<String>) -> Seq<Seq<char>> {
    v.map_values(|s: String| s@)
}

/// The root modules that the script's `import` and `from` lines name, in order
/// of appearance; lines that name none are skipped.
pub fn extract_import_roots(source: &str) -> (r: Vec<String>)
    ensures
        strings_view(r@) == import_roots(lines(source@)),
{
    let s = chars_of(source);
    let n = s.len();
    let mut out: Vec<String> = Vec::new();
    let ghost done: Seq<Seq<char>> = seq![];
    let mut start: usize = 0;
    let mut i: usize = 0;
    while i < n
        invariant
            n == s@.len(),
            s@ == source@,
            start <= i <= n,
            lines(s@) == done + lines_from(s@, start as int),
            find_char(s@, start as int, '\n') == find_char(s@, i as int, '\n'),
            strings_view(out@) == import_roots(done),
        decreases n - i,
    {
        if s[i] == '\n' {
            let line = slice_chars(&s, start, i);
            let root = line_root_chars(&line);
            proof {
                assert(lines_from(s@, start as int) == seq![line@] + lines_from(s@, i + 1));
                assert(done.push(line@).drop_last() =~= done);
                assert(lines(s@) =~= done.push(line@) + lines_from(s@, i + 1));
                done = done.push(line@);
            }
            if root.len() > 0 {
                let rs = string_from_chars(&root);
                out.push(rs);
                assert(strings_view(out@) =~= import_roots(done));
            }
            start = i + 1;
        }
        i = i + 1;
    }
    if start < n {
        let line = slice_chars(&s, start, n);
        let root = line_root_chars(&line);
        proof {
            assert(lines_from(s@, start as int) == seq![line@]);
            assert(done.push(line@).drop_last() =~= done);
            done = done.push(line@);
        }
        if root.len() > 0 {
            let rs = string_from_chars(&root);
            out.push(rs);
            assert(strings_view(out@) =~= import_roots(done));
        }
    } else {
        assert(done + lines_from(s@, start as int) =~= done);
    }
    assert(lines(s@) == done);
    out
}

/// The findings of the static scan of a script's text: for each imported root
/// module, in order, `NetworkImport` when it gives network access, else
/// `ImportNotAllowed` when it is not part of the SDK.
pub fn scan_entrypoint_source(source: &str) -> (r: Vec<PolicyViolation>)
    ensures
        violations_view(r@) == source_violations(source@),
{
    let roots = extract_import_roots(source);
    let ghost rv = strings_view(roots@);
    let mut out: Vec<PolicyViolation> = Vec::new();
    let mut i: usize = 0;
    while i < roots.len()
        invariant
            rv == strings_view(roots@),
            rv == import_roots(lines(source@)),
            i <= roots@.len(),
            violations_view(out@) == root_violations(rv.subrange(0, i as int)),
        decreases roots@.len() - i,
    {
        let m = &roots[i];
        assert(rv.subrange(0, i + 1).drop_last() =~= rv.subrange(0, i as int));
        assert(rv.subrange(0, i + 1).last() == m@);
        if is_network_module_name(m.as_str()) {
            out.push(PolicyViolation::NetworkImport(m.clone()));
        } else if !is_sdk_module_name(m.as_str()) {
            out.push(PolicyViolation::ImportNotAllowed(m.clone()));
        }
        assert(violations_view(out@) =~= root_violations(rv.subrange(0, i + 1)));
        i = i + 1;
    }
    assert(rv.subrange(0, i as int) =~= rv);
    out
}

/// The text that reports a finding of the static scan.
pub open spec fn violation_message(v: PolicyViolationView) -> Seq<char> {
    match v {
        PolicyViolationView::BlockedPermission(p) => "permission `"@ + p + "` is blocked in V1"@,
        PolicyViolationView::NetworkImport(m) => "network module `"@ + m
            + "` import is blocked in V1"@,
        PolicyViolationView::ImportNotAllowed(m) => "import `"@ + m
            + "` is outside SDK-facing APIs"@,
    }
}

/// The text that reports an import refused while guest code runs.
pub open spec fn runtime_violation_message(v: PolicyViolationView) -> Seq<char> {
    match v {
        PolicyViolationView::BlockedPermission(p) => "vcon sandbox: permission '"@ + p
            + "' is blocked"@,
        PolicyViolationView::NetworkImport(m) => "vcon sandbox: blocked network module '"@ + m
            + "'"@,
        PolicyViolationView::ImportNotAllowed(m) => "vcon sandbox: import '"@ + m
            + "' is outside SDK-facing APIs"@,
    }
}

/// The messages of all findings, in order, separated by `"; "`.
pub open spec fn joined_messages(vs: Seq<PolicyViolationView>) -> Seq<char>
    decreases vs.len(),
{
    if vs.len() == 0 {
        seq![]
    } else if vs.len() == 1 {
        violation_message(vs[0])
    } else {
        joined_messages(vs.drop_last()) + "; "@ + violation_message(vs.last())
    }
}

impl PolicyViolation {
    pub fn message(&self) -> (r: String)
        ensures
            r@ == violation_message(self@),
    {
        match self {
            PolicyViolation::BlockedPermission(p) => "permission `".to_owned().concat(
                p.as_str(),
            ).concat("` is blocked in V1"),
            PolicyViolation::NetworkImport(m) => "network module `".to_owned().concat(
                m.as_str(),
            ).concat("` import is blocked in V1"),
            PolicyViolation::ImportNotAllowed(m) => "import `".to_owned().concat(m.as_str()).concat(
                "` is outside SDK-facing APIs",
            ),
        }
    }

    pub fn runtime_message(&self) -> (r: String)
        ensures
            r@ == runtime_violation_message(self@),
    {
        match self {
            PolicyViolation::BlockedPermission(p) => "vcon sandbox: permission '".to_owned().concat(
                p.as_str(),
            ).concat("' is blocked"),
            PolicyViolation::NetworkImport(m) => "vcon sandbox: blocked network module '".to_owned().concat(
                m.as_str(),
            ).concat("'"),
            PolicyViolation::ImportNotAllowed(m) => "vcon sandbox: import '".to_owned().concat(
                m.as_str(),
            ).concat("' is outside SDK-facing APIs"),
        }
    }
}

/// Every finding's message, in order, separated by `"; "`.
pub fn join_messages(v: &Vec<PolicyViolation>) -> (r: String)
    ensures
        r@ == joined_messages(violations_view(v@)),
{
    let ghost vv = violations_view(v@);
    let mut out = String::new();
    let mut i: usize = 0;
    while i < v.len()
        invariant
            vv == violations_view(v@),
            i <= v@.len(),
            out@ == joined_messages(vv.subrange(0, i as int)),
        decreases v@.len() - i,
    {
        let msg = v[i].message();
        assert(vv.subrange(0, i + 1).drop_last() =~= vv.subrange(0, i as int));
        assert(vv.subrange(0, i + 1).last() == v@[i as int]@);
        if i > 0 {
            out.append("; ");
        } else {
            assert(out@ =~= seq![]);
            assert(vv.subrange(0, 1)[0] == v@[0]@);
        }
        out.append(msg.as_str());
        assert(out@ =~= joined_messages(vv.subrange(0, i + 1)));
        i = i + 1;
    }
    assert(vv.subrange(0, i as int) =~= vv);
    out
}

/// The prefix of the names under which a cartridge's entry script is loaded.
pub open spec fn cartridge_unit_prefix() -> Seq<char> {
    "cartridge_entry"@
}

/// The run-time decision on one import: imports requested by any unit other than
/// the cartridge's own entry script pass; for the cartridge, the root module (the
/// name up to its first `.`) is refused when it gives network access, or when the
/// import is absolute (`level` 0) and the root is not part of the SDK.
pub open spec fn runtime_import_verdict(importer: Seq<char>, name: Seq<char>, level: u32) -> Option<
    PolicyViolationView,
> {
    if !starts_with(importer, cartridge_unit_prefix()) {
        None
    } else {
        let root = name.subrange(0, find_char(name, 0, '.'));
        if is_network_module(root) {
            Some(PolicyViolationView::NetworkImport(root))
        } else if level == 0 && !is_sdk_module(root) {
            Some(PolicyViolationView::ImportNotAllowed(root))
        } else {
            None
        }
    }
}

/// Decides one import that guest code performs while it runs; see
/// [`runtime_import_verdict`].
pub fn check_runtime_import(importer: &str, name: &str, level: u32) -> (r: Result<(), PolicyViolation>)
    ensures
        match runtime_import_verdict(importer@, name@, level) {
            None => r is Ok,
            Some(v) => r matches Err(e) && e@ == v,
        },
{
    let imp = chars_of(importer);
    let prefix = chars_of("cartridge_entry");
    if !occurs_at_chars(&imp, &prefix, 0) {
        return Ok(());
    }
    let nv = chars_of(name);
    let dot = find_char_from(&nv, 0, '.');
    let root_chars = slice_chars(&nv, 0, dot);
    let root = string_from_chars(&root_chars);
    if is_network_module_name(root.as_str()) {
        return Err(PolicyViolation::NetworkImport(root));
    }
    if level == 0 && !is_sdk_module_name(root.as_str()) {
        return Err(PolicyViolation::ImportNotAllowed(root));
    }
    Ok(())
}

/// The run-time guard refuses a network import requested by the cartridge's own
/// unit, naming the root module, whatever the import's level; an import requested
/// by any other unit (the SDK's, the runtime's) is never refused.
pub proof fn lemma_guard_scope(importer: Seq<char>, name: Seq<char>, level: u32)
    ensures
        ({
            let root = name.subrange(0, find_char(name, 0, '.'));
            starts_with(importer, cartridge_unit_prefix()) && is_network_module(root)
                ==> runtime_import_verdict(importer, name, level) == Some(
                PolicyViolationView::NetworkImport(root),
            )
        }),
        !starts_with(importer, cartridge_unit_prefix()) ==> runtime_import_verdict(
            importer,
            name,
            level,
        ) is None,
{
}

} // verus!
