//! The library's model of the directory tree under inspection.
//!
//! A [`Snapshot`] lists every entry under the scan root: directories, files
//! with their text, and files that exist but could not be read.  Paths are
//! held as component lists relative to the root (the root itself is the empty
//! list).  Rules read the snapshot; repairs are described as [`FsAction`]
//! values, which the caller applies to the real tree and which
//! [`Snapshot::apply`] applies to the model.

use vstd::prelude::*;

use crate::text::str_eq;

verus! {

broadcast use vstd::std_specs::vec::group_vec_axioms;

/// What a filesystem entry is: a directory, a readable text file, or a file
/// whose contents could not be read (the text is the error message).
pub enum FsNode {
    Dir,
    Text(String),
    Unreadable(String),
}

/// One entry of a snapshot.
pub struct FsEntry {
    pub path: Vec<String>,
    pub node: FsNode,
}

/// An in-memory image of the directory tree under a scan root.
pub struct Snapshot {
    pub entries: Vec<FsEntry>,
}

/// The mathematical model of a filesystem node.
#[verifier::ext_equal]
pub enum SNode {
    Dir,
    Text(Seq<char>),
    Unreadable(Seq<char>),
}

/// The mathematical model of one snapshot entry.
#[verifier::ext_equal]
pub struct SEntry {
    pub path: Seq<Seq<char>>,
    pub node: SNode,
}

/// The model of a path: its components as character sequences.
pub open spec fn path_view(p: Vec<String>) -> Seq<Seq<char>> {
    Seq::new(p@.len(), |i: int| p@[i]@)
}

impl View for FsNode {
    type V = SNode;

    open spec fn view(&self) -> SNode {
        match *self {
            FsNode::Dir => SNode::Dir,
            FsNode::Text(s) => SNode::Text(s@),
            FsNode::Unreadable(s) => SNode::Unreadable(s@),
        }
    }
}

impl View for FsEntry {
    type V = SEntry;

    open spec fn view(&self) -> SEntry {
        SEntry { path: path_view(self.path), node: self.node@ }
    }
}

impl View for Snapshot {
    type V = Seq<SEntry>;

    open spec fn view(&self) -> Seq<SEntry> {
        Seq::new(self.entries@.len(), |i: int| self.entries@[i]@)
    }
}

/// The node at path `p`: the node of the first entry bearing the path.
pub open spec fn spec_lookup(es: Seq<SEntry>, p: Seq<Seq<char>>) -> Option<SNode>
    decreases es.len(),
{
    if es.len() == 0 {
        None
    } else if es[0].path == p {
        Some(es[0].node)
    } else {
        spec_lookup(es.drop_first(), p)
    }
}

/// Whether some entry bears the path `p`.
pub open spec fn has_path(es: Seq<SEntry>, p: Seq<Seq<char>>) -> bool {
    exists|i: int| 0 <= i < es.len() && es[i].path == p
}

/// A lookup succeeds exactly when some entry bears the path.
pub proof fn lemma_lookup_some(es: Seq<SEntry>, p: Seq<Seq<char>>)
    ensures
        (spec_lookup(es, p) is Some) <==> has_path(es, p),
    decreases es.len(),
{
    if es.len() > 0 {
        if es[0].path == p {
        } else {
            lemma_lookup_some(es.drop_first(), p);
            if spec_lookup(es.drop_first(), p) is Some {
                let i = choose|i: int|
                    0 <= i < es.drop_first().len() && es.drop_first()[i].path == p;
                assert(es[i + 1].path == p);
            }
            if has_path(es, p) {
                let i = choose|i: int| 0 <= i < es.len() && es[i].path == p;
                assert(es.drop_first()[i - 1].path == p);
            }
        }
    }
}

/// No two entries bear the same path.
pub open spec fn paths_unique(es: Seq<SEntry>) -> bool {
    forall|i: int, j: int| 0 <= i < j < es.len() ==> es[i].path != es[j].path
}

/// Every proper prefix of an entry's path is present as a directory.
pub open spec fn ancestors_present(es: Seq<SEntry>) -> bool {
    forall|i: int, k: int|
        0 <= i < es.len() && 0 <= k < es[i].path.len() ==> spec_lookup(
            es,
            #[trigger] es[i].path.take(k),
        ) == Some(SNode::Dir)
}

/// A snapshot of a real tree: paths are unique and every ancestor of an entry
/// is present as a directory (so the root, the empty path, is present
/// whenever any entry with a nonempty path is).
pub open spec fn snapshot_wf(es: Seq<SEntry>) -> bool {
    paths_unique(es) && ancestors_present(es)
}

impl Snapshot {
    /// The node at path `p`, if any entry bears that path.
    #[verifier::loop_isolation(false)]
    pub fn lookup<'a>(&'a self, p: &Vec<String>) -> (r: Option<&'a FsNode>)
        ensures
            match r {
                Some(n) => spec_lookup(self@, path_view(*p)) == Some(n@),
                None => spec_lookup(self@, path_view(*p)) is None,
            },
    {
        let n = self.entries.len();
        let mut i: usize = 0;
        assert(self@.skip(0) =~= self@);
        while i < n
            invariant
                0 <= i <= n,
                spec_lookup(self@.skip(i as int), path_view(*p)) == spec_lookup(
                    self@,
                    path_view(*p),
                ),
            decreases n - i,
        {
            assert(self@.skip(i as int).drop_first() =~= self@.skip(i + 1));
            assert(self@.skip(i as int)[0] == self@[i as int]);
            if path_eq(&self.entries[i].path, p) {
                return Some(&self.entries[i].node);
            }
            i += 1;
        }
        assert(self@.skip(n as int) =~= Seq::<SEntry>::empty());
        None
    }

    /// Whether any entry bears the path `p`.
    pub fn exists_at(&self, p: &Vec<String>) -> (r: bool)
        ensures
            r == (spec_lookup(self@, path_view(*p)) is Some),
    {
        self.lookup(p).is_some()
    }
}

/// Equality of two paths, component by component.
#[verifier::loop_isolation(false)]
pub fn path_eq(a: &Vec<String>, b: &Vec<String>) -> (r: bool)
    ensures
        r == (path_view(*a) == path_view(*b)),
{
    let n = a.len();
    if b.len() != n {
        assert(path_view(*a).len() != path_view(*b).len());
        return false;
    }
    let mut i: usize = 0;
    while i < n
        invariant
            0 <= i <= n,
            forall|k: int| 0 <= k < i ==> path_view(*a)[k] == path_view(*b)[k],
        decreases n - i,
    {
        if !str_eq(a[i].as_str(), b[i].as_str()) {
            assert(path_view(*a)[i as int] != path_view(*b)[i as int]);
            return false;
        }
        i += 1;
    }
    assert(path_view(*a) =~= path_view(*b));
    true
}

/// A copy of a path.
#[verifier::loop_isolation(false)]
pub fn path_clone(p: &Vec<String>) -> (r: Vec<String>)
    ensures
        path_view(r) == path_view(*p),
{
    let mut r: Vec<String> = Vec::new();
    let n = p.len();
    let mut i: usize = 0;
    while i < n
        invariant
            0 <= i <= n,
            r@.len() == i,
            forall|k: int| 0 <= k < i ==> r@[k] == p@[k],
        decreases n - i,
    {
        r.push(p[i].clone());
        i += 1;
    }
    assert(path_view(r) =~= path_view(*p));
    r
}

/// The path `p` extended by one more component.
#[verifier::loop_isolation(false)]
pub fn path_child(p: &Vec<String>, name: &str) -> (r: Vec<String>)
    ensures
        path_view(r) == path_view(*p).push(name@),
{
    let mut r = path_clone(p);
    r.push(name.to_owned());
    assert(path_view(r) =~= path_view(*p).push(name@));
    r
}

/// The path `p` without its last component.
#[verifier::loop_isolation(false)]
pub fn path_parent(p: &Vec<String>) -> (r: Vec<String>)
    requires
        path_view(*p).len() > 0,
    ensures
        path_view(r) == path_view(*p).drop_last(),
{
    let mut r = path_clone(p);
    let _ = r.pop();
    assert(path_view(r) =~= path_view(*p).drop_last());
    r
}

/// Whether a path has a component equal to `name` (used to exclude
/// dependency-cache subtrees).
#[verifier::loop_isolation(false)]
pub fn path_has_component(p: &Vec<String>, name: &str) -> (r: bool)
    ensures
        r == path_view(*p).contains(name@),
{
    let n = p.len();
    let mut i: usize = 0;
    while i < n
        invariant
            0 <= i <= n,
            forall|k: int| 0 <= k < i ==> path_view(*p)[k] != name@,
        decreases n - i,
    {
        if str_eq(p[i].as_str(), name) {
            assert(path_view(*p)[i as int] == name@);
            return true;
        }
        i += 1;
    }
    assert(!path_view(*p).contains(name@));
    false
}

/// Whether an entry is a version-control marker directory (a directory named
/// ".git") outside every dependency-cache ("node_modules") subtree; markers
/// inside caches are never candidates, so no rule reports or repairs there.
pub open spec fn is_git_marker(e: SEntry) -> bool {
    &&& e.node is Dir
    &&& e.path.len() > 0
    &&& e.path.last() == ".git"@
    &&& !e.path.contains("node_modules"@)
}

/// The repository roots of a snapshot: the parents of its version-control
/// marker directories, in snapshot order, dependency-cache subtrees
/// excluded.
pub open spec fn spec_git_repos(es: Seq<SEntry>) -> Seq<Seq<Seq<char>>>
    decreases es.len(),
{
    if es.len() == 0 {
        Seq::empty()
    } else {
        let rest = spec_git_repos(es.drop_last());
        if is_git_marker(es.last()) {
            rest.push(es.last().path.drop_last())
        } else {
            rest
        }
    }
}

/// Whether an entry is a manifest document ("package.json" file) outside
/// every dependency-cache ("node_modules") subtree.
pub open spec fn is_manifest_file(e: SEntry) -> bool {
    &&& !(e.node is Dir)
    &&& e.path.len() > 0
    &&& e.path.last() == "package.json"@
    &&& !e.path.contains("node_modules"@)
}

/// The manifest documents of a snapshot, in snapshot order, dependency-cache
/// subtrees excluded.
pub open spec fn spec_manifest_files(es: Seq<SEntry>) -> Seq<Seq<Seq<char>>>
    decreases es.len(),
{
    if es.len() == 0 {
        Seq::empty()
    } else {
        let rest = spec_manifest_files(es.drop_last());
        if is_manifest_file(es.last()) {
            rest.push(es.last().path)
        } else {
            rest
        }
    }
}

/// Every manifest path has at least one component.
pub proof fn lemma_manifest_nonempty(es: Seq<SEntry>)
    ensures
        forall|i: int|
            0 <= i < spec_manifest_files(es).len() ==> #[trigger] spec_manifest_files(
                es,
            )[i].len() > 0,
    decreases es.len(),
{
    if es.len() > 0 {
        lemma_manifest_nonempty(es.drop_last());
        let rest = spec_manifest_files(es.drop_last());
        if is_manifest_file(es.last()) {
            assert forall|i: int|
                0 <= i < spec_manifest_files(es).len() implies #[trigger] spec_manifest_files(
                es,
            )[i].len() > 0 by {
                if i < rest.len() {
                    assert(spec_manifest_files(es)[i] == rest[i]);
                } else {
                    assert(spec_manifest_files(es)[i] == es.last().path);
                }
            }
        }
    }
}

/// Whether some marker entry of the snapshot yields the repository root `p`.
pub open spec fn has_git_origin(es: Seq<SEntry>, p: Seq<Seq<char>>) -> bool {
    exists|i: int|
        0 <= i < es.len() && is_git_marker(#[trigger] es[i]) && es[i].path.drop_last() == p
}

/// What the repository list holds: every collected root is the parent of
/// some marker entry, and every marker entry's parent is collected.
pub proof fn lemma_git_repos_characterization(es: Seq<SEntry>)
    ensures
        forall|k: int|
            0 <= k < spec_git_repos(es).len() ==> has_git_origin(
                es,
                #[trigger] spec_git_repos(es)[k],
            ),
        forall|i: int|
            0 <= i < es.len() && is_git_marker(#[trigger] es[i]) ==> spec_git_repos(es).contains(
                es[i].path.drop_last(),
            ),
    decreases es.len(),
{
    if es.len() > 0 {
        lemma_git_repos_characterization(es.drop_last());
    }
    assert forall|k: int|
        0 <= k < spec_git_repos(es).len() implies has_git_origin(
        es,
        #[trigger] spec_git_repos(es)[k],
    ) by {
        if es.len() > 0 {
            if k < spec_git_repos(es.drop_last()).len() {
                assert(spec_git_repos(es)[k] == spec_git_repos(es.drop_last())[k]);
                assert(has_git_origin(es.drop_last(), spec_git_repos(es.drop_last())[k]));
                let i = choose|i: int|
                    0 <= i < es.drop_last().len() && is_git_marker(
                        #[trigger] es.drop_last()[i],
                    ) && es.drop_last()[i].path.drop_last() == spec_git_repos(es.drop_last())[k];
                assert(es[i] == es.drop_last()[i]);
                assert(is_git_marker(es[i]) && es[i].path.drop_last() == spec_git_repos(es)[k]);
            } else {
                let i = es.len() - 1;
                assert(is_git_marker(es[i]) && es[i].path.drop_last() == spec_git_repos(es)[k]);
            }
        }
    }
    if es.len() > 0 {
        assert forall|i: int|
            0 <= i < es.len() && is_git_marker(#[trigger] es[i]) implies spec_git_repos(
            es,
        ).contains(es[i].path.drop_last()) by {
            if i < es.len() - 1 {
                assert(es.drop_last()[i] == es[i]);
                assert(spec_git_repos(es.drop_last()).contains(es[i].path.drop_last()));
                let k = choose|k: int|
                    0 <= k < spec_git_repos(es.drop_last()).len() && spec_git_repos(
                        es.drop_last(),
                    )[k] == es[i].path.drop_last();
                assert(spec_git_repos(es)[k] == spec_git_repos(es.drop_last())[k]);
            } else {
                assert(spec_git_repos(es)[spec_git_repos(es).len() - 1]
                    == es[i].path.drop_last());
            }
        }
    }
}

/// Whether some manifest entry of the snapshot bears the path `p`.
pub open spec fn has_manifest_origin(es: Seq<SEntry>, p: Seq<Seq<char>>) -> bool {
    exists|i: int| 0 <= i < es.len() && is_manifest_file(#[trigger] es[i]) && es[i].path == p
}

/// What the manifest list holds: every collected path bears a manifest
/// entry, and every manifest entry's path is collected.
pub proof fn lemma_manifest_files_characterization(es: Seq<SEntry>)
    ensures
        forall|k: int|
            0 <= k < spec_manifest_files(es).len() ==> has_manifest_origin(
                es,
                #[trigger] spec_manifest_files(es)[k],
            ),
        forall|i: int|
            0 <= i < es.len() && is_manifest_file(#[trigger] es[i]) ==> spec_manifest_files(
                es,
            ).contains(es[i].path),
    decreases es.len(),
{
    if es.len() > 0 {
        lemma_manifest_files_characterization(es.drop_last());
    }
    assert forall|k: int|
        0 <= k < spec_manifest_files(es).len() implies has_manifest_origin(
        es,
        #[trigger] spec_manifest_files(es)[k],
    ) by {
        if es.len() > 0 {
            if k < spec_manifest_files(es.drop_last()).len() {
                assert(spec_manifest_files(es)[k] == spec_manifest_files(es.drop_last())[k]);
                assert(has_manifest_origin(es.drop_last(), spec_manifest_files(es.drop_last())[k]));
                let i = choose|i: int|
                    0 <= i < es.drop_last().len() && is_manifest_file(
                        #[trigger] es.drop_last()[i],
                    ) && es.drop_last()[i].path == spec_manifest_files(es.drop_last())[k];
                assert(es[i] == es.drop_last()[i]);
                assert(is_manifest_file(es[i]) && es[i].path == spec_manifest_files(es)[k]);
            } else {
                let i = es.len() - 1;
                assert(is_manifest_file(es[i]) && es[i].path == spec_manifest_files(es)[k]);
            }
        }
    }
    if es.len() > 0 {
        assert forall|i: int|
            0 <= i < es.len() && is_manifest_file(#[trigger] es[i]) implies spec_manifest_files(
            es,
        ).contains(es[i].path) by {
            if i < es.len() - 1 {
                assert(es.drop_last()[i] == es[i]);
                assert(spec_manifest_files(es.drop_last()).contains(es[i].path));
                let k = choose|k: int|
                    0 <= k < spec_manifest_files(es.drop_last()).len() && spec_manifest_files(
                        es.drop_last(),
                    )[k] == es[i].path;
                assert(spec_manifest_files(es)[k] == spec_manifest_files(es.drop_last())[k]);
            } else {
                assert(spec_manifest_files(es)[spec_manifest_files(es).len() - 1]
                    == es[i].path);
            }
        }
    }
}

/// Replacing the node at a path that is no marker path leaves the repository
/// list unchanged.
pub proof fn lemma_git_repos_set_node(es: Seq<SEntry>, p: Seq<Seq<char>>, n: SNode)
    requires
        p.len() == 0 || p.last() != ".git"@,
    ensures
        spec_git_repos(set_node(es, p, n)) == spec_git_repos(es),
    decreases es.len(),
{
    let es2 = set_node(es, p, n);
    assert(es2.len() == es.len());
    if es.len() > 0 {
        assert(es2.drop_last() =~= set_node(es.drop_last(), p, n));
        assert(es2.last() == (if es.last().path == p {
            SEntry { path: es.last().path, node: n }
        } else {
            es.last()
        }));
        lemma_git_repos_set_node(es.drop_last(), p, n);
        assert(!is_git_marker(es2.last()) == !is_git_marker(es.last()));
        assert(es2.last().path == es.last().path);
    }
}

/// Adding an entry that is no marker leaves the repository list unchanged.
pub proof fn lemma_git_repos_push_nonmarker(es: Seq<SEntry>, e: SEntry)
    requires
        !is_git_marker(e),
    ensures
        spec_git_repos(es.push(e)) == spec_git_repos(es),
{
    assert(es.push(e).drop_last() =~= es);
    assert(es.push(e).last() == e);
}

/// Ensuring a directory whose name is not the marker name leaves the
/// repository list unchanged.
pub proof fn lemma_git_repos_ensure_dir(es: Seq<SEntry>, p: Seq<Seq<char>>)
    requires
        p.len() > 0 && p.last() != ".git"@,
    ensures
        spec_git_repos(spec_ensure_dir(es, p)) == spec_git_repos(es),
{
    if !has_path(es, p) {
        lemma_git_repos_push_nonmarker(es, SEntry { path: p, node: SNode::Dir });
    }
}

/// Ensuring ancestors that are either already present or not named like a
/// marker leaves the repository list unchanged.
pub proof fn lemma_git_repos_ensure_ancestors(es: Seq<SEntry>, p: Seq<Seq<char>>)
    requires
        forall|k: int|
            1 <= k < p.len() ==> has_path(es, #[trigger] p.take(k)) || p.take(k).last()
                != ".git"@,
    ensures
        spec_git_repos(spec_ensure_ancestors(es, p)) == spec_git_repos(es),
    decreases p.len(),
{
    if p.len() > 1 {
        let parent = p.drop_last();
        assert(parent =~= p.take(p.len() - 1));
        assert forall|k: int|
            1 <= k < parent.len() implies has_path(es, #[trigger] parent.take(k))
            || parent.take(k).last() != ".git"@ by {
            assert(parent.take(k) =~= p.take(k));
        }
        lemma_git_repos_ensure_ancestors(es, parent);
        let es1 = spec_ensure_ancestors(es, parent);
        if has_path(es1, parent) {
        } else {
            // The parent was not already present, and ensuring ancestors only
            // adds entries, so it was absent at the start too: the premise
            // then says its name is not the marker name.
            lemma_ensure_ancestors_monotone(es, parent, parent);
            assert(!has_path(es, parent));
            assert(parent == p.take(p.len() - 1));
            lemma_git_repos_push_nonmarker(
                es1,
                SEntry { path: parent, node: SNode::Dir },
            );
        }
    }
}

/// Ensuring ancestors never removes an entry's path.
pub proof fn lemma_ensure_ancestors_monotone(es: Seq<SEntry>, p: Seq<Seq<char>>, q: Seq<Seq<char>>)
    requires
        has_path(spec_ensure_ancestors(es, p), q) == false,
    ensures
        !has_path(es, q),
    decreases p.len(),
{
    if p.len() > 1 {
        let parent = p.drop_last();
        let es1 = spec_ensure_ancestors(es, parent);
        if has_path(es1, parent) {
            lemma_ensure_ancestors_monotone(es, parent, q);
        } else {
            let es2 = es1.push(SEntry { path: parent, node: SNode::Dir });
            if has_path(es1, q) {
                let i = choose|i: int| 0 <= i < es1.len() && es1[i].path == q;
                assert(es2[i].path == q);
            }
            lemma_ensure_ancestors_monotone(es, parent, q);
        }
    }
}

/// Writing a file whose name is not the marker name, and whose missing
/// ancestors are not named like markers, leaves the repository list
/// unchanged.
pub proof fn lemma_git_repos_write(es: Seq<SEntry>, p: Seq<Seq<char>>, c: Seq<char>)
    requires
        p.len() > 0,
        p.last() != ".git"@,
        forall|k: int|
            1 <= k < p.len() ==> has_path(es, #[trigger] p.take(k)) || p.take(k).last()
                != ".git"@,
    ensures
        spec_git_repos(spec_write(es, p, c)) == spec_git_repos(es),
{
    lemma_git_repos_ensure_ancestors(es, p);
    let es1 = spec_ensure_ancestors(es, p);
    if has_path(es1, p) {
        lemma_git_repos_set_node(es1, p, SNode::Text(c));
    } else {
        assert(!is_git_marker(SEntry { path: p, node: SNode::Text(c) }));
        lemma_git_repos_push_nonmarker(es1, SEntry { path: p, node: SNode::Text(c) });
    }
}

/// No repository root passes through a dependency-cache directory.
pub proof fn lemma_git_repos_clean(es: Seq<SEntry>)
    ensures
        forall|i: int|
            0 <= i < spec_git_repos(es).len() ==> !#[trigger] spec_git_repos(es)[i].contains(
                "node_modules"@,
            ),
    decreases es.len(),
{
    if es.len() > 0 {
        lemma_git_repos_clean(es.drop_last());
        let rest = spec_git_repos(es.drop_last());
        if is_git_marker(es.last()) {
            let parent = es.last().path.drop_last();
            assert(!parent.contains("node_modules"@)) by {
                if parent.contains("node_modules"@) {
                    let t = choose|t: int|
                        0 <= t < parent.len() && parent[t] == "node_modules"@;
                    assert(es.last().path[t] == "node_modules"@);
                }
            }
            assert forall|i: int|
                0 <= i < spec_git_repos(es).len() implies !#[trigger] spec_git_repos(
                es,
            )[i].contains("node_modules"@) by {
                if i < rest.len() {
                    assert(spec_git_repos(es)[i] == rest[i]);
                } else {
                    assert(spec_git_repos(es)[i] == parent);
                }
            }
        }
    }
}

/// No manifest path passes through a dependency-cache directory.
pub proof fn lemma_manifest_paths_clean(es: Seq<SEntry>)
    ensures
        forall|i: int|
            0 <= i < spec_manifest_files(es).len() ==> !#[trigger] spec_manifest_files(
                es,
            )[i].contains("node_modules"@),
    decreases es.len(),
{
    if es.len() > 0 {
        lemma_manifest_paths_clean(es.drop_last());
        let rest = spec_manifest_files(es.drop_last());
        if is_manifest_file(es.last()) {
            assert forall|i: int|
                0 <= i < spec_manifest_files(es).len() implies !#[trigger] spec_manifest_files(
                es,
            )[i].contains("node_modules"@) by {
                if i < rest.len() {
                    assert(spec_manifest_files(es)[i] == rest[i]);
                } else {
                    assert(spec_manifest_files(es)[i] == es.last().path);
                }
            }
        }
    }
}

/// The model of a list of paths.
pub open spec fn paths_view(ps: Vec<Vec<String>>) -> Seq<Seq<Seq<char>>> {
    Seq::new(ps@.len(), |i: int| path_view(ps@[i]))
}

impl Snapshot {
    /// The repository roots of the snapshot: the parent directory of every
    /// directory named ".git" outside dependency-cache ("node_modules")
    /// subtrees, in snapshot order.
    #[verifier::loop_isolation(false)]
    pub fn find_git_repos(&self) -> (r: Vec<Vec<String>>)
        ensures
            paths_view(r) == spec_git_repos(self@),
    {
        let mut r: Vec<Vec<String>> = Vec::new();
        let n = self.entries.len();
        let mut i: usize = 0;
        assert(self@.take(0) =~= Seq::<SEntry>::empty());
        while i < n
            invariant
                0 <= i <= n,
                paths_view(r) == spec_git_repos(self@.take(i as int)),
            decreases n - i,
        {
            assert(self@.take(i + 1).drop_last() =~= self@.take(i as int));
            assert(self@.take(i + 1).last() == self@[i as int]);
            let e = &self.entries[i];
            let is_marker = match e.node {
                FsNode::Dir => e.path.len() > 0 && str_eq(
                    e.path[e.path.len() - 1].as_str(),
                    ".git",
                ) && !path_has_component(&e.path, "node_modules"),
                _ => false,
            };
            if is_marker {
                assert(path_view(e.path).last() == path_view(e.path)[path_view(e.path).len()
                    - 1]);
                let parent = path_parent(&e.path);
                r.push(parent);
                assert(paths_view(r) =~= spec_git_repos(self@.take(i + 1)));
            } else {
                assert(!is_git_marker(self@[i as int]));
            }
            i += 1;
        }
        assert(self@.take(n as int) =~= self@);
        r
    }

    /// The manifest documents of the snapshot: every file named
    /// "package.json" outside dependency-cache ("node_modules") subtrees, in
    /// snapshot order.
    #[verifier::loop_isolation(false)]
    pub fn find_manifest_files(&self) -> (r: Vec<Vec<String>>)
        ensures
            paths_view(r) == spec_manifest_files(self@),
    {
        let mut r: Vec<Vec<String>> = Vec::new();
        let n = self.entries.len();
        let mut i: usize = 0;
        assert(self@.take(0) =~= Seq::<SEntry>::empty());
        while i < n
            invariant
                0 <= i <= n,
                paths_view(r) == spec_manifest_files(self@.take(i as int)),
            decreases n - i,
        {
            assert(self@.take(i + 1).drop_last() =~= self@.take(i as int));
            assert(self@.take(i + 1).last() == self@[i as int]);
            let e = &self.entries[i];
            let is_file = match e.node {
                FsNode::Dir => false,
                _ => true,
            };
            let is_candidate = is_file && e.path.len() > 0 && str_eq(
                e.path[e.path.len() - 1].as_str(),
                "package.json",
            ) && !path_has_component(&e.path, "node_modules");
            if is_candidate {
                assert(path_view(e.path).last() == path_view(e.path)[path_view(e.path).len()
                    - 1]);
                assert(is_manifest_file(self@[i as int]));
                let c = path_clone(&e.path);
                r.push(c);
                assert(paths_view(r) =~= spec_manifest_files(self@.take(i + 1)));
            } else {
                assert(!is_manifest_file(self@[i as int]));
            }
            i += 1;
        }
        assert(self@.take(n as int) =~= self@);
        r
    }
}

/// A repair step: one edit of the tree under the scan root.
#[derive(Debug)]
pub enum FsAction {
    /// Write `content` to the file at `path`, creating it and any missing
    /// parent directories.
    WriteFile { path: Vec<String>, content: String },
    /// Remove the file at `path`.
    DeleteFile { path: Vec<String> },
    /// Mark the file at `path` executable, where the platform supports it.
    SetExecutable { path: Vec<String> },
}

/// The mathematical model of a repair step.
#[verifier::ext_equal]
pub enum Act {
    WriteFile { path: Seq<Seq<char>>, content: Seq<char> },
    DeleteFile { path: Seq<Seq<char>> },
    SetExecutable { path: Seq<Seq<char>> },
}

impl View for FsAction {
    type V = Act;

    open spec fn view(&self) -> Act {
        match self {
            FsAction::WriteFile { path, content } => Act::WriteFile {
                path: path_view(*path),
                content: content@,
            },
            FsAction::DeleteFile { path } => Act::DeleteFile { path: path_view(*path) },
            FsAction::SetExecutable { path } => Act::SetExecutable { path: path_view(*path) },
        }
    }
}

/// The model of a list of repair steps.
pub open spec fn acts_view(v: Vec<FsAction>) -> Seq<Act> {
    Seq::new(v@.len(), |i: int| v@[i]@)
}

/// A request to run an external command in a directory under the scan root.
#[derive(Debug)]
pub struct CommandRequest {
    pub program: String,
    pub args: Vec<String>,
    pub dir: Vec<String>,
}

/// The mathematical model of a command request.
#[verifier::ext_equal]
pub struct Cmd {
    pub program: Seq<char>,
    pub args: Seq<Seq<char>>,
    pub dir: Seq<Seq<char>>,
}

impl View for CommandRequest {
    type V = Cmd;

    open spec fn view(&self) -> Cmd {
        Cmd { program: self.program@, args: path_view(self.args), dir: path_view(self.dir) }
    }
}

/// The model of a list of command requests.
pub open spec fn cmds_view(v: Vec<CommandRequest>) -> Seq<Cmd> {
    Seq::new(v@.len(), |i: int| v@[i]@)
}

/// Every entry at path `p` gets node `n`; the rest stay as they are.
pub open spec fn set_node(es: Seq<SEntry>, p: Seq<Seq<char>>, n: SNode) -> Seq<SEntry> {
    es.map_values(
        |e: SEntry|
            if e.path == p {
                SEntry { path: e.path, node: n }
            } else {
                e
            },
    )
}

/// The snapshot with a directory at `p`, added at the end if absent.
pub open spec fn spec_ensure_dir(es: Seq<SEntry>, p: Seq<Seq<char>>) -> Seq<SEntry> {
    if has_path(es, p) {
        es
    } else {
        es.push(SEntry { path: p, node: SNode::Dir })
    }
}

/// The snapshot with every proper nonempty prefix of `p` present as a
/// directory, shortest first.
pub open spec fn spec_ensure_ancestors(es: Seq<SEntry>, p: Seq<Seq<char>>) -> Seq<SEntry>
    decreases p.len(),
{
    if p.len() <= 1 {
        es
    } else {
        spec_ensure_dir(spec_ensure_ancestors(es, p.drop_last()), p.drop_last())
    }
}

/// The snapshot after writing `c` to the file at `p`: missing parent
/// directories are created, and the file is replaced or added at the end.
pub open spec fn spec_write(es: Seq<SEntry>, p: Seq<Seq<char>>, c: Seq<char>) -> Seq<SEntry> {
    let es1 = spec_ensure_ancestors(es, p);
    if has_path(es1, p) {
        set_node(es1, p, SNode::Text(c))
    } else {
        es1.push(SEntry { path: p, node: SNode::Text(c) })
    }
}

/// The snapshot after removing the entry at `p`.
pub open spec fn spec_delete(es: Seq<SEntry>, p: Seq<Seq<char>>) -> Seq<SEntry> {
    es.filter(|e: SEntry| e.path != p)
}

/// Removing an entry commutes with adding one at the end.
pub proof fn lemma_delete_push(es: Seq<SEntry>, x: SEntry, p: Seq<Seq<char>>)
    ensures
        spec_delete(es.push(x), p) == if x.path != p {
            spec_delete(es, p).push(x)
        } else {
            spec_delete(es, p)
        },
{
    reveal(Seq::filter);
    assert(es.push(x).drop_last() =~= es);
    assert(es.push(x).last() == x);
}

/// The snapshot after one repair step.  Marking a file executable does not
/// change what the snapshot records.
pub open spec fn spec_apply_act(es: Seq<SEntry>, a: Act) -> Seq<SEntry> {
    match a {
        Act::WriteFile { path, content } => spec_write(es, path, content),
        Act::DeleteFile { path } => spec_delete(es, path),
        Act::SetExecutable { path } => es,
    }
}

/// The snapshot after a list of repair steps, applied in order.
pub open spec fn spec_apply(es: Seq<SEntry>, acts: Seq<Act>) -> Seq<SEntry>
    decreases acts.len(),
{
    if acts.len() == 0 {
        es
    } else {
        spec_apply_act(spec_apply(es, acts.drop_last()), acts.last())
    }
}

/// Looking up after replacing the node at `p`: the lookup at `p` sees the
/// new node when any entry bears the path; every other lookup is unchanged.
pub proof fn lemma_lookup_set_node(es: Seq<SEntry>, p: Seq<Seq<char>>, n: SNode, q: Seq<Seq<char>>)
    ensures
        spec_lookup(set_node(es, p, n), q) == (if q == p && spec_lookup(es, p) is Some {
            Some(n)
        } else {
            spec_lookup(es, q)
        }),
    decreases es.len(),
{
    let es2 = set_node(es, p, n);
    assert(es2.len() == es.len());
    if es.len() > 0 {
        assert(es2[0] == (if es[0].path == p {
            SEntry { path: es[0].path, node: n }
        } else {
            es[0]
        }));
        assert(es2.drop_first() =~= set_node(es.drop_first(), p, n));
        lemma_lookup_set_node(es.drop_first(), p, n, q);
    }
}

/// Looking up after adding an entry at the end: the lookup of the new
/// entry's path finds it when no earlier entry bears the path; every other
/// lookup is unchanged.
pub proof fn lemma_lookup_push(es: Seq<SEntry>, e: SEntry, q: Seq<Seq<char>>)
    ensures
        spec_lookup(es.push(e), q) == (if spec_lookup(es, q) is Some {
            spec_lookup(es, q)
        } else if e.path == q {
            Some(e.node)
        } else {
            None
        }),
    decreases es.len(),
{
    if es.len() == 0 {
        assert(es.push(e)[0] == e);
        assert(es.push(e).drop_first() =~= Seq::<SEntry>::empty());
    } else {
        assert(es.push(e)[0] == es[0]);
        assert(es.push(e).drop_first() =~= es.drop_first().push(e));
        lemma_lookup_push(es.drop_first(), e, q);
    }
}

/// Looking up after ensuring a directory at `p`.
pub proof fn lemma_lookup_ensure_dir(es: Seq<SEntry>, p: Seq<Seq<char>>, q: Seq<Seq<char>>)
    ensures
        spec_lookup(spec_ensure_dir(es, p), q) == (if spec_lookup(es, q) is Some {
            spec_lookup(es, q)
        } else if q == p {
            Some(SNode::Dir)
        } else {
            None
        }),
{
    lemma_lookup_some(es, p);
    if !has_path(es, p) {
        lemma_lookup_push(es, SEntry { path: p, node: SNode::Dir }, q);
    }
}

/// Whether `q` is a proper nonempty prefix of `p`.
pub open spec fn is_strict_prefix(q: Seq<Seq<char>>, p: Seq<Seq<char>>) -> bool {
    exists|k: int| 1 <= k < p.len() && q == p.take(k)
}

/// Looking up after ensuring the ancestors of `p`: missing ancestors become
/// directories; everything else is unchanged.
pub proof fn lemma_lookup_ensure_ancestors(es: Seq<SEntry>, p: Seq<Seq<char>>, q: Seq<Seq<char>>)
    ensures
        spec_lookup(spec_ensure_ancestors(es, p), q) == (if spec_lookup(es, q) is Some {
            spec_lookup(es, q)
        } else if is_strict_prefix(q, p) {
            Some(SNode::Dir)
        } else {
            None
        }),
    decreases p.len(),
{
    if p.len() <= 1 {
        if is_strict_prefix(q, p) {
            let k = choose|k: int| 1 <= k < p.len() && q == p.take(k);
            assert(false);
        }
    } else {
        let parent = p.drop_last();
        lemma_lookup_ensure_ancestors(es, parent, q);
        lemma_lookup_ensure_dir(spec_ensure_ancestors(es, parent), parent, q);
        assert(parent =~= p.take(p.len() - 1));
        if is_strict_prefix(q, p) && q != parent {
            let k = choose|k: int| 1 <= k < p.len() && q == p.take(k);
            assert(parent.take(k) =~= p.take(k));
            assert(is_strict_prefix(q, parent));
        }
        if is_strict_prefix(q, parent) {
            let k = choose|k: int| 1 <= k < parent.len() && q == parent.take(k);
            assert(p.take(k) =~= parent.take(k));
            assert(is_strict_prefix(q, p));
        }
        if q == parent {
            assert(q == p.take(p.len() - 1));
            assert(is_strict_prefix(q, p));
        }
    }
}

/// Looking up after writing `c` to the file at `p`: the lookup at `p` sees
/// the text; missing ancestors become directories; everything else is
/// unchanged.
pub proof fn lemma_lookup_write(es: Seq<SEntry>, p: Seq<Seq<char>>, c: Seq<char>, q: Seq<Seq<char>>)
    ensures
        spec_lookup(spec_write(es, p, c), q) == (if q == p {
            Some(SNode::Text(c))
        } else if spec_lookup(es, q) is Some {
            spec_lookup(es, q)
        } else if is_strict_prefix(q, p) {
            Some(SNode::Dir)
        } else {
            None
        }),
{
    let es1 = spec_ensure_ancestors(es, p);
    lemma_lookup_ensure_ancestors(es, p, q);
    lemma_lookup_ensure_ancestors(es, p, p);
    lemma_lookup_some(es1, p);
    if is_strict_prefix(p, p) {
        let k = choose|k: int| 1 <= k < p.len() && p == p.take(k);
        assert(p.take(k).len() == k);
        assert(false);
    }
    if has_path(es1, p) {
        lemma_lookup_set_node(es1, p, SNode::Text(c), q);
    } else {
        lemma_lookup_push(es1, SEntry { path: p, node: SNode::Text(c) }, q);
    }
}

/// Looking up after removing the entry at `p`: the lookup at `p` finds
/// nothing; every other lookup is unchanged.
pub proof fn lemma_lookup_delete(es: Seq<SEntry>, p: Seq<Seq<char>>, q: Seq<Seq<char>>)
    requires
        q != p,
    ensures
        spec_lookup(spec_delete(es, p), q) == spec_lookup(es, q),
        spec_lookup(spec_delete(es, p), p) is None,
    decreases es.len(),
{
    reveal(Seq::filter);
    if es.len() > 0 {
        assert(es.drop_last().push(es.last()) =~= es);
        lemma_delete_push(es.drop_last(), es.last(), p);
        lemma_lookup_delete(es.drop_last(), p, q);
        let kept = spec_delete(es.drop_last(), p);
        if es.last().path != p {
            lemma_lookup_push(kept, es.last(), q);
            lemma_lookup_push(kept, es.last(), p);
        }
        lemma_lookup_push(es.drop_last(), es.last(), q);
    }
}

/// Repair steps apply one list after the other.
pub proof fn lemma_apply_concat(es: Seq<SEntry>, a: Seq<Act>, b: Seq<Act>)
    ensures
        spec_apply(es, a + b) == spec_apply(spec_apply(es, a), b),
    decreases b.len(),
{
    if b.len() == 0 {
        assert(a + b =~= a);
    } else {
        assert((a + b).drop_last() =~= a + b.drop_last());
        assert((a + b).last() == b.last());
        lemma_apply_concat(es, a, b.drop_last());
    }
}

impl FsNode {
    /// A copy of the node.
    pub fn dup(&self) -> (r: FsNode)
        ensures
            r@ == self@,
    {
        match self {
            FsNode::Dir => FsNode::Dir,
            FsNode::Text(s) => FsNode::Text(s.clone()),
            FsNode::Unreadable(s) => FsNode::Unreadable(s.clone()),
        }
    }
}

impl FsEntry {
    /// A copy of the entry.
    pub fn dup(&self) -> (r: FsEntry)
        ensures
            r@ == self@,
    {
        let r = FsEntry { path: path_clone(&self.path), node: self.node.dup() };
        assert(r@ == self@);
        r
    }
}

/// The first `k` components of a path.
#[verifier::loop_isolation(false)]
pub fn path_take(p: &Vec<String>, k: usize) -> (r: Vec<String>)
    requires
        k <= p@.len(),
    ensures
        path_view(r) == path_view(*p).take(k as int),
{
    let mut r: Vec<String> = Vec::new();
    let mut i: usize = 0;
    while i < k
        invariant
            0 <= i <= k,
            r@.len() == i,
            forall|t: int| 0 <= t < i ==> r@[t] == p@[t],
        decreases k - i,
    {
        r.push(p[i].clone());
        i += 1;
    }
    assert(path_view(r) =~= path_view(*p).take(k as int));
    r
}

impl Snapshot {
    /// Adds a directory entry at `p` unless one already bears the path.
    #[verifier::loop_isolation(false)]
    fn ensure_dir(&mut self, p: &Vec<String>)
        ensures
            final(self)@ == spec_ensure_dir(old(self)@, path_view(*p)),
    {
        proof {
            lemma_lookup_some(self@, path_view(*p));
        }
        if !self.exists_at(p) {
            self.entries.push(FsEntry { path: path_clone(p), node: FsNode::Dir });
            assert(self@ =~= old(self)@.push(SEntry { path: path_view(*p), node: SNode::Dir }));
        }
    }

    /// Writes `content` to the file at `p`, creating missing parent
    /// directories, and replacing the node of every entry bearing the path.
    #[verifier::loop_isolation(false)]
    fn apply_write(&mut self, p: &Vec<String>, content: &String)
        ensures
            final(self)@ == spec_write(old(self)@, path_view(*p), content@),
    {
        let ghost es0 = self@;
        let ghost pv = path_view(*p);
        let len = p.len();
        // Create the missing ancestors, shortest first.
        if len >= 1 {
            let mut k: usize = 1;
            assert(self@ == spec_ensure_ancestors(es0, pv.take(1)));
            while k < len
                invariant
                    1 <= k <= len,
                    self@ == spec_ensure_ancestors(es0, pv.take(k as int)),
                decreases len - k,
            {
                let prefix = path_take(p, k);
                self.ensure_dir(&prefix);
                assert(pv.take(k + 1).drop_last() =~= pv.take(k as int));
                k += 1;
            }
            assert(pv.take(len as int) =~= pv);
        }
        assert(self@ == spec_ensure_ancestors(es0, pv));
        let ghost es1 = self@;
        proof {
            lemma_lookup_some(es1, pv);
        }
        if self.exists_at(p) {
            let n = self.entries.len();
            let mut i: usize = 0;
            while i < n
                invariant
                    0 <= i <= n,
                    n == self.entries@.len(),
                    self@.len() == es1.len(),
                    n == es1.len(),
                    forall|t: int|
                        0 <= t < i ==> self@[t] == (if es1[t].path == pv {
                            SEntry { path: es1[t].path, node: SNode::Text(content@) }
                        } else {
                            es1[t]
                        }),
                    forall|t: int| i <= t < n ==> self@[t] == es1[t],
                decreases n - i,
            {
                let ghost pre = self@;
                if path_eq(&self.entries[i].path, p) {
                    let e = FsEntry { path: path_clone(p), node: FsNode::Text(content.clone()) };
                    let ghost ev = e@;
                    assert(ev == (SEntry { path: es1[i as int].path, node: SNode::Text(content@) }));
                    self.entries.set(i, e);
                    assert(self@ =~= pre.update(i as int, ev));
                } else {
                    assert(pre[i as int] == es1[i as int] && es1[i as int].path != pv);
                }
                i += 1;
            }
            assert(self@ =~= set_node(es1, pv, SNode::Text(content@)));
        } else {
            self.entries.push(FsEntry { path: path_clone(p), node: FsNode::Text(content.clone()) });
            assert(self@ =~= es1.push(SEntry { path: pv, node: SNode::Text(content@) }));
        }
    }

    /// Removes every entry bearing the path `p`.
    #[verifier::loop_isolation(false)]
    fn apply_delete(&mut self, p: &Vec<String>)
        ensures
            final(self)@ == spec_delete(old(self)@, path_view(*p)),
    {
        let ghost es0 = self@;
        let ghost pv = path_view(*p);
        let mut kept: Vec<FsEntry> = Vec::new();
        let n = self.entries.len();
        let mut i: usize = 0;
        assert(spec_delete(es0.take(0), pv) =~= Seq::<SEntry>::empty()) by {
            assert(es0.take(0) =~= Seq::<SEntry>::empty());
            assert(Seq::<SEntry>::empty().filter(|e: SEntry| e.path != pv) =~= Seq::<
                SEntry,
            >::empty());
        }
        while i < n
            invariant
                0 <= i <= n,
                n == self.entries@.len(),
                self@ == es0,
                Seq::new(kept@.len(), |t: int| kept@[t]@) == spec_delete(es0.take(i as int), pv),
            decreases n - i,
        {
            proof {
                assert(es0.take(i + 1) =~= es0.take(i as int).push(es0[i as int]));
                lemma_delete_push(es0.take(i as int), es0[i as int], pv);
            }
            if !path_eq(&self.entries[i].path, p) {
                let e = self.entries[i].dup();
                kept.push(e);
            }
            assert(Seq::new(kept@.len(), |t: int| kept@[t]@) =~= spec_delete(
                es0.take(i + 1),
                pv,
            ));
            i += 1;
        }
        assert(es0.take(n as int) =~= es0);
        self.entries = kept;
        assert(final(self)@ =~= Seq::new(kept@.len(), |t: int| kept@[t]@));
    }

    /// Applies one repair step to the snapshot.
    pub fn apply_action(&mut self, a: &FsAction)
        ensures
            final(self)@ == spec_apply_act(old(self)@, a@),
    {
        match a {
            FsAction::WriteFile { path, content } => self.apply_write(path, content),
            FsAction::DeleteFile { path } => self.apply_delete(path),
            FsAction::SetExecutable { path: _ } => {},
        }
    }

    /// Applies a list of repair steps to the snapshot, in order.
    #[verifier::loop_isolation(false)]
    pub fn apply(&mut self, acts: &Vec<FsAction>)
        ensures
            final(self)@ == spec_apply(old(self)@, acts_view(*acts)),
    {
        let ghost es0 = old(self)@;
        let ghost av = acts_view(*acts);
        let n = acts.len();
        let mut i: usize = 0;
        assert(av.take(0) =~= Seq::<Act>::empty());
        while i < n
            invariant
                0 <= i <= n,
                self@ == spec_apply(es0, av.take(i as int)),
            decreases n - i,
        {
            assert(av.take(i + 1).drop_last() =~= av.take(i as int));
            assert(av.take(i + 1).last() == av[i as int]);
            self.apply_action(&acts[i]);
            i += 1;
        }
        assert(av.take(n as int) =~= av);
    }
}

} // verus!
