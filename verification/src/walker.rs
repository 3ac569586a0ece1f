//! The tree walker: enumerates a snapshot of a local subtree and plans
//! one upload per regular file.
//!
//! A directory tree is modelled by [`FsTree`]: a regular file carries its
//! name and its full contents, a directory carries its immediate entries
//! and whether enumeration of them succeeded.  The walker descends
//! depth-first, in entry order, and emits one [`WalkItem`] per discovered
//! file (an upload target whose remote key is the file's base name) and
//! one per unreadable node (a local-fault marker).  Directories are never
//! uploaded and a failed read or enumeration never aborts sibling
//! traversal.

use vstd::prelude::*;

verus! {

/// The fault domains of a synchronization run, kept apart throughout:
/// a root that cannot be walked at all, a local read or enumeration
/// failure, a backend rejection, and an externally requested abort.
#[derive(Clone, Copy, Debug, PartialEq, Eq, Structural)]
pub enum FaultKind {
    Precondition,
    Io,
    Storage,
    Cancelled,
}

/// One planned upload: the file's path (as the segments walked to reach
/// it), the derived remote key, and the file's full contents.
#[derive(Debug)]
pub struct UploadTarget {
    pub path: Vec<String>,
    pub key: String,
    pub content: Vec<u8>,
}

/// One item discovered by the walk: a file to upload, or a node the
/// local filesystem refused — a file whose contents could not be read,
/// or a directory whose entries could not be enumerated.
#[derive(Debug)]
pub enum WalkItem {
    Target(UploadTarget),
    Fault(Vec<String>),
}

/// A snapshot of a local subtree, as directory enumeration reported
/// it: a readable file with its contents, a file that was classified
/// as a file but whose contents could not be read, or a directory and
/// whether its entries could be enumerated.
#[derive(Debug)]
pub enum FsTree {
    File { name: String, content: Vec<u8> },
    UnreadableFile { name: String },
    Dir { name: String, readable: bool, entries: Vec<FsTree> },
}

/// What probing the root path found: nothing, something that is neither
/// a regular file nor a directory, or a walkable node.
#[derive(Debug)]
pub enum RootEntry {
    Missing,
    Special,
    Node(FsTree),
}

/// Mathematical image of an upload target.
pub struct TargetModel {
    pub path: Seq<Seq<char>>,
    pub key: Seq<char>,
    pub content: Seq<u8>,
}

/// Mathematical image of a walk item.
pub enum ItemModel {
    Target { t: TargetModel },
    Fault { at: Seq<Seq<char>> },
}

/// The sequence of path segments denoted by a vector of strings.
pub open spec fn path_model(p: Seq<String>) -> Seq<Seq<char>> {
    p.map_values(|s: String| s@)
}

impl View for UploadTarget {
    type V = TargetModel;

    open spec fn view(&self) -> TargetModel {
        TargetModel { path: path_model(self.path@), key: self.key@, content: self.content@ }
    }
}

impl View for WalkItem {
    type V = ItemModel;

    open spec fn view(&self) -> ItemModel {
        match self {
            WalkItem::Target(t) => ItemModel::Target { t: t@ },
            WalkItem::Fault(p) => ItemModel::Fault { at: path_model(p@) },
        }
    }
}

/// The mathematical image of a vector of walk items.
pub open spec fn items_model(s: Seq<WalkItem>) -> Seq<ItemModel> {
    s.map_values(|w: WalkItem| w@)
}

/// The items that walking `t` under the path `prefix` yields, in
/// traversal order: a readable file becomes one target keyed by its
/// base name; a readable directory contributes its entries' items in
/// entry order; an unreadable file or directory becomes one
/// local-fault marker.
pub open spec fn walk_model(t: FsTree, prefix: Seq<Seq<char>>) -> Seq<ItemModel>
    decreases t,
{
    match t {
        FsTree::File { name, content } => seq![
            ItemModel::Target {
                t: TargetModel { path: prefix.push(name@), key: name@, content: content@ },
            },
        ],
        FsTree::UnreadableFile { name } => seq![
            ItemModel::Fault { at: prefix.push(name@) },
        ],
        FsTree::Dir { name, readable, entries } => {
            if readable {
                walk_children(entries@, prefix.push(name@))
            } else {
                seq![ItemModel::Fault { at: prefix.push(name@) }]
            }
        },
    }
}

/// The items that walking a row of sibling entries yields, in order.
pub open spec fn walk_children(es: Seq<FsTree>, prefix: Seq<Seq<char>>) -> Seq<ItemModel>
    decreases es, es.len(),
{
    if es.len() == 0 {
        Seq::empty()
    } else {
        walk_children(es.drop_last(), prefix) + walk_model(es.last(), prefix)
    }
}

/// How many readable regular files the walk can discover under `t`:
/// an unreadable file, and everything below an unreadable directory,
/// is not uploadable and does not count.
pub open spec fn file_count(t: FsTree) -> nat
    decreases t,
{
    match t {
        FsTree::File { .. } => 1,
        FsTree::UnreadableFile { .. } => 0,
        FsTree::Dir { readable, entries, .. } => if readable {
            file_count_seq(entries@)
        } else {
            0
        },
    }
}

/// Total discoverable-file count over a row of sibling entries.
pub open spec fn file_count_seq(es: Seq<FsTree>) -> nat
    decreases es, es.len(),
{
    if es.len() == 0 {
        0
    } else {
        file_count_seq(es.drop_last()) + file_count(es.last())
    }
}

/// Every node of the tree could be read: each file's contents and
/// each directory's entries.
pub open spec fn all_readable(t: FsTree) -> bool
    decreases t,
{
    match t {
        FsTree::File { .. } => true,
        FsTree::UnreadableFile { .. } => false,
        FsTree::Dir { readable, entries, .. } => readable && (forall|i: int|
            0 <= i < entries@.len() ==> all_readable(#[trigger] entries@[i])),
    }
}

/// Over a fully readable tree the walk yields nothing but targets:
/// exactly one item per regular file.
pub proof fn lemma_readable_walk_all_targets(t: FsTree, prefix: Seq<Seq<char>>)
    requires
        all_readable(t),
    ensures
        walk_model(t, prefix).len() == file_count(t),
    decreases t,
{
    match t {
        FsTree::File { .. } => {},
        FsTree::UnreadableFile { .. } => {},
        FsTree::Dir { name, readable, entries } => {
            lemma_readable_walk_all_targets_seq(entries@, prefix.push(name@));
        },
    }
}

proof fn lemma_readable_walk_all_targets_seq(es: Seq<FsTree>, prefix: Seq<Seq<char>>)
    requires
        forall|i: int| 0 <= i < es.len() ==> all_readable(#[trigger] es[i]),
    ensures
        walk_children(es, prefix).len() == file_count_seq(es),
    decreases es, es.len(),
{
    if es.len() != 0 {
        assert(forall|i: int|
            0 <= i < es.drop_last().len() ==> all_readable(#[trigger] es.drop_last()[i]));
        lemma_readable_walk_all_targets_seq(es.drop_last(), prefix);
        lemma_readable_walk_all_targets(es.last(), prefix);
    }
}

/// How many upload targets a row of items holds.
pub open spec fn count_targets(s: Seq<ItemModel>) -> nat
    decreases s.len(),
{
    if s.len() == 0 {
        0
    } else {
        count_targets(s.drop_last()) + if s.last() is Target {
            1nat
        } else {
            0
        }
    }
}

/// Target counting distributes over concatenation.
pub proof fn lemma_count_targets_add(a: Seq<ItemModel>, b: Seq<ItemModel>)
    ensures
        count_targets(a + b) == count_targets(a) + count_targets(b),
    decreases b.len(),
{
    if b.len() == 0 {
        assert(a + b =~= a);
    } else {
        lemma_count_targets_add(a, b.drop_last());
        assert((a + b).drop_last() =~= a + b.drop_last());
        assert((a + b).last() == b.last());
    }
}

/// Coverage: the walk of any tree plans exactly one upload per
/// discoverable regular file, however the tree nests.
pub proof fn lemma_walk_coverage(t: FsTree, prefix: Seq<Seq<char>>)
    ensures
        count_targets(walk_model(t, prefix)) == file_count(t),
    decreases t,
{
    match t {
        FsTree::File { name, content } => {
            let s = walk_model(t, prefix);
            assert(s.len() == 1 && s.last() is Target);
            assert(s.drop_last() =~= Seq::<ItemModel>::empty());
            assert(count_targets(s.drop_last()) == 0);
        },
        FsTree::UnreadableFile { name } => {
            let s = walk_model(t, prefix);
            assert(s.len() == 1 && !(s.last() is Target));
            assert(s.drop_last() =~= Seq::<ItemModel>::empty());
            assert(count_targets(s.drop_last()) == 0);
        },
        FsTree::Dir { name, readable, entries } => {
            if readable {
                lemma_walk_coverage_seq(entries@, prefix.push(name@));
            } else {
                let s = walk_model(t, prefix);
                assert(s.len() == 1 && !(s.last() is Target));
                assert(s.drop_last() =~= Seq::<ItemModel>::empty());
                assert(count_targets(s.drop_last()) == 0);
            }
        },
    }
}

proof fn lemma_walk_coverage_seq(es: Seq<FsTree>, prefix: Seq<Seq<char>>)
    ensures
        count_targets(walk_children(es, prefix)) == file_count_seq(es),
    decreases es, es.len(),
{
    if es.len() != 0 {
        lemma_walk_coverage_seq(es.drop_last(), prefix);
        lemma_walk_coverage(es.last(), prefix);
        lemma_count_targets_add(
            walk_children(es.drop_last(), prefix),
            walk_model(es.last(), prefix),
        );
    }
}

/// Every target the walk plans is keyed by the base name of its path:
/// the last segment, with no directory prefix preserved.
pub proof fn lemma_keys_are_base_names(t: FsTree, prefix: Seq<Seq<char>>)
    ensures
        forall|j: int|
            0 <= j < walk_model(t, prefix).len() && (#[trigger] walk_model(t, prefix)[j]) is Target
                ==> walk_model(t, prefix)[j]->t.path.len() > 0 && walk_model(t, prefix)[j]->t.key
                == walk_model(t, prefix)[j]->t.path.last(),
    decreases t,
{
    match t {
        FsTree::File { name, content } => {},
        FsTree::UnreadableFile { name } => {},
        FsTree::Dir { name, readable, entries } => {
            if readable {
                lemma_keys_are_base_names_seq(entries@, prefix.push(name@));
            }
        },
    }
}

proof fn lemma_keys_are_base_names_seq(es: Seq<FsTree>, prefix: Seq<Seq<char>>)
    ensures
        forall|j: int|
            0 <= j < walk_children(es, prefix).len() && (#[trigger] walk_children(es, prefix)[j])
                is Target ==> walk_children(es, prefix)[j]->t.path.len() > 0 && walk_children(
                es,
                prefix,
            )[j]->t.key == walk_children(es, prefix)[j]->t.path.last(),
    decreases es, es.len(),
{
    if es.len() != 0 {
        lemma_keys_are_base_names_seq(es.drop_last(), prefix);
        lemma_keys_are_base_names(es.last(), prefix);
        let a = walk_children(es.drop_last(), prefix);
        let b = walk_model(es.last(), prefix);
        assert forall|j: int|
            0 <= j < walk_children(es, prefix).len() && (#[trigger] walk_children(es, prefix)[j])
                is Target implies walk_children(es, prefix)[j]->t.path.len() > 0 && walk_children(
            es,
            prefix,
        )[j]->t.key == walk_children(es, prefix)[j]->t.path.last() by {
            if j < a.len() {
                assert(walk_children(es, prefix)[j] == a[j]);
            } else {
                assert(walk_children(es, prefix)[j] == b[j - a.len()]);
            }
        }
    }
}

/// Clones a path, segment by segment.
fn clone_path(v: &Vec<String>) -> (r: Vec<String>)
    ensures
        r@ == v@,
{
    let r = v.clone();
    proof {
        assert forall|i: int| 0 <= i < v@.len() implies r@[i] == v@[i] by {
            assert(cloned::<String>(v@[i], r@[i]));
        }
        assert(r@ =~= v@);
    }
    r
}

/// Clones a file's contents.
fn clone_bytes(v: &Vec<u8>) -> (r: Vec<u8>)
    ensures
        r@ == v@,
{
    let r = v.clone();
    proof {
        assert forall|i: int| 0 <= i < v@.len() implies r@[i] == v@[i] by {
            assert(cloned::<u8>(v@[i], r@[i]));
        }
        assert(r@ =~= v@);
    }
    r
}

/// Walks the subtree `t`, reached along `prefix`, and returns its items
/// in traversal order: exactly those that [`walk_model`] describes.
#[verifier::loop_isolation(false)]
pub fn walk_tree(t: &FsTree, prefix: &Vec<String>) -> (out: Vec<WalkItem>)
    ensures
        items_model(out@) == walk_model(*t, path_model(prefix@)),
    decreases *t,
{
    let ghost gp = path_model(prefix@);
    let mut out: Vec<WalkItem> = Vec::new();
    match t {
        FsTree::File { name, content } => {
            let mut path = clone_path(prefix);
            path.push(name.clone());
            let target = UploadTarget {
                path,
                key: name.clone(),
                content: clone_bytes(content),
            };
            proof {
                assert(path_model(target.path@) =~= gp.push(name@));
            }
            out.push(WalkItem::Target(target));
            proof {
                assert(items_model(out@) =~= walk_model(*t, gp));
            }
        },
        FsTree::UnreadableFile { name } => {
            let mut path = clone_path(prefix);
            path.push(name.clone());
            proof {
                assert(path_model(path@) =~= gp.push(name@));
            }
            out.push(WalkItem::Fault(path));
            proof {
                assert(items_model(out@) =~= walk_model(*t, gp));
            }
        },
        FsTree::Dir { name, readable, entries } => {
            let mut path = clone_path(prefix);
            path.push(name.clone());
            proof {
                assert(path_model(path@) =~= gp.push(name@));
            }
            if !*readable {
                out.push(WalkItem::Fault(path));
                proof {
                    assert(items_model(out@) =~= walk_model(*t, gp));
                }
            } else {
                let ghost sub_prefix = path_model(path@);
                let mut i: usize = 0;
                while i < entries.len()
                    invariant
                        i <= entries@.len(),
                        path_model(path@) == sub_prefix,
                        items_model(out@) == walk_children(entries@.take(i as int), sub_prefix),
                    decreases entries@.len() - i,
                {
                    proof {
                        assert(decreases_to!(*t => t->Dir_entries));
                        assert(decreases_to!(*entries => entries@));
                        assert(decreases_to!(entries@ => entries@[i as int]));
                        assert(decreases_to!(*t => entries@[i as int]));
                    }
                    let mut sub = walk_tree(&entries[i], &path);
                    proof {
                        let taken = entries@.take(i as int + 1);
                        assert(taken.drop_last() =~= entries@.take(i as int));
                        assert(taken.last() == entries@[i as int]);
                        assert(items_model(out@ + sub@) =~= items_model(out@) + items_model(sub@));
                    }
                    out.append(&mut sub);
                    i += 1;
                }
                proof {
                    assert(entries@.take(entries@.len() as int) =~= entries@);
                }
            }
        },
    }
    out
}

/// Plans a whole run from what probing the root found.  A missing or
/// special root is the one fatal precondition: it yields a single
/// precondition fault and no upload is attempted; a walkable root is
/// planned exactly as [`walk_model`] describes, under an empty prefix.
pub fn plan_root(root: &RootEntry) -> (r: Result<Vec<WalkItem>, FaultKind>)
    ensures
        match *root {
            RootEntry::Node(t) => r matches Ok(items) && items_model(items@) == walk_model(
                t,
                Seq::<Seq<char>>::empty(),
            ),
            _ => r matches Err(k) && k == FaultKind::Precondition,
        },
{
    match root {
        RootEntry::Node(t) => {
            let prefix: Vec<String> = Vec::new();
            proof {
                assert(path_model(prefix@) =~= Seq::<Seq<char>>::empty());
            }
            Ok(walk_tree(t, &prefix))
        },
        RootEntry::Missing => Err(FaultKind::Precondition),
        RootEntry::Special => Err(FaultKind::Precondition),
    }
}

/// Key derivation is the base name alone: two planned uploads whose
/// paths end in the same file name collide on one remote key, wherever
/// in the tree the two files sit.
pub proof fn lemma_key_collision(t: FsTree, prefix: Seq<Seq<char>>, j1: int, j2: int)
    requires
        0 <= j1 < walk_model(t, prefix).len(),
        0 <= j2 < walk_model(t, prefix).len(),
        walk_model(t, prefix)[j1] is Target,
        walk_model(t, prefix)[j2] is Target,
        walk_model(t, prefix)[j1]->t.path.last() == walk_model(t, prefix)[j2]->t.path.last(),
    ensures
        walk_model(t, prefix)[j1]->t.key == walk_model(t, prefix)[j2]->t.key,
{
    lemma_keys_are_base_names(t, prefix);
}

} // verus!
