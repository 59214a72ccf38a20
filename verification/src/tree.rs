//! In-memory directory tree.
//!
//! Extraction builds one of these trees from an archive's entries; the
//! caller then materializes it on disk. Keeping the tree as a value lets
//! the layout rules — path-safe placement of entries and the flattening of
//! a single wrapper directory — be stated and checked exactly, with the
//! final path only ever holding a fully built tree.

use crate::bytes::is_hidden_name;
use vstd::prelude::*;

verus! {

/// A named child of a directory.
#[derive(Debug)]
pub struct FsEntry {
    pub name: Vec<u8>,
    pub node: FsNode,
}

/// A regular file with its content, or a directory with its children in
/// listing order.
#[derive(Debug)]
pub enum FsNode {
    File { data: Vec<u8> },
    Dir { entries: Vec<FsEntry> },
}

/// A conflict that stops a tree operation: a path runs through a file, or
/// flattening would move an entry onto an existing sibling.
#[derive(PartialEq, Eq, Structural, Clone, Copy, Debug)]
pub enum TreeError {
    Conflict,
}

pub open spec fn has_name(es: Seq<FsEntry>, name: Seq<u8>) -> bool {
    exists|i: int| 0 <= i < es.len() && es[i].name@ == name
}

pub open spec fn names_unique(es: Seq<FsEntry>) -> bool {
    forall|i: int, j: int| 0 <= i < j < es.len() ==> es[i].name@ != es[j].name@
}

/// Well-formedness: sibling names are distinct, at every level.
pub open spec fn node_wf(n: FsNode) -> bool
    decreases n,
{
    match n {
        FsNode::File { .. } => true,
        FsNode::Dir { entries } => dir_seq_wf(entries@),
    }
}

pub open spec fn dir_seq_wf(es: Seq<FsEntry>) -> bool
    decreases es,
{
    names_unique(es) && (forall|i: int| 0 <= i < es.len() ==> node_wf(#[trigger] es[i].node))
}

/// A wrapper candidate: a non-hidden directory child.
pub open spec fn is_wrapper_entry(e: FsEntry) -> bool {
    e.node is Dir && !is_hidden_name(e.name@)
}

/// Flattening fires exactly when there is one single wrapper candidate.
pub open spec fn flatten_fires(es: Seq<FsEntry>) -> bool {
    exists|i: int|
        0 <= i < es.len() && is_wrapper_entry(es[i]) && (forall|j: int|
            0 <= j < es.len() && j != i ==> !is_wrapper_entry(es[j]))
}

/// The index of the single wrapper candidate, meaningful when flattening
/// fires.
pub open spec fn the_wrapper_index(es: Seq<FsEntry>) -> int {
    choose|i: int| 0 <= i < es.len() && is_wrapper_entry(es[i])
}

/// The wrapper's children: what moves up into the root.
pub open spec fn flatten_moved(es: Seq<FsEntry>) -> Seq<FsEntry> {
    es[the_wrapper_index(es)].node->entries@
}

/// The root without the wrapper: what stays.
pub open spec fn flatten_rest(es: Seq<FsEntry>) -> Seq<FsEntry> {
    es.remove(the_wrapper_index(es))
}

/// A moved entry would land on an existing sibling name.
pub open spec fn flatten_collides(es: Seq<FsEntry>) -> bool {
    exists|i: int, j: int|
        0 <= i < flatten_rest(es).len() && 0 <= j < flatten_moved(es).len() && flatten_rest(
            es,
        )[i].name@ == flatten_moved(es)[j].name@
}

/// What the root's children are after the flattening pass: unchanged unless
/// exactly one wrapper candidate exists and none of its children collides
/// with a remaining sibling; then the siblings keep their order and the
/// wrapper's children follow in theirs.
pub open spec fn flatten_result(es: Seq<FsEntry>) -> Seq<FsEntry> {
    if flatten_fires(es) && !flatten_collides(es) {
        flatten_rest(es) + flatten_moved(es)
    } else {
        es
    }
}

/// Index of the entry named `name`, if any.
pub fn find_entry(es: &Vec<FsEntry>, name: &Vec<u8>) -> (r: Option<usize>)
    ensures
        match r {
            Option::Some(j) => j < es@.len() && es@[j as int].name@ == name@,
            Option::None => !has_name(es@, name@),
        },
{
    let n = es.len();
    for i in 0..n
        invariant
            n == es.len(),
            forall|j: int| 0 <= j < i ==> es@[j].name@ != name@,
    {
        if crate::bytes::bytes_eq(&es[i].name, name) {
            return Option::Some(i);
        }
    }
    Option::None
}

/// Decides well-formedness of a listing, so that callers holding a tree of
/// unknown provenance (say, read back from disk) can establish it.
#[verifier::loop_isolation(false)]
pub fn is_wf_dir(es: &Vec<FsEntry>) -> (r: bool)
    ensures
        r == dir_seq_wf(es@),
    decreases es@, 0int,
{
    let n = es.len();
    for i in 0..n
        invariant
            n == es.len(),
            forall|a: int, b: int| 0 <= a < b < i ==> es@[a].name@ != es@[b].name@,
    {
        for j in 0..i
            invariant
                i < n == es.len(),
                forall|b: int| 0 <= b < j ==> es@[b].name@ != es@[i as int].name@,
        {
            if crate::bytes::bytes_eq(&es[j].name, &es[i].name) {
                return false;
            }
        }
    }
    for i in 0..n
        invariant
            n == es.len(),
            names_unique(es@),
            forall|a: int| 0 <= a < i ==> node_wf(#[trigger] es@[a].node),
    {
        let sub_ok = match &es[i].node {
            FsNode::Dir { entries } => is_wf_dir(entries),
            FsNode::File { .. } => true,
        };
        if !sub_ok {
            proof {
                assert(!node_wf(es@[i as int].node));
            }
            return false;
        }
        proof {
            assert(node_wf(es@[i as int].node));
        }
    }
    true
}

/// The flattening pass over the immediate children of an extraction root:
/// when exactly one non-hidden directory child exists, its children move up
/// into the root and the wrapper goes away; any other layout is left
/// untouched. Returns whether the pass fired; a name collision between a
/// moved child and a staying sibling is a conflict and changes nothing.
#[verifier::loop_isolation(false)]
pub fn flatten(root: &mut Vec<FsEntry>) -> (r: Result<bool, TreeError>)
    requires
        dir_seq_wf(old(root)@),
    ensures
        dir_seq_wf(final(root)@),
        match r {
            Result::Ok(fired) => {
                &&& final(root)@ == flatten_result(old(root)@)
                &&& fired == (flatten_fires(old(root)@) && !flatten_collides(old(root)@))
            },
            Result::Err(_) => {
                &&& flatten_fires(old(root)@)
                &&& flatten_collides(old(root)@)
                &&& final(root)@ == old(root)@
            },
        },
{
    let ghost es0 = root@;
    let n = root.len();
    let mut count: usize = 0;
    let mut wi: usize = 0;
    let ghost mut second: int = 0;
    for i in 0..n
        invariant
            root@ == es0,
            count <= i,
            count == 0 ==> forall|j: int| 0 <= j < i ==> !is_wrapper_entry(es0[j]),
            count >= 1 ==> wi < i && is_wrapper_entry(es0[wi as int]),
            count == 1 ==> forall|j: int| 0 <= j < i && j != wi ==> !is_wrapper_entry(es0[j]),
            count >= 2 ==> wi < second < i && is_wrapper_entry(es0[second]),
    {
        let is_candidate: bool = match &root[i].node {
            FsNode::Dir { .. } => {
                let nm = &root[i].name;
                !(nm.len() > 0 && nm[0] == 46)
            },
            FsNode::File { .. } => false,
        };
        proof {
            assert(is_candidate == is_wrapper_entry(es0[i as int]));
        }
        if is_candidate {
            if count == 0 {
                wi = i;
            } else if count == 1 {
                proof {
                    second = i as int;
                }
            }
            count = count + 1;
        }
    }
    if count != 1 {
        proof {
            if count == 0 {
                assert(!flatten_fires(es0));
            } else {
                assert(is_wrapper_entry(es0[wi as int]) && is_wrapper_entry(es0[second]) && wi
                    < second);
                assert forall|i: int|
                    !(0 <= i < es0.len() && is_wrapper_entry(es0[i]) && (forall|j: int|
                        0 <= j < es0.len() && j != i ==> !is_wrapper_entry(es0[j]))) by {
                    if 0 <= i < es0.len() && is_wrapper_entry(es0[i]) {
                        if i != wi {
                            assert(is_wrapper_entry(es0[wi as int]));
                        } else {
                            assert(is_wrapper_entry(es0[second]));
                        }
                    }
                }
                assert(!flatten_fires(es0));
            }
        }
        return Result::Ok(false);
    }
    proof {
        assert(flatten_fires(es0));
        assert(the_wrapper_index(es0) == wi as int) by {
            let k = the_wrapper_index(es0);
            assert(0 <= k < es0.len() && is_wrapper_entry(es0[k]));
        }
        assert(flatten_rest(es0).len() == es0.len() - 1);
        assert forall|i: int| 0 <= i < es0.len() - 1 implies flatten_rest(es0)[i].name@ == (if i
            < wi as int {
            es0[i].name@
        } else {
            es0[i + 1].name@
        }) by {}
    }
    // Collision check before anything moves: the tree is untouched on error.
    let inner_len = match &root[wi].node {
        FsNode::Dir { entries } => entries.len(),
        FsNode::File { .. } => 0,
    };
    for k in 0..inner_len
        invariant
            root@ == es0,
            forall|i: int, j: int|
                0 <= i < flatten_rest(es0).len() && 0 <= j < k ==> flatten_rest(es0)[i].name@
                    != flatten_moved(es0)[j].name@,
    {
        let mut clash = false;
        let inner_name = match &root[wi].node {
            FsNode::Dir { entries } => &entries[k].name,
            FsNode::File { .. } => &root[wi].name,
        };
        proof {
            assert(inner_name@ == flatten_moved(es0)[k as int].name@);
        }
        for j in 0..n
            invariant
                root@ == es0,
                !clash ==> forall|j2: int|
                    0 <= j2 < j && j2 != wi ==> es0[j2].name@ != flatten_moved(es0)[k as int].name@,
                clash ==> flatten_collides(es0),
        {
            if j != wi {
                if crate::bytes::bytes_eq(&root[j].name, inner_name) {
                    proof {
                        let ri = if j < wi {
                            j as int
                        } else {
                            j - 1
                        };
                        assert(flatten_rest(es0)[ri].name@ == es0[j as int].name@);
                        assert(flatten_rest(es0)[ri].name@ == flatten_moved(es0)[k as int].name@);
                    }
                    clash = true;
                }
            }
        }
        if clash {
            return Result::Err(TreeError::Conflict);
        }
        proof {
            assert forall|i: int|
                0 <= i < flatten_rest(es0).len() implies flatten_rest(es0)[i].name@
                != flatten_moved(es0)[k as int].name@ by {
                let j2 = if i < wi as int {
                    i
                } else {
                    i + 1
                };
                assert(flatten_rest(es0)[i].name@ == es0[j2].name@);
            }
        }
    }
    proof {
        assert(!flatten_collides(es0));
    }
    // Move the wrapper's children up, keeping sibling order.
    let w = root.remove(wi);
    let mut moved: Vec<FsEntry> = match w.node {
        FsNode::Dir { entries } => entries,
        FsNode::File { .. } => vstd::pervasive::unreached(),
    };
    let ghost moved0 = moved@;
    let ghost mut d: int = 0;
    proof {
        assert(root@ == flatten_rest(es0));
        assert(moved0 == flatten_moved(es0));
        assert(moved0.skip(0) =~= moved0);
        assert(root@ =~= flatten_rest(es0) + moved0.take(0));
    }
    while moved.len() > 0
        invariant
            0 <= d <= moved0.len(),
            moved@ == moved0.skip(d),
            root@ == flatten_rest(es0) + moved0.take(d),
        decreases moved@.len(),
    {
        let e = moved.remove(0);
        proof {
            assert(moved0.skip(d)[0] == moved0[d]);
            assert(moved@ =~= moved0.skip(d + 1));
        }
        root.push(e);
        proof {
            assert(root@ =~= flatten_rest(es0) + moved0.take(d + 1));
            d = d + 1;
        }
    }
    proof {
        assert(moved0.take(d) =~= moved0);
        assert(root@ == flatten_rest(es0) + flatten_moved(es0));
        assert(flatten_result(es0) == flatten_rest(es0) + flatten_moved(es0));
        lemma_flatten_wf(es0);
    }
    Result::Ok(true)
}

/// Flattening preserves well-formedness of the root.
proof fn lemma_flatten_wf(es: Seq<FsEntry>)
    requires
        dir_seq_wf(es),
        flatten_fires(es),
        !flatten_collides(es),
    ensures
        dir_seq_wf(flatten_rest(es) + flatten_moved(es)),
{
    let wi = the_wrapper_index(es);
    let rest = flatten_rest(es);
    let moved = flatten_moved(es);
    assert(node_wf(es[wi].node));
    assert(dir_seq_wf(moved));
    let all = rest + moved;
    assert forall|i: int, j: int| 0 <= i < j < all.len() implies all[i].name@ != all[j].name@ by {
        if j < rest.len() {
            let i2 = if i < wi {
                i
            } else {
                i + 1
            };
            let j2 = if j < wi {
                j
            } else {
                j + 1
            };
            assert(rest[i].name@ == es[i2].name@ && rest[j].name@ == es[j2].name@);
        } else if i >= rest.len() {
            assert(all[i] == moved[i - rest.len()] && all[j] == moved[j - rest.len()]);
        } else {
            assert(all[i] == rest[i] && all[j] == moved[j - rest.len()]);
            assert(!flatten_collides(es));
        }
    }
    assert forall|i: int| 0 <= i < all.len() implies node_wf(#[trigger] all[i].node) by {
        if i < rest.len() {
            let i2 = if i < wi {
                i
            } else {
                i + 1
            };
            assert(all[i] == es[i2]);
        } else {
            assert(all[i] == moved[i - rest.len()]);
        }
    }
}

/// A single top-level wrapper directory flattens away completely: the root's
/// children become exactly the wrapper's children, name for name and content
/// for content, and no child carries the wrapper's name unless the wrapper
/// itself held one.
pub proof fn lemma_flatten_single_wrapper(es: Seq<FsEntry>)
    requires
        es.len() == 1,
        is_wrapper_entry(es[0]),
    ensures
        flatten_result(es) == es[0].node->entries@,
        !has_name(es[0].node->entries@, es[0].name@) ==> !has_name(flatten_result(es), es[0].name@),
{
    assert(flatten_fires(es));
    assert(the_wrapper_index(es) == 0) by {
        let k = the_wrapper_index(es);
        assert(0 <= k < es.len() && is_wrapper_entry(es[k]));
    }
    assert(flatten_rest(es) =~= Seq::<FsEntry>::empty());
    assert(!flatten_collides(es));
    assert(flatten_result(es) =~= es[0].node->entries@);
}

/// With zero or more than one qualifying (non-hidden directory) child at the
/// top level, flattening is a no-op: the layout stays exactly as extraction
/// produced it.
pub proof fn lemma_flatten_ambiguous(es: Seq<FsEntry>)
    requires
        !flatten_fires(es),
    ensures
        flatten_result(es) == es,
{
}

/// The mathematical shape of a tree: file content, or children by name.
pub enum GNode {
    File { data: Seq<u8> },
    Dir { children: Map<Seq<u8>, GNode> },
}

pub open spec fn empty_dir_g() -> GNode {
    GNode::Dir { children: Map::empty() }
}

/// The mathematical tree a node stands for.
pub open spec fn node_view(n: FsNode) -> GNode
    decreases n,
{
    match n {
        FsNode::File { data } => GNode::File { data: data@ },
        FsNode::Dir { entries } => GNode::Dir { children: dir_view(entries@) },
    }
}

/// The children map a directory listing stands for.
pub open spec fn dir_view(es: Seq<FsEntry>) -> Map<Seq<u8>, GNode>
    decreases es,
{
    if es.len() == 0 {
        Map::empty()
    } else {
        dir_view(es.drop_last()).insert(es.last().name@, node_view(es.last().node))
    }
}

pub proof fn lemma_dir_view_dom(es: Seq<FsEntry>, name: Seq<u8>)
    ensures
        dir_view(es).dom().contains(name) == has_name(es, name),
    decreases es.len(),
{
    if es.len() > 0 {
        lemma_dir_view_dom(es.drop_last(), name);
        if es.last().name@ == name {
            assert(has_name(es, name));
        } else {
            assert(dir_view(es).dom().contains(name) == dir_view(es.drop_last()).dom().contains(name));
            if has_name(es, name) {
                let i = choose|i: int| 0 <= i < es.len() && es[i].name@ == name;
                assert(es.drop_last()[i] == es[i]);
                assert(has_name(es.drop_last(), name));
            }
            if has_name(es.drop_last(), name) {
                let i = choose|i: int| 0 <= i < es.drop_last().len() && es.drop_last()[i].name@
                    == name;
                assert(es[i].name@ == name);
            }
        }
    }
}

pub proof fn lemma_names_unique_prefix(es: Seq<FsEntry>)
    requires
        names_unique(es),
        es.len() > 0,
    ensures
        names_unique(es.drop_last()),
{
    assert forall|i: int, j: int|
        0 <= i < j < es.drop_last().len() implies es.drop_last()[i].name@
        != es.drop_last()[j].name@ by {
        assert(es.drop_last()[i] == es[i] && es.drop_last()[j] == es[j]);
    }
}

pub proof fn lemma_dir_view_get(es: Seq<FsEntry>, i: int)
    requires
        names_unique(es),
        0 <= i < es.len(),
    ensures
        dir_view(es).dom().contains(es[i].name@),
        dir_view(es)[es[i].name@] == node_view(es[i].node),
    decreases es.len(),
{
    if i == es.len() - 1 {
        assert(es.last() == es[i]);
    } else {
        lemma_names_unique_prefix(es);
        assert(es.drop_last()[i] == es[i]);
        lemma_dir_view_get(es.drop_last(), i);
        assert(es[i].name@ != es.last().name@);
    }
}

pub proof fn lemma_dir_view_update(es: Seq<FsEntry>, i: int, e2: FsEntry)
    requires
        names_unique(es),
        0 <= i < es.len(),
        e2.name@ == es[i].name@,
    ensures
        dir_view(es.update(i, e2)) == dir_view(es).insert(e2.name@, node_view(e2.node)),
        names_unique(es.update(i, e2)),
    decreases es.len(),
{
    let es2 = es.update(i, e2);
    assert forall|a: int, b: int| 0 <= a < b < es2.len() implies es2[a].name@ != es2[b].name@ by {
        assert(es2[a].name@ == es[a].name@ && es2[b].name@ == es[b].name@);
    }
    if i == es.len() - 1 {
        assert(es2.drop_last() =~= es.drop_last());
        assert(es2.last() == e2);
        assert(dir_view(es2) == dir_view(es.drop_last()).insert(e2.name@, node_view(e2.node)));
        assert(dir_view(es).insert(e2.name@, node_view(e2.node)) =~= dir_view(
            es.drop_last(),
        ).insert(e2.name@, node_view(e2.node)));
    } else {
        lemma_names_unique_prefix(es);
        assert(es.drop_last()[i] == es[i]);
        lemma_dir_view_update(es.drop_last(), i, e2);
        assert(es2.drop_last() =~= es.drop_last().update(i, e2));
        assert(es2.last() == es.last());
        assert(es[i].name@ != es.last().name@);
        assert(dir_view(es2) == dir_view(es.drop_last()).insert(e2.name@, node_view(e2.node)).insert(
            es.last().name@,
            node_view(es.last().node),
        ));
        assert(dir_view(es.drop_last()).insert(e2.name@, node_view(e2.node)).insert(
            es.last().name@,
            node_view(es.last().node),
        ) =~= dir_view(es.drop_last()).insert(es.last().name@, node_view(es.last().node)).insert(
            e2.name@,
            node_view(e2.node),
        ));
    }
}

pub proof fn lemma_dir_view_push(es: Seq<FsEntry>, e: FsEntry)
    ensures
        dir_view(es.push(e)) == dir_view(es).insert(e.name@, node_view(e.node)),
{
    assert(es.push(e).drop_last() =~= es);
    assert(es.push(e).last() == e);
}

/// Placing a dir (`leaf` empty) or a file with content `leaf` at `path`
/// inside a tree: directories spring up along the way; a file in the way,
/// or a directory where the file is to go, is a conflict (`None`). An
/// existing file at the exact target path is overwritten.
pub open spec fn g_insert(g: GNode, path: Seq<Seq<u8>>, leaf: Option<Seq<u8>>) -> Option<GNode>
    decreases path.len(),
{
    match g {
        GNode::File { .. } => Option::None,
        GNode::Dir { children } => {
            if path.len() == 0 {
                Option::Some(g)
            } else if path.len() == 1 && leaf is Some {
                if children.dom().contains(path[0]) && children[path[0]] is Dir {
                    Option::None
                } else {
                    Option::Some(
                        GNode::Dir {
                            children: children.insert(path[0], GNode::File { data: leaf->0 }),
                        },
                    )
                }
            } else {
                let sub = if children.dom().contains(path[0]) {
                    children[path[0]]
                } else {
                    empty_dir_g()
                };
                match g_insert(sub, path.drop_first(), leaf) {
                    Option::None => Option::None,
                    Option::Some(sub2) => Option::Some(
                        GNode::Dir { children: children.insert(path[0], sub2) },
                    ),
                }
            }
        },
    }
}

pub open spec fn path_views(p: Seq<Vec<u8>>) -> Seq<Seq<u8>> {
    p.map_values(|c: Vec<u8>| c@)
}

pub open spec fn opt_data_view(o: Option<Vec<u8>>) -> Option<Seq<u8>> {
    match o {
        Option::Some(d) => Option::Some(d@),
        Option::None => Option::None,
    }
}

/// Places the path suffix `path[i..]` into the directory listing `es`: a
/// file with content `leaf`, or a directory when `leaf` is empty. Exactly
/// the `g_insert` transformation on the listing's mathematical view.
pub fn dir_insert(es: Vec<FsEntry>, path: &Vec<Vec<u8>>, i: usize, leaf: Option<Vec<u8>>) -> (r:
    Result<Vec<FsEntry>, TreeError>)
    requires
        dir_seq_wf(es@),
        i <= path@.len(),
        leaf is Some ==> i < path@.len(),
    ensures
        match r {
            Result::Ok(es2) => {
                &&& dir_seq_wf(es2@)
                &&& g_insert(
                    GNode::Dir { children: dir_view(es@) },
                    path_views(path@).skip(i as int),
                    opt_data_view(leaf),
                ) == Option::Some(GNode::Dir { children: dir_view(es2@) })
            },
            Result::Err(_) => g_insert(
                GNode::Dir { children: dir_view(es@) },
                path_views(path@).skip(i as int),
                opt_data_view(leaf),
            ) is None,
        },
    decreases path@.len() - i,
{
    let ghost g = GNode::Dir { children: dir_view(es@) };
    let ghost p = path_views(path@).skip(i as int);
    if i == path.len() {
        proof {
            assert(p =~= Seq::<Seq<u8>>::empty());
        }
        return Result::Ok(es);
    }
    let name = &path[i];
    proof {
        assert(p[0] == name@);
        assert(p.drop_first() =~= path_views(path@).skip(i + 1));
        assert(p.len() == path@.len() - i);
    }
    let found = find_entry(&es, name);
    proof {
        match found {
            Option::Some(j) => {
                lemma_dir_view_get(es@, j as int);
            },
            Option::None => {
                lemma_dir_view_dom(es@, name@);
            },
        }
    }
    let at_last = i + 1 == path.len();
    if at_last && leaf.is_some() {
        let data = match leaf {
            Option::Some(d) => d,
            Option::None => vstd::pervasive::unreached(),
        };
        match found {
            Option::None => {
                let mut es2 = es;
                let e = FsEntry { name: name.clone(), node: FsNode::File { data } };
                proof {
                    lemma_dir_view_push(es2@, e);
                }
                es2.push(e);
                proof {
                    assert forall|a: int, b: int|
                        0 <= a < b < es2@.len() implies es2@[a].name@ != es2@[b].name@ by {
                        if b == es2@.len() - 1 {
                            assert(es2@[a].name@ == es@[a].name@);
                            assert(has_name(es@, es2@[b].name@) == false);
                        }
                    }
                }
                Result::Ok(es2)
            },
            Option::Some(j) => {
                let is_file = match &es[j].node {
                    FsNode::File { .. } => true,
                    FsNode::Dir { .. } => false,
                };
                if !is_file {
                    return Result::Err(TreeError::Conflict);
                }
                let mut es2 = es;
                let old_e = es2.remove(j);
                let e2 = FsEntry { name: old_e.name, node: FsNode::File { data } };
                es2.insert(j, e2);
                proof {
                    assert(es2@ =~= es@.update(j as int, e2));
                    lemma_dir_view_update(es@, j as int, e2);
                    assert forall|a: int|
                        0 <= a < es2@.len() implies node_wf(#[trigger] es2@[a].node) by {
                        if a != j {
                            assert(es2@[a] == es@[a]);
                        }
                    }
                }
                Result::Ok(es2)
            },
        }
    } else {
        match found {
            Option::Some(j) => {
                let mut es2 = es;
                let old_e = es2.remove(j);
                let sub_entries = match old_e.node {
                    FsNode::Dir { entries } => entries,
                    FsNode::File { .. } => {
                        proof {
                            assert(old_e == es@[j as int]);
                            assert(dir_view(es@)[p[0]] is File);
                            assert(g_insert(dir_view(es@)[p[0]], p.drop_first(), opt_data_view(leaf))
                                is None);
                            assert(g_insert(g, p, opt_data_view(leaf)) is None);
                        }
                        return Result::Err(TreeError::Conflict);
                    },
                };
                proof {
                    assert(node_wf(es@[j as int].node));
                }
                match dir_insert(sub_entries, path, i + 1, leaf) {
                    Result::Ok(sub2) => {
                        let e2 = FsEntry {
                            name: old_e.name,
                            node: FsNode::Dir { entries: sub2 },
                        };
                        es2.insert(j, e2);
                        proof {
                            assert(es2@ =~= es@.update(j as int, e2));
                            lemma_dir_view_update(es@, j as int, e2);
                            assert forall|a: int|
                                0 <= a < es2@.len() implies node_wf(#[trigger] es2@[a].node) by {
                                if a != j {
                                    assert(es2@[a] == es@[a]);
                                }
                            }
                        }
                        Result::Ok(es2)
                    },
                    Result::Err(er) => Result::Err(er),
                }
            },
            Option::None => {
                let empty: Vec<FsEntry> = Vec::new();
                proof {
                    assert(dir_view(empty@) =~= Map::<Seq<u8>, GNode>::empty());
                }
                match dir_insert(empty, path, i + 1, leaf) {
                    Result::Ok(sub2) => {
                        let mut es2 = es;
                        let e2 = FsEntry { name: name.clone(), node: FsNode::Dir { entries: sub2 } };
                        proof {
                            lemma_dir_view_push(es2@, e2);
                        }
                        es2.push(e2);
                        proof {
                            assert forall|a: int, b: int|
                                0 <= a < b < es2@.len() implies es2@[a].name@ != es2@[b].name@ by {
                                if b == es2@.len() - 1 {
                                    assert(es2@[a].name@ == es@[a].name@);
                                    assert(has_name(es@, es2@[b].name@) == false);
                                }
                            }
                        }
                        Result::Ok(es2)
                    },
                    Result::Err(er) => Result::Err(er),
                }
            },
        }
    }
}

} // verus!
