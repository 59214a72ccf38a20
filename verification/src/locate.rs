//! Interpreter binary resolution inside an installed runtime tree.
//!
//! Upstream runtime archives vary in how many directory levels they
//! introduce, so the canonical relative path is probed first and a bounded
//! depth-first search of the tree is the fallback: the first file literally
//! named like the interpreter binary wins, and at each level, once its
//! children are exhausted, the level's own canonical candidate path is
//! probed too. The caller hands the library a listing of the runtime
//! directory, in directory order.

use crate::tree::{dir_seq_wf, find_entry, has_name, node_wf, FsEntry, FsNode};
use vstd::prelude::*;
use vstd::string::StrSliceExecFns;
use vstd::string::StringSliceAdditionalSpecFns;

verus! {

/// Whether something (file or directory) sits at `path[i..]` under `es`.
pub open spec fn spec_path_exists(es: Seq<FsEntry>, path: Seq<Seq<u8>>, i: int) -> bool
    decreases path.len() - i,
{
    if i < 0 || i >= path.len() {
        true
    } else {
        exists|j: int|
            0 <= j < es.len() && es[j].name@ == path[i] && (i == path.len() - 1 || (es[j].node
                is Dir && spec_path_exists(es[j].node->entries@, path, i + 1)))
    }
}

pub fn path_exists(es: &Vec<FsEntry>, path: &Vec<Vec<u8>>, i: usize) -> (r: bool)
    requires
        dir_seq_wf(es@),
        i <= path@.len(),
    ensures
        r == spec_path_exists(es@, crate::tree::path_views(path@), i as int),
    decreases path@.len() - i,
{
    let ghost pv = crate::tree::path_views(path@);
    if i == path.len() {
        return true;
    }
    proof {
        assert(pv[i as int] == path@[i as int]@);
    }
    match find_entry(es, &path[i]) {
        Option::None => {
            proof {
                assert(!has_name(es@, pv[i as int]));
            }
            false
        },
        Option::Some(j) => {
            if i + 1 == path.len() {
                proof {
                    assert(spec_path_exists(es@, pv, i as int));
                }
                true
            } else {
                match &es[j].node {
                    FsNode::Dir { entries } => {
                        proof {
                            assert(node_wf(es@[j as int].node));
                        }
                        let sub = path_exists(entries, path, i + 1);
                        proof {
                            if sub {
                                assert(spec_path_exists(es@, pv, i as int));
                            } else {
                                assert forall|j2: int|
                                    !(0 <= j2 < es@.len() && es@[j2].name@ == pv[i as int] && (i
                                        == pv.len() - 1 || (es@[j2].node is Dir && spec_path_exists(
                                        es@[j2].node->entries@,
                                        pv,
                                        i + 1,
                                    )))) by {
                                    if 0 <= j2 < es@.len() && es@[j2].name@ == pv[i as int] {
                                        assert(j2 == j) by {
                                            if j2 != j {
                                                assert(es@[j2].name@ != es@[j as int].name@);
                                            }
                                        }
                                    }
                                }
                            }
                        }
                        sub
                    },
                    FsNode::File { .. } => {
                        proof {
                            assert forall|j2: int|
                                !(0 <= j2 < es@.len() && es@[j2].name@ == pv[i as int] && (i
                                    == pv.len() - 1 || (es@[j2].node is Dir && spec_path_exists(
                                    es@[j2].node->entries@,
                                    pv,
                                    i + 1,
                                )))) by {
                                if 0 <= j2 < es@.len() && es@[j2].name@ == pv[i as int] {
                                    assert(j2 == j) by {
                                        if j2 != j {
                                            assert(es@[j2].name@ != es@[j as int].name@);
                                        }
                                    }
                                }
                            }
                        }
                        false
                    },
                }
            }
        },
    }
}

/// The depth-first search for the interpreter binary, from child `i` on:
/// directories are descended into first-to-last, a file named `node` or
/// `node.exe` anywhere wins, and once a level's children are exhausted the
/// level's own `target` candidate path is probed. The result is the found
/// path, relative to `es`.
pub open spec fn spec_search_from(es: Seq<FsEntry>, target: Seq<Seq<u8>>, i: int) -> Option<
    Seq<Seq<u8>>,
>
    decreases es, es.len() - i,
{
    if i < 0 || i >= es.len() {
        if spec_path_exists(es, target, 0) {
            Option::Some(target)
        } else {
            Option::None
        }
    } else {
        match es[i].node {
            FsNode::Dir { entries } => match spec_search_from(entries@, target, 0) {
                Option::Some(p) => Option::Some(seq![es[i].name@] + p),
                Option::None => spec_search_from(es, target, i + 1),
            },
            FsNode::File { .. } => {
                if es[i].name@ == "node".spec_bytes() || es[i].name@ == "node.exe".spec_bytes() {
                    Option::Some(seq![es[i].name@])
                } else {
                    spec_search_from(es, target, i + 1)
                }
            },
        }
    }
}

/// Searches the runtime tree for the interpreter binary, exactly as
/// `spec_search_from` describes.
pub fn search_node_binary(es: &Vec<FsEntry>, target: &Vec<Vec<u8>>, i: usize) -> (r: Option<
    Vec<Vec<u8>>,
>)
    requires
        dir_seq_wf(es@),
        i <= es@.len(),
    ensures
        match r {
            Option::Some(p) => spec_search_from(
                es@,
                crate::tree::path_views(target@),
                i as int,
            ) == Option::Some(p@.map_values(|c: Vec<u8>| c@)),
            Option::None => spec_search_from(es@, crate::tree::path_views(target@), i as int)
                is None,
        },
    decreases es@, es@.len() - i,
{
    let ghost tv = crate::tree::path_views(target@);
    if i == es.len() {
        if path_exists(es, target, 0) {
            return Option::Some(clone_path(target));
        } else {
            return Option::None;
        }
    }
    proof {
        assert(node_wf(es@[i as int].node));
    }
    match &es[i].node {
        FsNode::Dir { entries } => {
            match search_node_binary(entries, target, 0) {
                Option::Some(p) => {
                    let mut out = p;
                    let ghost out0 = out@;
                    let ghost rm = out@.map_values(|c: Vec<u8>| c@);
                    let nm = es[i].name.clone();
                    out.insert(0, nm);
                    proof {
                        assert(out@ == out0.insert(0, nm));
                        assert forall|k: int|
                            0 <= k < out@.len() implies out@.map_values(|c: Vec<u8>| c@)[k] == (seq![
                            es@[i as int].name@,
                        ] + rm)[k] by {
                            if k > 0 {
                                assert(out0.insert(0, nm)[k] == out0[k - 1]);
                            }
                        }
                        assert(out@.map_values(|c: Vec<u8>| c@) =~= seq![es@[i as int].name@] + rm);
                    }
                    Option::Some(out)
                },
                Option::None => search_node_binary(es, target, i + 1),
            }
        },
        FsNode::File { .. } => {
            let nm = &es[i].name;
            if crate::bytes::bytes_eq(nm, &("node").as_bytes_vec()) || crate::bytes::bytes_eq(
                nm,
                &("node.exe").as_bytes_vec(),
            ) {
                let mut out: Vec<Vec<u8>> = Vec::new();
                out.push(nm.clone());
                proof {
                    assert(out@.map_values(|c: Vec<u8>| c@) =~= seq![es@[i as int].name@]);
                }
                Option::Some(out)
            } else {
                search_node_binary(es, target, i + 1)
            }
        },
    }
}

fn clone_path(p: &Vec<Vec<u8>>) -> (r: Vec<Vec<u8>>)
    ensures
        r@.map_values(|c: Vec<u8>| c@) == crate::tree::path_views(p@),
        r@.len() == p@.len(),
{
    let mut out: Vec<Vec<u8>> = Vec::new();
    let n = p.len();
    for i in 0..n
        invariant
            n == p.len(),
            out@.len() == i,
            forall|k: int| 0 <= k < i ==> out@[k]@ == p@[k]@,
    {
        out.push(p[i].clone());
    }
    proof {
        assert(out@.map_values(|c: Vec<u8>| c@) =~= crate::tree::path_views(p@));
    }
    out
}

/// The canonical relative path of the interpreter binary for the platform.
pub open spec fn spec_direct_path(windows: bool) -> Seq<Seq<u8>> {
    if windows {
        seq!["node.exe".spec_bytes()]
    } else {
        seq!["bin".spec_bytes(), "node".spec_bytes()]
    }
}

/// Where, relative to the runtime root, the interpreter binary resolves:
/// the canonical path when something exists there; else the depth-first
/// search's find; else the canonical path again, as the place the caller
/// will report as missing.
pub open spec fn spec_node_binary_path(es: Seq<FsEntry>, windows: bool) -> Seq<Seq<u8>> {
    let direct = spec_direct_path(windows);
    if spec_path_exists(es, direct, 0) {
        direct
    } else {
        match spec_search_from(es, direct, 0) {
            Option::Some(p) => p,
            Option::None => direct,
        }
    }
}

/// Resolves the interpreter binary inside the runtime tree `es` (the
/// listing of the runtime install directory): the canonical relative path
/// if it exists, otherwise the first find of the bounded depth-first
/// search, otherwise the canonical path itself.
pub fn get_node_binary_path(es: &Vec<FsEntry>, windows: bool) -> (r: Vec<Vec<u8>>)
    requires
        dir_seq_wf(es@),
    ensures
        r@.map_values(|c: Vec<u8>| c@) == spec_node_binary_path(es@, windows),
{
    let mut direct: Vec<Vec<u8>> = Vec::new();
    if windows {
        direct.push(("node.exe").as_bytes_vec());
    } else {
        direct.push(("bin").as_bytes_vec());
        direct.push(("node").as_bytes_vec());
    }
    proof {
        assert(crate::tree::path_views(direct@) =~= spec_direct_path(windows));
    }
    if path_exists(es, &direct, 0) {
        return direct;
    }
    match search_node_binary(es, &direct, 0) {
        Option::Some(p) => p,
        Option::None => direct,
    }
}

} // verus!
