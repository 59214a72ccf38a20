//! Archive handling: kind detection from the resource name, the listing of
//! an archive's entries (through the zip and tar crates), and the verified
//! placement of those entries into an in-memory tree.
//!
//! An entry whose name cannot be resolved to a safe relative path — an
//! absolute path, or one with empty, `.` or `..` components — is silently
//! skipped, so a crafted archive cannot write outside the destination and
//! still does not abort the whole extraction.

use crate::bytes::{
    ends_with, ends_with_spec, find_byte, first_byte, head_to, lemma_first_byte_props, lower_bytes,
    slice_range, tail_from, to_lower,
};
use crate::tree::{
    dir_insert, dir_seq_wf, dir_view, empty_dir_g, g_insert, path_views, FsEntry, GNode, TreeError,
};
use vstd::prelude::*;
use vstd::string::StrSliceExecFns;
use vstd::string::StringSliceAdditionalSpecFns;

verus! {

/// How a downloaded resource is unpacked, derived purely from the resource
/// name's suffix (case-insensitive, query string ignored) — deliberately
/// independent of the actual bytes.
#[derive(PartialEq, Eq, Structural, Clone, Copy, Debug)]
pub enum ArchiveKind {
    Zip,
    TarGz,
    /// A flat file: nothing to unpack.
    Flat,
}

/// Kind detection: the name up to any `?`, lower-cased; `.tar.gz` and
/// `.tgz` mean a gzipped tar archive, `.zip` a zip archive, anything else a
/// flat file.
pub open spec fn spec_archive_kind(url: Seq<u8>) -> ArchiveKind {
    let core = lower_bytes(url.take(first_byte(url, 63)));
    if ends_with_spec(core, ".tar.gz".spec_bytes()) || ends_with_spec(core, ".tgz".spec_bytes()) {
        ArchiveKind::TarGz
    } else if ends_with_spec(core, ".zip".spec_bytes()) {
        ArchiveKind::Zip
    } else {
        ArchiveKind::Flat
    }
}

pub fn archive_kind_of_url(url: &Vec<u8>) -> (r: ArchiveKind)
    ensures
        r == spec_archive_kind(url@),
{
    let q = find_byte(url, 63);
    let pure = head_to(url, q);
    let core = to_lower(&pure);
    if ends_with(&core, &(".tar.gz").as_bytes_vec()) || ends_with(&core, &(".tgz").as_bytes_vec()) {
        ArchiveKind::TarGz
    } else if ends_with(&core, &(".zip").as_bytes_vec()) {
        ArchiveKind::Zip
    } else {
        ArchiveKind::Flat
    }
}

/// Where a finished download goes: unpacked into a directory, or written
/// verbatim to a file.
#[derive(PartialEq, Eq, Structural, Clone, Copy, Debug)]
pub enum DownloadDisposition {
    ExtractToDir,
    WriteFile,
}

/// An archive aimed at a directory target is unpacked there; everything
/// else — a flat resource, or a destination that is a file path — is
/// written out verbatim.
pub fn download_plan(kind: ArchiveKind, dest_is_file: bool) -> (r: DownloadDisposition)
    ensures
        (r == DownloadDisposition::ExtractToDir) == (kind != ArchiveKind::Flat && !dest_is_file),
        (r == DownloadDisposition::WriteFile) == (kind == ArchiveKind::Flat || dest_is_file),
{
    if (match kind {
        ArchiveKind::Flat => false,
        _ => true,
    }) && !dest_is_file {
        DownloadDisposition::ExtractToDir
    } else {
        DownloadDisposition::WriteFile
    }
}

/// One entry as an archive lists it: its raw path, whether it is a
/// directory, and its content.
pub struct RawEntry {
    pub name: Vec<u8>,
    pub is_dir: bool,
    pub data: Vec<u8>,
}

pub open spec fn entry_view(e: RawEntry) -> (Seq<u8>, bool, Seq<u8>) {
    (e.name@, e.is_dir, e.data@)
}

/// The name split at every `/`.
pub open spec fn split_slash(s: Seq<u8>) -> Seq<Seq<u8>>
    decreases s.len(),
{
    let k = first_byte(s, 47);
    if 0 <= k < s.len() {
        seq![s.take(k)] + split_slash(s.skip(k + 1))
    } else {
        seq![s]
    }
}

pub fn split_slash_exec(s: &Vec<u8>) -> (r: Vec<Vec<u8>>)
    ensures
        r@.map_values(|c: Vec<u8>| c@) == split_slash(s@),
        r@.len() >= 1,
    decreases s@.len(),
{
    proof {
        lemma_first_byte_props(s@, 47);
    }
    let q = find_byte(s, 47);
    if q < s.len() {
        let head = head_to(s, q);
        let rest = tail_from(s, q + 1);
        let mut r = split_slash_exec(&rest);
        let ghost r_before = r@;
        let ghost rm = r@.map_values(|c: Vec<u8>| c@);
        r.insert(0, head);
        proof {
            assert(split_slash(s@) == seq![s@.take(q as int)] + split_slash(s@.skip(q + 1)));
            assert(r@ == r_before.insert(0, head));
            assert forall|k: int|
                0 <= k < r@.len() implies r@.map_values(|c: Vec<u8>| c@)[k] == (seq![
                    s@.take(q as int),
                ] + rm)[k] by {
                if k > 0 {
                    assert(r_before.insert(0, head)[k] == r_before[k - 1]);
                }
            }
            assert(r@.map_values(|c: Vec<u8>| c@) =~= seq![s@.take(q as int)] + rm);
        }
        r
    } else {
        let mut out: Vec<Vec<u8>> = Vec::new();
        out.push(slice_range(s, 0, s.len()));
        proof {
            assert(s@.subrange(0, s@.len() as int) =~= s@);
            assert(out@.map_values(|c: Vec<u8>| c@) =~= seq![s@]);
        }
        out
    }
}

/// A path component an entry may safely carry: non-empty, and neither `.`
/// nor `..`.
pub open spec fn valid_comp(c: Seq<u8>) -> bool {
    c.len() > 0 && c != ".".spec_bytes() && c != "..".spec_bytes()
}

/// Every component of the split name is one an entry may safely carry.
pub open spec fn all_valid_comps(segs: Seq<Seq<u8>>) -> bool {
    forall|i: int| 0 <= i < segs.len() ==> valid_comp(#[trigger] segs[i])
}

/// The safe relative path of an entry name: its `/`-separated components
/// (a trailing `/`, marking a directory, is dropped and remembered), or
/// nothing when the name is empty, absolute, or escapes via `.`/`..`.
pub open spec fn spec_safe_components(name: Seq<u8>) -> Option<(Seq<Seq<u8>>, bool)> {
    let raw = split_slash(name);
    let trailing = name.len() > 0 && name.last() == 47;
    let segs = if trailing {
        raw.drop_last()
    } else {
        raw
    };
    if segs.len() > 0 && all_valid_comps(segs) {
        Option::Some((segs, trailing))
    } else {
        Option::None
    }
}

#[verifier::loop_isolation(false)]
pub fn safe_components(name: &Vec<u8>) -> (r: Option<(Vec<Vec<u8>>, bool)>)
    ensures
        match r {
            Option::Some(p) => spec_safe_components(name@) == Option::Some(
                (p.0@.map_values(|c: Vec<u8>| c@), p.1),
            ),
            Option::None => spec_safe_components(name@) is None,
        },
{
    let mut raw = split_slash_exec(name);
    let ghost raw0 = raw@.map_values(|c: Vec<u8>| c@);
    let trailing = name.len() > 0 && name[name.len() - 1] == 47;
    if trailing {
        let ghost before = raw@;
        raw.pop();
        proof {
            assert(raw@ == before.drop_last());
            assert forall|k: int|
                0 <= k < raw@.len() implies raw@.map_values(|c: Vec<u8>| c@)[k]
                == raw0.drop_last()[k] by {
                assert(raw@[k] == before[k]);
            }
            assert(raw@.map_values(|c: Vec<u8>| c@) =~= raw0.drop_last());
        }
    }
    let ghost segs = raw@.map_values(|c: Vec<u8>| c@);
    proof {
        assert(segs == if trailing {
            split_slash(name@).drop_last()
        } else {
            split_slash(name@)
        });
        assert(trailing == (name@.len() > 0 && name@.last() == 47));
    }
    if raw.len() == 0 {
        proof {
            assert(spec_safe_components(name@) is None);
        }
        return Option::None;
    }
    let dot = (".").as_bytes_vec();
    let dotdot = ("..").as_bytes_vec();
    let n = raw.len();
    for i in 0..n
        invariant
            n == raw.len(),
            segs == raw@.map_values(|c: Vec<u8>| c@),
            forall|j: int| 0 <= j < i ==> valid_comp(#[trigger] segs[j]),
    {
        let c = &raw[i];
        if c.len() == 0 || crate::bytes::bytes_eq(c, &dot) || crate::bytes::bytes_eq(c, &dotdot) {
            proof {
                assert(!valid_comp(segs[i as int]));
                assert(0 <= i < segs.len());
                assert(!all_valid_comps(segs));
                assert(spec_safe_components(name@) is None);
            }
            return Option::None;
        }
    }
    proof {
        assert(all_valid_comps(segs));
    }
    Option::Some((raw, trailing))
}

/// What placing one listed entry does to the tree: an unsafe name is
/// skipped; a directory entry (by flag or trailing slash) places a
/// directory; anything else places a file with the entry's content.
pub open spec fn spec_apply_entry(g: GNode, t: (Seq<u8>, bool, Seq<u8>)) -> Option<GNode> {
    match spec_safe_components(t.0) {
        Option::None => Option::Some(g),
        Option::Some(p) => {
            if t.1 || p.1 {
                g_insert(g, p.0, Option::None)
            } else {
                g_insert(g, p.0, Option::Some(t.2))
            }
        },
    }
}

/// The tree a listing builds, entry by entry in listing order; `None` on a
/// placement conflict.
pub open spec fn spec_build_list(
    list: Seq<(Seq<u8>, bool, Seq<u8>)>,
    i: int,
    g: GNode,
) -> Option<GNode>
    decreases list.len() - i,
{
    if i < 0 || i >= list.len() {
        Option::Some(g)
    } else {
        match spec_apply_entry(g, list[i]) {
            Option::None => Option::None,
            Option::Some(g2) => spec_build_list(list, i + 1, g2),
        }
    }
}

/// Builds the in-memory tree of a listing's entries, in listing order:
/// exactly the `spec_build_list` fold over the tree's mathematical view.
#[verifier::loop_isolation(false)]
pub fn build_tree(entries: Vec<RawEntry>) -> (r: Result<Vec<FsEntry>, TreeError>)
    ensures
        ({
            let lv = entries@.map_values(|e: RawEntry| entry_view(e));
            match r {
                Result::Ok(root) => {
                    &&& dir_seq_wf(root@)
                    &&& spec_build_list(lv, 0, empty_dir_g()) == Option::Some(
                        GNode::Dir { children: dir_view(root@) },
                    )
                },
                Result::Err(_) => spec_build_list(lv, 0, empty_dir_g()) is None,
            }
        }),
{
    let ghost lv = entries@.map_values(|e: RawEntry| entry_view(e));
    let mut todo = entries;
    let mut root: Vec<FsEntry> = Vec::new();
    let ghost mut d: int = 0;
    proof {
        assert(todo@ =~= entries@.skip(0));
        assert(dir_view(root@) =~= Map::<Seq<u8>, GNode>::empty());
        assert(spec_build_list(lv, 0, GNode::Dir { children: dir_view(root@) }) == spec_build_list(
            lv,
            0,
            empty_dir_g(),
        ));
    }
    while todo.len() > 0
        invariant
            0 <= d <= entries@.len(),
            todo@ == entries@.skip(d),
            dir_seq_wf(root@),
            spec_build_list(lv, d, GNode::Dir { children: dir_view(root@) }) == spec_build_list(
                lv,
                0,
                empty_dir_g(),
            ),
        decreases todo@.len(),
    {
        let e = todo.remove(0);
        proof {
            assert(entries@.skip(d)[0] == entries@[d]);
            assert(todo@ =~= entries@.skip(d + 1));
            assert(lv[d] == entry_view(entries@[d]));
        }
        let ghost g_before = GNode::Dir { children: dir_view(root@) };
        match safe_components(&e.name) {
            Option::None => {
                proof {
                    assert(spec_apply_entry(g_before, lv[d]) == Option::Some(g_before));
                    d = d + 1;
                }
            },
            Option::Some((comps, trailing)) => {
                let leaf: Option<Vec<u8>> = if e.is_dir || trailing {
                    Option::None
                } else {
                    Option::Some(e.data)
                };
                proof {
                    assert(path_views(comps@).skip(0) =~= comps@.map_values(|c: Vec<u8>| c@));
                }
                match dir_insert(root, &comps, 0, leaf) {
                    Result::Ok(r2) => {
                        root = r2;
                        proof {
                            assert(spec_apply_entry(g_before, lv[d]) == Option::Some(
                                GNode::Dir { children: dir_view(root@) },
                            ));
                            d = d + 1;
                        }
                    },
                    Result::Err(er) => {
                        proof {
                            assert(spec_apply_entry(g_before, lv[d]) is None);
                            assert(spec_build_list(lv, 0, empty_dir_g()) is None);
                        }
                        return Result::Err(er);
                    },
                }
            },
        }
    }
    proof {
        assert(d == lv.len());
    }
    Result::Ok(root)
}

/// An entry that lives inside the top-level wrapper directory `w`: its safe
/// path starts with `w`, and it does not itself make `w` a file.
pub open spec fn under_wrapper(t: (Seq<u8>, bool, Seq<u8>), w: Seq<u8>) -> bool {
    spec_safe_components(t.0) matches Option::Some(p) && p.0.len() >= 1 && p.0[0] == w && (t.1
        || p.1 || p.0.len() >= 2)
}

/// A tree whose root holds at most the single directory child `w`.
pub open spec fn rooted_in(g: GNode, w: Seq<u8>) -> bool {
    g matches GNode::Dir { children } && children.dom().subset_of(set![w]) && (
    children.dom().contains(w) ==> children[w] is Dir)
}

proof fn lemma_g_insert_keeps_dir(g: GNode, path: Seq<Seq<u8>>, leaf: Option<Seq<u8>>)
    requires
        g is Dir,
        g_insert(g, path, leaf) is Some,
    ensures
        g_insert(g, path, leaf)->0 is Dir,
{
}

proof fn lemma_g_insert_rooted(g: GNode, path: Seq<Seq<u8>>, leaf: Option<Seq<u8>>, w: Seq<u8>)
    requires
        rooted_in(g, w),
        path.len() >= 1,
        path[0] == w,
        leaf is Some ==> path.len() >= 2,
        g_insert(g, path, leaf) is Some,
    ensures
        rooted_in(g_insert(g, path, leaf)->0, w),
        g_insert(g, path, leaf)->0->children.dom().contains(w),
        g->children.dom().subset_of(g_insert(g, path, leaf)->0->children.dom()),
{
    let children = g->children;
    let sub = if children.dom().contains(path[0]) {
        children[path[0]]
    } else {
        empty_dir_g()
    };
    assert(sub is Dir);
    let r = g_insert(sub, path.drop_first(), leaf);
    assert(r is Some);
    lemma_g_insert_keeps_dir(sub, path.drop_first(), leaf);
    let g2 = g_insert(g, path, leaf)->0;
    assert(g2 == GNode::Dir { children: children.insert(w, r->0) });
    assert forall|x: Seq<u8>| g2->children.dom().contains(x) implies set![w].contains(x) by {
        if x != w {
            assert(children.dom().contains(x));
        }
    }
}

proof fn lemma_build_rooted(list: Seq<(Seq<u8>, bool, Seq<u8>)>, i: int, g: GNode, w: Seq<u8>)
    requires
        0 <= i <= list.len(),
        rooted_in(g, w),
        forall|j: int| i <= j < list.len() ==> under_wrapper(#[trigger] list[j], w),
        spec_build_list(list, i, g) is Some,
    ensures
        rooted_in(spec_build_list(list, i, g)->0, w),
        g->children.dom().subset_of(spec_build_list(list, i, g)->0->children.dom()),
        i < list.len() ==> spec_build_list(list, i, g)->0->children.dom().contains(w),
    decreases list.len() - i,
{
    if i < list.len() {
        let t = list[i];
        assert(under_wrapper(t, w));
        let step = spec_apply_entry(g, t);
        assert(step is Some);
        let p = spec_safe_components(t.0)->0;
        let leaf: Option<Seq<u8>> = if t.1 || p.1 {
            Option::None
        } else {
            Option::Some(t.2)
        };
        assert(step == g_insert(g, p.0, leaf));
        lemma_g_insert_rooted(g, p.0, leaf, w);
        lemma_build_rooted(list, i + 1, step->0, w);
    }
}

/// A non-empty listing whose entries all live inside one non-hidden wrapper
/// directory builds a tree with exactly that one child at the root — and
/// flattening such a tree yields exactly the wrapper's children, name for
/// name and content for content.
pub proof fn lemma_single_wrapper_listing(
    list: Seq<(Seq<u8>, bool, Seq<u8>)>,
    w: Seq<u8>,
    es: Seq<FsEntry>,
)
    requires
        list.len() > 0,
        forall|j: int| 0 <= j < list.len() ==> under_wrapper(#[trigger] list[j], w),
        !crate::bytes::is_hidden_name(w),
        crate::tree::dir_seq_wf(es),
        spec_build_list(list, 0, empty_dir_g()) == Option::Some(
            GNode::Dir { children: dir_view(es) },
        ),
    ensures
        es.len() == 1,
        es[0].name@ == w,
        crate::tree::is_wrapper_entry(es[0]),
        crate::tree::flatten_result(es) == es[0].node->entries@,
{
    assert(rooted_in(empty_dir_g(), w));
    lemma_build_rooted(list, 0, empty_dir_g(), w);
    let children = dir_view(es);
    assert(children.dom().contains(w));
    crate::tree::lemma_dir_view_dom(es, w);
    assert(crate::tree::has_name(es, w));
    assert(es.len() >= 1);
    if es.len() >= 2 {
        crate::tree::lemma_dir_view_dom(es, es[0].name@);
        crate::tree::lemma_dir_view_dom(es, es[1].name@);
        assert(crate::tree::has_name(es, es[0].name@) && crate::tree::has_name(es, es[1].name@));
        assert(children.dom().contains(es[0].name@) && children.dom().contains(es[1].name@));
        assert(es[0].name@ == w && es[1].name@ == w);
        assert(false);
    }
    assert(es[0].name@ == w) by {
        assert(crate::tree::has_name(es, es[0].name@));
        crate::tree::lemma_dir_view_dom(es, es[0].name@);
    }
    crate::tree::lemma_dir_view_get(es, 0);
    assert(children[w] == crate::tree::node_view(es[0].node));
    assert(children[w] is Dir);
    assert(es[0].node is Dir) by {
        if es[0].node is File {
            assert(crate::tree::node_view(es[0].node) is File);
        }
    }
    crate::tree::lemma_flatten_single_wrapper(es);
}

/// The listing of a zip archive's entries, in archive order: a function of
/// the archive bytes alone; `None` when the bytes are not a readable zip
/// archive.
pub uninterp spec fn zip_entries(data: Seq<u8>) -> Option<Seq<(Seq<u8>, bool, Seq<u8>)>>;

/// Relies on zip's `ZipArchive` (`new`, `len`, `by_index`) and each entry's
/// `name`, `is_dir` and content: lists every entry with its raw path,
/// directory flag and decompressed bytes, in archive order.
#[verifier::external_body]
fn zip_entry_list(data: &Vec<u8>) -> (r: Option<Vec<RawEntry>>)
    ensures
        match r {
            Option::Some(v) => zip_entries(data@) == Option::Some(
                v@.map_values(|e: RawEntry| entry_view(e)),
            ),
            Option::None => zip_entries(data@) is None,
        },
{
    let mut archive = zip::ZipArchive::new(std::io::Cursor::new(data.as_slice())).ok()?;
    let mut out = Vec::new();
    for i in 0..archive.len() {
        let mut f = archive.by_index(i).ok()?;
        let name = f.name().as_bytes().to_vec();
        let is_dir = f.is_dir();
        let mut content = Vec::new();
        std::io::Read::read_to_end(&mut f, &mut content).ok()?;
        out.push(RawEntry { name, is_dir, data: content });
    }
    Some(out)
}

/// The listing of a gzipped tar archive's entries, in archive order: a
/// function of the archive bytes alone; `None` when the bytes are not a
/// readable gzipped tar stream.
pub uninterp spec fn tgz_entries(data: Seq<u8>) -> Option<Seq<(Seq<u8>, bool, Seq<u8>)>>;

/// Relies on flate2's `GzDecoder` and tar's `Archive` (`entries`, each
/// entry's `path_bytes`, `entry_type` and content): lists every entry with
/// its raw path, directory flag and unpacked bytes, in archive order.
#[verifier::external_body]
fn tgz_entry_list(data: &Vec<u8>) -> (r: Option<Vec<RawEntry>>)
    ensures
        match r {
            Option::Some(v) => tgz_entries(data@) == Option::Some(
                v@.map_values(|e: RawEntry| entry_view(e)),
            ),
            Option::None => tgz_entries(data@) is None,
        },
{
    let gz = flate2::read::GzDecoder::new(std::io::Cursor::new(data.as_slice()));
    let mut archive = tar::Archive::new(gz);
    let mut out = Vec::new();
    for entry in archive.entries().ok()? {
        let mut e = entry.ok()?;
        let name = e.path_bytes().to_vec();
        let is_dir = e.header().entry_type().is_dir();
        let mut content = Vec::new();
        std::io::Read::read_to_end(&mut e, &mut content).ok()?;
        out.push(RawEntry { name, is_dir, data: content });
    }
    Some(out)
}

/// Why an archive could not be turned into a tree.
#[derive(PartialEq, Eq, Structural, Clone, Copy, Debug)]
pub enum ExtractError {
    /// The bytes are not a readable archive of the declared kind.
    BadArchive,
    /// Two entries place incompatible things at one path.
    Conflict,
}

/// The declared kind's listing of the archive bytes.
pub open spec fn spec_listing(data: Seq<u8>, kind: ArchiveKind) -> Option<
    Seq<(Seq<u8>, bool, Seq<u8>)>,
> {
    match kind {
        ArchiveKind::Zip => zip_entries(data),
        ArchiveKind::TarGz => tgz_entries(data),
        ArchiveKind::Flat => Option::None,
    }
}

/// Unpacks archive bytes of the declared kind into an in-memory tree: the
/// listing's entries placed in order, path-traversal-unsafe names skipped.
/// The flattening pass is a separate, explicit step.
pub fn extract_archive(data: &Vec<u8>, kind: ArchiveKind) -> (r: Result<Vec<FsEntry>, ExtractError>)
    requires
        kind != ArchiveKind::Flat,
    ensures
        match r {
            Result::Ok(root) => {
                &&& spec_listing(data@, kind) matches Option::Some(l) && spec_build_list(
                    l,
                    0,
                    empty_dir_g(),
                ) == Option::Some(GNode::Dir { children: dir_view(root@) })
                &&& dir_seq_wf(root@)
            },
            Result::Err(ExtractError::BadArchive) => spec_listing(data@, kind) is None,
            Result::Err(ExtractError::Conflict) => spec_listing(data@, kind) matches Option::Some(
                l,
            ) && spec_build_list(l, 0, empty_dir_g()) is None,
        },
{
    let listed: Option<Vec<RawEntry>> = match kind {
        ArchiveKind::Zip => zip_entry_list(data),
        ArchiveKind::TarGz => tgz_entry_list(data),
        ArchiveKind::Flat => vstd::pervasive::unreached(),
    };
    match listed {
        Option::None => Result::Err(ExtractError::BadArchive),
        Option::Some(entries) => {
            match build_tree(entries) {
                Result::Ok(root) => Result::Ok(root),
                Result::Err(_) => Result::Err(ExtractError::Conflict),
            }
        },
    }
}

} // verus!
