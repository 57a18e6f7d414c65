//! The path index builder: a depth-first pre-order walk of the sourcemap
//! tree. Each node's logical path is its parent's logical path, a dot, and
//! its own name; the root keeps only the last dot-separated component of its
//! name. A node's first file reference is canonicalized and recorded in both
//! directions of the index; every further reference ending in the
//! project-descriptor suffix marks the node's file as a sub-project root.

use vstd::prelude::*;
use vstd::string::*;
use crate::maps::{assoc, lemma_assoc_push, SourcemapData};
use crate::strutil::{
    dot_join2,
    is_suffix_of,
    split_dots,
    split_dots_exec,
    str_ends_with,
};

verus! {

/// One node of the externally supplied sourcemap tree.
pub struct SourcemapNode {
    pub name: String,
    pub children: Vec<SourcemapNode>,
    pub file_paths: Vec<String>,
}

/// The logical path of a node reached with accumulated path `acc`: the root
/// (empty `acc`) keeps the last dot-separated component of its own name;
/// every other node appends `'.'` and its name to its parent's path.
pub open spec fn node_acc(acc: Seq<char>, name: Seq<char>) -> Seq<char> {
    if acc.len() == 0 {
        split_dots(name).last()
    } else {
        acc + seq!['.'] + name
    }
}

/// How many file references beyond index 0, counted from position `i`, end
/// in the project-descriptor suffix.
pub open spec fn marks_from(fps: Seq<Seq<char>>, i: int) -> int
    decreases fps.len() - i,
{
    if !(0 <= i < fps.len()) {
        0
    } else {
        (if is_suffix_of(".project.json"@, fps[i]) {
            1int
        } else {
            0int
        }) + marks_from(fps, i + 1)
    }
}

/// What one node contributes to the index: its logical path, its primary
/// file reference, and its count of project marks — nothing if it carries no
/// file reference.
pub open spec fn own_entry(n: SourcemapNode, acc: Seq<char>) -> Seq<(Seq<char>, Seq<char>, int)> {
    if n.file_paths@.len() > 0 {
        seq![
            (
                node_acc(acc, n.name@),
                n.file_paths.deep_view()[0],
                marks_from(n.file_paths.deep_view(), 1),
            ),
        ]
    } else {
        Seq::<(Seq<char>, Seq<char>, int)>::empty()
    }
}

/// All entries of the subtree rooted at `n`, in depth-first pre-order.
pub open spec fn spec_entries(n: SourcemapNode, acc: Seq<char>) -> Seq<(Seq<char>, Seq<char>, int)>
    decreases n, 0int,
{
    own_entry(n, acc) + children_entries(n.children@, node_acc(acc, n.name@), 0)
}

/// The entries of the children of one node, from child `i` on.
pub open spec fn children_entries(cs: Seq<SourcemapNode>, p: Seq<char>, i: int) -> Seq<
    (Seq<char>, Seq<char>, int),
>
    decreases cs, cs.len() - i,
{
    if !(0 <= i < cs.len()) {
        Seq::<(Seq<char>, Seq<char>, int)>::empty()
    } else {
        spec_entries(cs[i], p) + children_entries(cs, p, i + 1)
    }
}

/// The node addressed by the child-index sequence `addr` below `n`.
pub open spec fn node_at(n: SourcemapNode, addr: Seq<int>) -> Option<SourcemapNode>
    decreases addr.len(),
{
    if addr.len() == 0 {
        Some(n)
    } else if 0 <= addr[0] < n.children@.len() {
        node_at(n.children@[addr[0]], addr.drop_first())
    } else {
        None
    }
}

/// The logical path of the node addressed by `addr`, when `n` itself is
/// reached with accumulated prefix `acc`.
pub open spec fn path_at(n: SourcemapNode, acc: Seq<char>, addr: Seq<int>) -> Seq<char>
    decreases addr.len(),
{
    let p = node_acc(acc, n.name@);
    if addr.len() == 0 || !(0 <= addr[0] < n.children@.len()) {
        p
    } else {
        path_at(n.children@[addr[0]], p, addr.drop_first())
    }
}

/// The root's logical path is the last dot-separated component of its own
/// name.
pub proof fn lemma_root_logical_path(n: SourcemapNode)
    ensures
        path_at(n, Seq::<char>::empty(), Seq::<int>::empty()) == split_dots(n.name@).last(),
{
}

/// Every non-root node's logical path is its parent's logical path, a dot,
/// and its own name verbatim — for every tree whose root path is nonempty.
pub proof fn lemma_child_logical_path(n: SourcemapNode, acc: Seq<char>, addr: Seq<int>, i: int)
    requires
        node_acc(acc, n.name@).len() > 0,
        node_at(n, addr) is Some,
        0 <= i < node_at(n, addr)->0.children@.len(),
    ensures
        node_at(n, addr.push(i)) is Some,
        node_at(n, addr.push(i))->0 == node_at(n, addr)->0.children@[i],
        path_at(n, acc, addr.push(i)) == path_at(n, acc, addr) + seq!['.'] + node_at(
            n,
            addr.push(i),
        )->0.name@,
    decreases addr.len(),
{
    let p = node_acc(acc, n.name@);
    if addr.len() == 0 {
        assert(addr.push(i)[0] == i);
        assert(addr.push(i).drop_first() =~= Seq::<int>::empty());
        assert(node_at(n, addr)->0 == n);
        assert(node_at(n.children@[i], Seq::<int>::empty()) == Some(n.children@[i]));
        assert(node_at(n, addr.push(i)) == node_at(n.children@[i], addr.push(i).drop_first()));
        assert(path_at(n.children@[i], p, Seq::<int>::empty()) == node_acc(
            p,
            n.children@[i].name@,
        ));
        assert(path_at(n, acc, addr.push(i)) == path_at(
            n.children@[i],
            p,
            addr.push(i).drop_first(),
        ));
        assert(path_at(n, acc, addr.push(i)) == node_acc(p, n.children@[i].name@));
    } else {
        assert(0 <= addr[0] < n.children@.len());
        assert(addr.push(i)[0] == addr[0]);
        assert(addr.push(i).drop_first() =~= addr.drop_first().push(i));
        lemma_child_logical_path(n.children@[addr[0]], p, addr.drop_first(), i);
    }
}

/// One collected index entry, before filesystem resolution.
pub struct RawEntry {
    pub logical: String,
    pub file_ref: String,
    pub project_marks: usize,
}

impl View for RawEntry {
    type V = (Seq<char>, Seq<char>, int);

    open spec fn view(&self) -> (Seq<char>, Seq<char>, int) {
        (self.logical@, self.file_ref@, self.project_marks as int)
    }
}

impl DeepView for RawEntry {
    type V = (Seq<char>, Seq<char>, int);

    open spec fn deep_view(&self) -> (Seq<char>, Seq<char>, int) {
        self@
    }
}

/// Walks the subtree rooted at `node`, whose accumulated logical path prefix
/// is `acc`, and appends one `RawEntry` per node that carries a file
/// reference, in depth-first pre-order.
pub fn collect_entries(node: &SourcemapNode, acc: &str, out: &mut Vec<RawEntry>)
    ensures
        final(out).deep_view() == old(out).deep_view() + spec_entries(*node, acc@),
    decreases *node,
{
    let p: String = if acc.is_empty() {
        let parts = split_dots_exec(node.name.as_str());
        let last = parts[parts.len() - 1].clone();
        proof {
            assert(last@ == split_dots(node.name@).last());
        }
        last
    } else {
        dot_join2(acc, node.name.as_str())
    };
    proof {
        assert(p@ == node_acc(acc@, node.name@));
    }
    if node.file_paths.len() > 0 {
        let mut marks: usize = 0;
        let mut k: usize = 1;
        while k < node.file_paths.len()
            invariant
                1 <= k,
                marks <= k,
                k <= node.file_paths.len() || node.file_paths.len() < 1,
                marks + marks_from(node.file_paths.deep_view(), k as int) == marks_from(
                    node.file_paths.deep_view(),
                    1,
                ),
            decreases node.file_paths.len() - k,
        {
            proof {
                assert(node.file_paths.deep_view()[k as int] == node.file_paths@[k as int]@);
            }
            if str_ends_with(node.file_paths[k].as_str(), ".project.json") {
                marks += 1;
            }
            k += 1;
        }
        let ghost dv0 = out.deep_view();
        out.push(
            RawEntry {
                logical: p.clone(),
                file_ref: node.file_paths[0].clone(),
                project_marks: marks,
            },
        );
        proof {
            assert(out.deep_view() =~= dv0.push(
                (p@, node.file_paths.deep_view()[0], marks as int),
            ));
            assert(out.deep_view() =~= old(out).deep_view() + own_entry(*node, acc@));
        }
    } else {
        proof {
            assert(out.deep_view() =~= old(out).deep_view() + own_entry(*node, acc@));
        }
    }
    let ghost base = old(out).deep_view() + own_entry(*node, acc@);
    let mut i: usize = 0;
    while i < node.children.len()
        invariant
            i <= node.children.len(),
            out.deep_view() + children_entries(node.children@, p@, i as int) =~= base
                + children_entries(node.children@, p@, 0),
            p@ == node_acc(acc@, node.name@),
        decreases node.children.len() - i,
    {
        proof {
            assert(decreases_to!(*node => node.children));
            assert(decreases_to!(node.children => node.children@));
            assert(decreases_to!(node.children@ => node.children@[i as int]));
        }
        collect_entries(&node.children[i], p.as_str(), out);
        proof {
            assert(out.deep_view() + children_entries(node.children@, p@, i + 1) =~= base
                + children_entries(node.children@, p@, 0));
        }
        i += 1;
    }
    proof {
        assert(children_entries(node.children@, p@, node.children@.len() as int)
            =~= Seq::<(Seq<char>, Seq<char>, int)>::empty());
        assert(out.deep_view() =~= base + children_entries(node.children@, p@, 0));
        assert(out.deep_view() =~= old(out).deep_view() + spec_entries(*node, acc@));
    }
}

/// A fatal index-build failure: a file reference in the sourcemap that could
/// not be resolved to an existing filesystem entry, named unambiguously.
pub struct BuildError {
    pub file_ref: String,
    pub detail: String,
}

/// Relies on dunce::canonicalize: resolves `rel` against `base` into an
/// absolute, symlink-normalized path. What comes back depends on the
/// filesystem, so nothing is promised of the result.
#[verifier::external_body]
fn canonicalize_in(base: &str, rel: &str) -> Result<String, String> {
    match dunce::canonicalize(std::path::Path::new(base).join(rel)) {
        Ok(p) => match p.to_str() {
            Some(s) => Ok(s.to_owned()),
            None => Err("canonical path is not valid UTF-8".to_owned()),
        },
        Err(e) => Err(format!("{}", e)),
    }
}

/// One build step: record the pair if both keys are fresh (the first record
/// wins), and append the entry's resolved path to the project list once per
/// project mark either way.
pub open spec fn step_model(
    ro: Seq<(Seq<char>, Seq<char>)>,
    fsm: Seq<(Seq<char>, Seq<char>)>,
    prj: Seq<Seq<char>>,
    p: Seq<char>,
    f: Seq<char>,
    marks: int,
) -> (Seq<(Seq<char>, Seq<char>)>, Seq<(Seq<char>, Seq<char>)>, Seq<Seq<char>>) {
    let prj2 = prj + Seq::new(marks as nat, |i: int| f);
    if assoc(ro, p) is None && assoc(fsm, f) is None {
        (ro.push((p, f)), fsm.push((f, p)), prj2)
    } else {
        (ro, fsm, prj2)
    }
}

/// The whole build as a fold of `step_model` over the collected entries,
/// with `fss` the filesystem path each entry's file reference resolved to.
pub open spec fn build_model(
    ro: Seq<(Seq<char>, Seq<char>)>,
    fsm: Seq<(Seq<char>, Seq<char>)>,
    prj: Seq<Seq<char>>,
    es: Seq<(Seq<char>, Seq<char>, int)>,
    fss: Seq<Seq<char>>,
) -> (Seq<(Seq<char>, Seq<char>)>, Seq<(Seq<char>, Seq<char>)>, Seq<Seq<char>>)
    decreases es.len(),
{
    if es.len() == 0 {
        (ro, fsm, prj)
    } else {
        let s = step_model(ro, fsm, prj, es[0].0, fss[0], es[0].2);
        build_model(s.0, s.1, s.2, es.drop_first(), fss.drop_first())
    }
}

/// The maps after a build that consumed the first `k` collected entries,
/// with `fss` the filesystem paths those entries resolved to.
pub open spec fn build_prefix(
    ro0: Seq<(Seq<char>, Seq<char>)>,
    fs0: Seq<(Seq<char>, Seq<char>)>,
    prj0: Seq<Seq<char>>,
    ro1: Seq<(Seq<char>, Seq<char>)>,
    fs1: Seq<(Seq<char>, Seq<char>)>,
    prj1: Seq<Seq<char>>,
    es: Seq<(Seq<char>, Seq<char>, int)>,
    fss: Seq<Seq<char>>,
    k: int,
) -> bool {
    &&& 0 <= k <= es.len()
    &&& fss.len() == k
    &&& ({
        let m = build_model(ro0, fs0, prj0, es.take(k), fss);
        ro1 == m.0 && fs1 == m.1 && prj1 == m.2
    })
}

/// Completeness: every collected logical path is keyed in the final map,
/// unless its resolved filesystem path already keyed the inverse map when
/// the entry was processed (a genuine collision, which the first record
/// wins).
pub open spec fn build_covers(
    ro0: Seq<(Seq<char>, Seq<char>)>,
    fs0: Seq<(Seq<char>, Seq<char>)>,
    prj0: Seq<Seq<char>>,
    es: Seq<(Seq<char>, Seq<char>, int)>,
    fss: Seq<Seq<char>>,
) -> bool {
    forall|i: int|
        0 <= i < es.len() ==> assoc(build_model(ro0, fs0, prj0, es, fss).0, es[i].0) is Some
            || assoc(
            build_model(ro0, fs0, prj0, es.take(i), fss.take(i)).1,
            #[trigger] fss[i],
        ) is Some
}

proof fn lemma_build_model_snoc(
    ro: Seq<(Seq<char>, Seq<char>)>,
    fsm: Seq<(Seq<char>, Seq<char>)>,
    prj: Seq<Seq<char>>,
    es: Seq<(Seq<char>, Seq<char>, int)>,
    fss: Seq<Seq<char>>,
    e: (Seq<char>, Seq<char>, int),
    f: Seq<char>,
)
    requires
        es.len() == fss.len(),
    ensures
        build_model(ro, fsm, prj, es.push(e), fss.push(f)) == ({
            let m = build_model(ro, fsm, prj, es, fss);
            step_model(m.0, m.1, m.2, e.0, f, e.2)
        }),
    decreases es.len(),
{
    if es.len() == 0 {
        assert(es.push(e)[0] == e);
        assert(fss.push(f)[0] == f);
        assert(es.push(e).drop_first() =~= Seq::<(Seq<char>, Seq<char>, int)>::empty());
        assert(fss.push(f).drop_first() =~= Seq::<Seq<char>>::empty());
        let s2 = step_model(ro, fsm, prj, e.0, f, e.2);
        assert(build_model(ro, fsm, prj, es.push(e), fss.push(f)) == build_model(
            s2.0,
            s2.1,
            s2.2,
            es.push(e).drop_first(),
            fss.push(f).drop_first(),
        ));
        assert(build_model(s2.0, s2.1, s2.2, es.push(e).drop_first(), fss.push(f).drop_first())
            == (s2.0, s2.1, s2.2));
        assert(build_model(ro, fsm, prj, es, fss) == (ro, fsm, prj));
    } else {
        assert(es.push(e)[0] == es[0]);
        assert(fss.push(f)[0] == fss[0]);
        assert(es.push(e).drop_first() =~= es.drop_first().push(e));
        assert(fss.push(f).drop_first() =~= fss.drop_first().push(f));
        let s = step_model(ro, fsm, prj, es[0].0, fss[0], es[0].2);
        assert(build_model(ro, fsm, prj, es.push(e), fss.push(f)) == build_model(
            s.0,
            s.1,
            s.2,
            es.push(e).drop_first(),
            fss.push(f).drop_first(),
        ));
        lemma_build_model_snoc(s.0, s.1, s.2, es.drop_first(), fss.drop_first(), e, f);
        assert(build_model(ro, fsm, prj, es, fss) == build_model(
            s.0,
            s.1,
            s.2,
            es.drop_first(),
            fss.drop_first(),
        ));
    }
}

/// Builds the path index for the subtree rooted at `node`. Every collected
/// entry's file reference is canonicalized relative to `base_dir`; the first
/// reference that cannot be resolved aborts the build with an error naming
/// it. On success the index is exactly a fold of `step_model` over all the
/// entries, with some sequence of resolved filesystem paths, and every
/// collected logical path is keyed unless it genuinely collided
/// (`build_covers`); on failure the maps stand at such a fold over the
/// entries before the failing one — earlier records are kept, nothing else
/// is touched.
pub fn build_path_maps(
    node: &SourcemapNode,
    maps: &mut SourcemapData,
    current_roblox_path: &str,
    base_dir: &str,
) -> (r: Result<(), BuildError>)
    ensures
        old(maps).wf() ==> final(maps).wf(),
        r is Ok ==> exists|fss: Seq<Seq<char>>|
            ({
                let es = spec_entries(*node, current_roblox_path@);
                &&& #[trigger] fss.len() == es.len()
                &&& build_prefix(
                    old(maps).roblox_to_fs.deep_view(),
                    old(maps).fs_to_roblox.deep_view(),
                    old(maps).fs_projects.deep_view(),
                    final(maps).roblox_to_fs.deep_view(),
                    final(maps).fs_to_roblox.deep_view(),
                    final(maps).fs_projects.deep_view(),
                    es,
                    fss,
                    es.len() as int,
                )
                &&& build_covers(
                    old(maps).roblox_to_fs.deep_view(),
                    old(maps).fs_to_roblox.deep_view(),
                    old(maps).fs_projects.deep_view(),
                    es,
                    fss,
                )
            }),
        r is Err ==> exists|fss: Seq<Seq<char>>, k: int|
            #[trigger] build_prefix(
                old(maps).roblox_to_fs.deep_view(),
                old(maps).fs_to_roblox.deep_view(),
                old(maps).fs_projects.deep_view(),
                final(maps).roblox_to_fs.deep_view(),
                final(maps).fs_to_roblox.deep_view(),
                final(maps).fs_projects.deep_view(),
                spec_entries(*node, current_roblox_path@),
                fss,
                k,
            ),
        r matches Err(e) ==> exists|i: int|
            0 <= i < spec_entries(*node, current_roblox_path@).len() && e.file_ref@ == spec_entries(
                *node,
                current_roblox_path@,
            )[i].1,
{
    let ghost es = spec_entries(*node, current_roblox_path@);
    let ghost ro0 = maps.roblox_to_fs.deep_view();
    let ghost fs0 = maps.fs_to_roblox.deep_view();
    let ghost prj0 = maps.fs_projects.deep_view();
    let mut entries: Vec<RawEntry> = Vec::new();
    proof {
        assert(entries.deep_view() =~= Seq::<(Seq<char>, Seq<char>, int)>::empty());
    }
    collect_entries(node, current_roblox_path, &mut entries);
    proof {
        assert(entries.deep_view() =~= es);
    }
    let ghost mut fssg: Seq<Seq<char>> = Seq::empty();
    let mut i: usize = 0;
    while i < entries.len()
        invariant
            i <= entries.len(),
            es == spec_entries(*node, current_roblox_path@),
            ro0 == old(maps).roblox_to_fs.deep_view(),
            fs0 == old(maps).fs_to_roblox.deep_view(),
            prj0 == old(maps).fs_projects.deep_view(),
            entries.deep_view() == es,
            entries@.len() == es.len(),
            fssg.len() == i as int,
            (
                maps.roblox_to_fs.deep_view(),
                maps.fs_to_roblox.deep_view(),
                maps.fs_projects.deep_view(),
            ) == build_model(ro0, fs0, prj0, es.take(i as int), fssg),
            forall|j: int|
                0 <= j < i ==> assoc(maps.roblox_to_fs.deep_view(), es[j].0) is Some || assoc(
                    build_model(ro0, fs0, prj0, es.take(j), fssg.take(j)).1,
                    #[trigger] fssg[j],
                ) is Some,
            old(maps).wf() ==> maps.wf(),
        decreases entries.len() - i,
    {
        proof {
            assert(es[i as int] == entries@[i as int]@);
        }
        let logical = entries[i].logical.clone();
        let marks = entries[i].project_marks;
        match canonicalize_in(base_dir, entries[i].file_ref.as_str()) {
            Ok(fs) => {
                let ghost fv = fs@;
                let ghost m_pre = (
                    maps.roblox_to_fs.deep_view(),
                    maps.fs_to_roblox.deep_view(),
                    maps.fs_projects.deep_view(),
                );
                let ghost stepped = step_model(
                    m_pre.0,
                    m_pre.1,
                    m_pre.2,
                    es[i as int].0,
                    fv,
                    es[i as int].2,
                );
                maps.insert_pair(logical, fs.clone());
                let mut t: usize = 0;
                while t < marks
                    invariant
                        t <= marks,
                        maps.roblox_to_fs.deep_view() == stepped.0,
                        maps.fs_to_roblox.deep_view() == stepped.1,
                        maps.fs_projects.deep_view() == m_pre.2 + Seq::new(
                            t as nat,
                            |x: int| fv,
                        ),
                        old(maps).wf() ==> maps.wf(),
                        fv == fs@,
                    decreases marks - t,
                {
                    let ghost pdv = maps.fs_projects.deep_view();
                    maps.fs_projects.push(fs.clone());
                    proof {
                        assert(maps.fs_projects.deep_view() =~= pdv.push(fv));
                        assert(pdv.push(fv) =~= m_pre.2 + Seq::new((t + 1) as nat, |x: int| fv));
                    }
                    t += 1;
                }
                proof {
                    assert(m_pre.2 + Seq::new(marks as nat, |x: int| fv) =~= stepped.2);
                    lemma_build_model_snoc(ro0, fs0, prj0, es.take(i as int), fssg, es[i as int], fv);
                    assert(es.take(i + 1) =~= es.take(i as int).push(es[i as int]));
                    let fss2 = fssg.push(fv);
                    assert forall|j: int|
                        0 <= j < i + 1 implies assoc(stepped.0, es[j].0) is Some || assoc(
                        build_model(ro0, fs0, prj0, es.take(j), fss2.take(j)).1,
                        fss2[j],
                    ) is Some by {
                        if j < i {
                            assert(fss2[j] == fssg[j]);
                            assert(fss2.take(j) =~= fssg.take(j));
                            if assoc(m_pre.0, es[j].0) is Some {
                                if assoc(m_pre.0, es[i as int].0) is None && assoc(
                                    m_pre.1,
                                    fv,
                                ) is None {
                                    lemma_assoc_push(m_pre.0, (es[i as int].0, fv), es[j].0);
                                }
                            }
                        } else {
                            assert(fss2[j] == fv);
                            assert(fss2.take(j) =~= fssg);
                            if assoc(m_pre.0, es[i as int].0) is None && assoc(
                                m_pre.1,
                                fv,
                            ) is None {
                                lemma_assoc_push(m_pre.0, (es[i as int].0, fv), es[i as int].0);
                            }
                        }
                    }
                    fssg = fss2;
                }
            },
            Err(detail) => {
                let fr = entries[i].file_ref.clone();
                proof {
                    let all = spec_entries(*node, current_roblox_path@);
                    assert(exists|j: int| 0 <= j < all.len() && fr@ == all[j].1) by {
                        assert(0 <= (i as int) && (i as int) < all.len());
                        assert(fr@ == es[i as int].1);
                        assert(fr@ == all[i as int].1);
                    }
                    assert(build_prefix(
                        ro0,
                        fs0,
                        prj0,
                        maps.roblox_to_fs.deep_view(),
                        maps.fs_to_roblox.deep_view(),
                        maps.fs_projects.deep_view(),
                        es,
                        fssg,
                        i as int,
                    ));
                }
                return Err(BuildError { file_ref: fr, detail });
            },
        }
        i += 1;
    }
    proof {
        assert(es.take(es.len() as int) =~= es);
        assert(fssg.len() == es.len());
        assert(build_prefix(
            ro0,
            fs0,
            prj0,
            maps.roblox_to_fs.deep_view(),
            maps.fs_to_roblox.deep_view(),
            maps.fs_projects.deep_view(),
            es,
            fssg,
            es.len() as int,
        ));
        assert(build_covers(ro0, fs0, prj0, es, fssg)) by {
            assert(es.take(es.len() as int) =~= es);
            assert forall|i2: int|
                0 <= i2 < es.len() implies assoc(
                build_model(ro0, fs0, prj0, es, fssg).0,
                es[i2].0,
            ) is Some || assoc(
                build_model(ro0, fs0, prj0, es.take(i2), fssg.take(i2)).1,
                fssg[i2],
            ) is Some by {
                assert(assoc(maps.roblox_to_fs.deep_view(), es[i2].0) is Some || assoc(
                    build_model(ro0, fs0, prj0, es.take(i2), fssg.take(i2)).1,
                    fssg[i2],
                ) is Some);
            }
        }
    }
    Ok(())
}

} // verus!
