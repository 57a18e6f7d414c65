//! The bidirectional path index: logical (dot-separated) module paths mapped
//! to absolute filesystem paths and back, plus the project-boundary list.
//!
//! Both directions are association vectors with unique keys; the
//! well-formedness invariant states that one is exactly the other flipped,
//! from which the exact-inverse law follows.

use vstd::prelude::*;
use vstd::string::*;
use crate::strutil::{is_suffix_of, str_eq, str_ends_with};

verus! {

/// First-match association lookup.
pub open spec fn assoc(m: Seq<(Seq<char>, Seq<char>)>, k: Seq<char>) -> Option<Seq<char>>
    decreases m.len(),
{
    if m.len() == 0 {
        None
    } else if m[0].0 == k {
        Some(m[0].1)
    } else {
        assoc(m.drop_first(), k)
    }
}

/// Every pair flipped, in order.
pub open spec fn flipped(m: Seq<(Seq<char>, Seq<char>)>) -> Seq<(Seq<char>, Seq<char>)> {
    Seq::new(m.len(), |i: int| (m[i].1, m[i].0))
}

/// No two pairs share a key.
pub open spec fn distinct_keys(m: Seq<(Seq<char>, Seq<char>)>) -> bool {
    forall|i: int, j: int| 0 <= i < j < m.len() ==> m[i].0 != m[j].0
}

/// First key of `keys` that ends with `sfx`, if any.
pub open spec fn find_suffix_spec(keys: Seq<(Seq<char>, Seq<char>)>, sfx: Seq<char>) -> Option<
    Seq<char>,
>
    decreases keys.len(),
{
    if keys.len() == 0 {
        None
    } else if is_suffix_of(sfx, keys[0].0) {
        Some(keys[0].0)
    } else {
        find_suffix_spec(keys.drop_first(), sfx)
    }
}

pub proof fn lemma_assoc_none(m: Seq<(Seq<char>, Seq<char>)>, k: Seq<char>)
    ensures
        assoc(m, k) is None <==> (forall|i: int| 0 <= i < m.len() ==> m[i].0 != k),
    decreases m.len(),
{
    if m.len() > 0 {
        lemma_assoc_none(m.drop_first(), k);
        if m[0].0 != k {
            assert(forall|i: int|
                1 <= i < m.len() ==> m[i].0 == m.drop_first()[i - 1].0);
        }
    }
}

/// Appending a pair never disturbs an existing key's lookup; a fresh key
/// looks up the appended value.
pub proof fn lemma_assoc_push(m: Seq<(Seq<char>, Seq<char>)>, x: (Seq<char>, Seq<char>), k: Seq<char>)
    ensures
        assoc(m.push(x), k) == (if assoc(m, k) is Some {
            assoc(m, k)
        } else if x.0 == k {
            Some(x.1)
        } else {
            None
        }),
    decreases m.len(),
{
    if m.len() == 0 {
        assert(m.push(x)[0] == x);
        assert(m.push(x).drop_first() =~= Seq::<(Seq<char>, Seq<char>)>::empty());
    } else {
        assert(m.push(x)[0] == m[0]);
        assert(m.push(x).drop_first() =~= m.drop_first().push(x));
        lemma_assoc_push(m.drop_first(), x, k);
    }
}

/// With distinct keys, a pair present at any index is what lookup returns.
pub proof fn lemma_assoc_at(m: Seq<(Seq<char>, Seq<char>)>, i: int)
    requires
        distinct_keys(m),
        0 <= i < m.len(),
    ensures
        assoc(m, m[i].0) == Some(m[i].1),
    decreases m.len(),
{
    if i > 0 {
        assert(m[0].0 != m[i].0);
        assert(m.drop_first()[i - 1] == m[i]);
        lemma_assoc_at(m.drop_first(), i - 1);
    }
}

/// The path index. `roblox_to_fs` maps logical paths to canonical filesystem
/// paths; `fs_to_roblox` is its exact inverse; `fs_projects` lists the
/// filesystem paths that mark independent sub-project roots.
pub struct SourcemapData {
    pub roblox_to_fs: Vec<(String, String)>,
    pub fs_to_roblox: Vec<(String, String)>,
    pub fs_projects: Vec<String>,
}

impl SourcemapData {
    /// Well-formedness: the two directions are flips of each other and each
    /// direction's keys are unique.
    pub open spec fn wf(self) -> bool {
        &&& self.fs_to_roblox.deep_view() == flipped(self.roblox_to_fs.deep_view())
        &&& distinct_keys(self.roblox_to_fs.deep_view())
        &&& distinct_keys(self.fs_to_roblox.deep_view())
    }

    pub fn new() -> (d: SourcemapData)
        ensures
            d.wf(),
            d.roblox_to_fs.deep_view() == Seq::<(Seq<char>, Seq<char>)>::empty(),
            d.fs_to_roblox.deep_view() == Seq::<(Seq<char>, Seq<char>)>::empty(),
            d.fs_projects.deep_view() == Seq::<Seq<char>>::empty(),
    {
        let d = SourcemapData {
            roblox_to_fs: Vec::new(),
            fs_to_roblox: Vec::new(),
            fs_projects: Vec::new(),
        };
        proof {
            assert(d.roblox_to_fs.deep_view() =~= Seq::<(Seq<char>, Seq<char>)>::empty());
            assert(d.fs_to_roblox.deep_view() =~= Seq::<(Seq<char>, Seq<char>)>::empty());
            assert(d.fs_projects.deep_view() =~= Seq::<Seq<char>>::empty());
            assert(flipped(d.roblox_to_fs.deep_view()) =~= Seq::<(Seq<char>, Seq<char>)>::empty());
        }
        d
    }

    /// Records one (logical, filesystem) pair. The first record for a key
    /// wins: a pair either of whose keys is already present is ignored, which
    /// keeps the two directions exact inverses of each other.
    pub fn insert_pair(&mut self, roblox: String, fs: String)
        ensures
            ({
                let ro0 = old(self).roblox_to_fs.deep_view();
                let fs0 = old(self).fs_to_roblox.deep_view();
                if assoc(ro0, roblox@) is None && assoc(fs0, fs@) is None {
                    final(self).roblox_to_fs.deep_view() == ro0.push((roblox@, fs@))
                        && final(self).fs_to_roblox.deep_view() == fs0.push((fs@, roblox@))
                } else {
                    final(self).roblox_to_fs.deep_view() == ro0
                        && final(self).fs_to_roblox.deep_view() == fs0
                }
            }),
            final(self).fs_projects == old(self).fs_projects,
            old(self).wf() ==> final(self).wf(),
    {
        let ghost ro0 = self.roblox_to_fs.deep_view();
        let ghost fs0 = self.fs_to_roblox.deep_view();
        let have_ro = self.get_fs(roblox.as_str());
        let have_fs = self.get_roblox(fs.as_str());
        if have_ro.is_none() && have_fs.is_none() {
            let ghost pv = roblox@;
            let ghost fv = fs@;
            proof {
                lemma_assoc_none(ro0, pv);
                lemma_assoc_none(fs0, fv);
            }
            self.roblox_to_fs.push((roblox.clone(), fs.clone()));
            self.fs_to_roblox.push((fs, roblox));
            proof {
                assert(self.roblox_to_fs.deep_view() =~= ro0.push((pv, fv)));
                assert(self.fs_to_roblox.deep_view() =~= fs0.push((fv, pv)));
                if old(self).wf() {
                    assert(flipped(ro0.push((pv, fv))) =~= fs0.push((fv, pv)));
                    assert(distinct_keys(ro0.push((pv, fv))));
                    assert(distinct_keys(fs0.push((fv, pv))));
                }
            }
        }
    }

    /// Looks a logical path up, returning its filesystem path.
    pub fn get_fs(&self, roblox_path: &str) -> (r: Option<String>)
        ensures
            r is Some <==> assoc(self.roblox_to_fs.deep_view(), roblox_path@) is Some,
            r is Some ==> r->0@ == assoc(self.roblox_to_fs.deep_view(), roblox_path@)->0,
    {
        lookup(&self.roblox_to_fs, roblox_path)
    }

    /// Looks a filesystem path up, returning its logical path.
    pub fn get_roblox(&self, fs_path: &str) -> (r: Option<String>)
        ensures
            r is Some <==> assoc(self.fs_to_roblox.deep_view(), fs_path@) is Some,
            r is Some ==> r->0@ == assoc(self.fs_to_roblox.deep_view(), fs_path@)->0,
    {
        lookup(&self.fs_to_roblox, fs_path)
    }

    /// The first recorded logical path that ends with `suffix`, if any: the
    /// documented first-match policy for dependency-package search.
    pub fn find_logical_with_suffix(&self, suffix: &str) -> (r: Option<String>)
        ensures
            r is Some <==> find_suffix_spec(self.roblox_to_fs.deep_view(), suffix@) is Some,
            r is Some ==> r->0@ == find_suffix_spec(self.roblox_to_fs.deep_view(), suffix@)->0,
    {
        let ghost m = self.roblox_to_fs.deep_view();
        let mut i: usize = 0;
        proof {
            assert(m.skip(0) =~= m);
        }
        while i < self.roblox_to_fs.len()
            invariant
                i <= self.roblox_to_fs.len(),
                m == self.roblox_to_fs.deep_view(),
                find_suffix_spec(m, suffix@) == find_suffix_spec(m.skip(i as int), suffix@),
            decreases self.roblox_to_fs.len() - i,
        {
            proof {
                assert(m.skip(i as int)[0] == m[i as int]);
            }
            if str_ends_with(self.roblox_to_fs[i].0.as_str(), suffix) {
                return Some(self.roblox_to_fs[i].0.clone());
            }
            proof {
                assert(m.skip(i as int).drop_first() =~= m.skip(i + 1));
            }
            i += 1;
        }
        None
    }

    /// The exact-inverse law: every pair recorded in `roblox_to_fs` is found,
    /// flipped, by lookup in `fs_to_roblox`, and the other way round.
    pub proof fn lemma_exact_inverse(self, i: int)
        requires
            self.wf(),
            0 <= i < self.roblox_to_fs.deep_view().len(),
        ensures
            assoc(self.fs_to_roblox.deep_view(), self.roblox_to_fs.deep_view()[i].1) == Some(
                self.roblox_to_fs.deep_view()[i].0,
            ),
            assoc(self.roblox_to_fs.deep_view(), self.roblox_to_fs.deep_view()[i].0) == Some(
                self.roblox_to_fs.deep_view()[i].1,
            ),
    {
        let ro = self.roblox_to_fs.deep_view();
        let fs = self.fs_to_roblox.deep_view();
        assert(fs[i] == (ro[i].1, ro[i].0));
        lemma_assoc_at(fs, i);
        lemma_assoc_at(ro, i);
    }
}

/// First-match lookup in an association vector.
fn lookup(m: &Vec<(String, String)>, key: &str) -> (r: Option<String>)
    ensures
        r is Some <==> assoc(m.deep_view(), key@) is Some,
        r is Some ==> r->0@ == assoc(m.deep_view(), key@)->0,
{
    let ghost mv = m.deep_view();
    let mut i: usize = 0;
    proof {
        assert(mv.skip(0) =~= mv);
    }
    while i < m.len()
        invariant
            i <= m.len(),
            mv == m.deep_view(),
            assoc(mv, key@) == assoc(mv.skip(i as int), key@),
        decreases m.len() - i,
    {
        proof {
            assert(mv.skip(i as int)[0] == mv[i as int]);
        }
        if str_eq(m[i].0.as_str(), key) {
            return Some(m[i].1.clone());
        }
        proof {
            assert(mv.skip(i as int).drop_first() =~= mv.skip(i + 1));
        }
        i += 1;
    }
    None
}

} // verus!
