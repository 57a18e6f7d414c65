//! The relative path resolver: given the logical path of the file being
//! rewritten and the logical path of the referenced module, produce the
//! runtime-relative access path — the `script` self-handle, one `Parent`
//! ascend per segment of the source past the common prefix, then one descend
//! per remaining target segment.

use vstd::prelude::*;
use vstd::string::*;
use crate::strutil::{split_dots, join_dots, split_dots_exec, join_dots_exec, str_eq};

verus! {

/// Length of the common leading prefix of two segment sequences.
pub open spec fn common_len(a: Seq<Seq<char>>, b: Seq<Seq<char>>) -> int
    decreases a.len(),
{
    if a.len() == 0 || b.len() == 0 || a[0] != b[0] {
        0
    } else {
        1 + common_len(a.drop_first(), b.drop_first())
    }
}

/// How many `Parent` ascends the access path takes.
pub open spec fn ascend_count(a: Seq<Seq<char>>, b: Seq<Seq<char>>) -> int {
    a.len() - common_len(a, b)
}

/// The descend segments of the access path, in order.
pub open spec fn descend_names(a: Seq<Seq<char>>, b: Seq<Seq<char>>) -> Seq<Seq<char>> {
    b.skip(common_len(a, b))
}

/// The full access path as segments: `script`, the ascends, the descends.
pub open spec fn require_parts_spec(a: Seq<Seq<char>>, b: Seq<Seq<char>>) -> Seq<Seq<char>> {
    seq!["script"@] + Seq::new(ascend_count(a, b) as nat, |i: int| "Parent"@) + descend_names(a, b)
}

pub proof fn lemma_common_len_props(a: Seq<Seq<char>>, b: Seq<Seq<char>>)
    ensures
        0 <= common_len(a, b) <= a.len(),
        common_len(a, b) <= b.len(),
        forall|i: int| 0 <= i < common_len(a, b) ==> a[i] == b[i],
        common_len(a, b) < a.len() && common_len(a, b) < b.len() ==> a[common_len(a, b)] != b[
            common_len(a, b)
        ],
    decreases a.len(),
{
    if !(a.len() == 0 || b.len() == 0 || a[0] != b[0]) {
        lemma_common_len_props(a.drop_first(), b.drop_first());
        let c = common_len(a, b);
        assert forall|i: int| 0 <= i < c implies a[i] == b[i] by {
            if i > 0 {
                assert(a.drop_first()[i - 1] == b.drop_first()[i - 1]);
            }
        }
        if c < a.len() && c < b.len() {
            assert(a.drop_first()[c - 1] != b.drop_first()[c - 1]);
        }
    }
}

/// The common prefix of a sequence with itself is the whole sequence.
pub proof fn lemma_common_len_self(a: Seq<Seq<char>>)
    ensures
        common_len(a, a) == a.len(),
    decreases a.len(),
{
    if a.len() != 0 {
        lemma_common_len_self(a.drop_first());
    }
}

/// Resolving a path against itself yields the bare self-handle: zero ascends
/// and zero descends.
pub proof fn lemma_resolve_self(a: Seq<Seq<char>>)
    ensures
        ascend_count(a, a) == 0,
        descend_names(a, a) == Seq::<Seq<char>>::empty(),
        require_parts_spec(a, a) == seq!["script"@],
{
    lemma_common_len_self(a);
    assert(descend_names(a, a) =~= Seq::<Seq<char>>::empty());
    assert(require_parts_spec(a, a) =~= seq!["script"@]);
}

/// Walking an access path from `from`: drop one trailing segment per ascend,
/// then append the descend segments.
pub open spec fn walk(from: Seq<Seq<char>>, ascends: int, descends: Seq<Seq<char>>) -> Seq<
    Seq<char>,
> {
    from.take(from.len() - ascends) + descends
}

/// Walking the resolved access path from the source always lands exactly on
/// the target.
pub proof fn lemma_resolve_walk(a: Seq<Seq<char>>, b: Seq<Seq<char>>)
    ensures
        walk(a, ascend_count(a, b), descend_names(a, b)) == b,
{
    lemma_common_len_props(a, b);
    let c = common_len(a, b);
    assert(a.take(c) =~= b.take(c));
    assert(b.take(c) + b.skip(c) =~= b);
    assert(walk(a, ascend_count(a, b), descend_names(a, b)) =~= b);
}

/// The resolver's dot-joined result splits back into exactly its segments —
/// `script`, the `Parent` ascends, the descend names — because logical-path
/// segments are dot-free by construction, so joining them loses nothing.
pub proof fn lemma_require_path_segments(src: Seq<char>, tgt: Seq<char>)
    ensures
        split_dots(join_dots(require_parts_spec(split_dots(src), split_dots(tgt))))
            == require_parts_spec(split_dots(src), split_dots(tgt)),
{
    let a = split_dots(src);
    let b = split_dots(tgt);
    let parts = require_parts_spec(a, b);
    crate::strutil::lemma_split_dots_segments(src);
    crate::strutil::lemma_split_dots_segments(tgt);
    lemma_common_len_props(a, b);
    let c = common_len(a, b);
    reveal_strlit("script");
    reveal_strlit("Parent");
    assert(crate::strutil::no_dot("script"@));
    assert(crate::strutil::no_dot("Parent"@));
    assert forall|i: int| 0 <= i < parts.len() implies crate::strutil::no_dot(
        #[trigger] parts[i],
    ) by {
        if i == 0 {
            assert(parts[i] == "script"@);
        } else if i < 1 + ascend_count(a, b) {
            assert(parts[i] == "Parent"@);
        } else {
            assert(parts[i] == b.skip(c)[i - 1 - ascend_count(a, b)]);
            assert(parts[i] == b[c + (i - 1 - ascend_count(a, b))]);
        }
    }
    crate::strutil::lemma_split_join_inverse(parts);
}

/// Length of the common leading prefix of two segment vectors, counted from
/// position `i`.
fn common_from(a: &Vec<String>, b: &Vec<String>, i: usize) -> (c: usize)
    requires
        i <= a.len(),
        i <= b.len(),
    ensures
        c == i + common_len(a.deep_view().skip(i as int), b.deep_view().skip(i as int)),
        i <= c <= a.len(),
        c <= b.len(),
    decreases a.len() - i,
{
    proof {
        lemma_common_len_props(a.deep_view().skip(i as int), b.deep_view().skip(i as int));
    }
    if i < a.len() && i < b.len() && str_eq(a[i].as_str(), b[i].as_str()) {
        proof {
            assert(a.deep_view().skip(i as int)[0] == b.deep_view().skip(i as int)[0]);
            assert(a.deep_view().skip(i as int).drop_first() =~= a.deep_view().skip(i + 1));
            assert(b.deep_view().skip(i as int).drop_first() =~= b.deep_view().skip(i + 1));
        }
        common_from(a, b, i + 1)
    } else {
        proof {
            if i < a.len() && i < b.len() {
                assert(a.deep_view().skip(i as int)[0] != b.deep_view().skip(i as int)[0]);
            }
            assert(common_len(a.deep_view().skip(i as int), b.deep_view().skip(i as int)) == 0);
        }
        i
    }
}

/// The access path connecting two segmented logical paths, as segments:
/// `script`, then `Parent` once per ascend, then each descend name.
pub fn require_parts(source: &Vec<String>, target: &Vec<String>) -> (r: Vec<String>)
    ensures
        r.deep_view() == require_parts_spec(source.deep_view(), target.deep_view()),
{
    let ghost a = source.deep_view();
    let ghost b = target.deep_view();
    proof {
        assert(a.skip(0) =~= a);
        assert(b.skip(0) =~= b);
        lemma_common_len_props(a, b);
    }
    let c = common_from(source, target, 0);
    let mut r: Vec<String> = Vec::new();
    r.push("script".to_owned());
    let ascends = source.len() - c;
    let mut k: usize = 0;
    while k < ascends
        invariant
            k <= ascends,
            r.deep_view() =~= seq!["script"@] + Seq::new(k as nat, |i: int| "Parent"@),
        decreases ascends - k,
    {
        let ghost dv0 = r.deep_view();
        r.push("Parent".to_owned());
        proof {
            assert(r.deep_view() =~= dv0.push("Parent"@));
            assert(r.deep_view() =~= seq!["script"@] + Seq::new((k + 1) as nat, |i: int| "Parent"@));
        }
        k += 1;
    }
    let mut j: usize = c;
    while j < target.len()
        invariant
            c <= j <= target.len(),
            c == common_len(a, b),
            c <= target.len(),
            b == target.deep_view(),
            ascends == a.len() - c,
            r.deep_view() =~= seq!["script"@] + Seq::new(ascends as nat, |i: int| "Parent"@)
                + b.subrange(c as int, j as int),
        decreases target.len() - j,
    {
        let ghost dv0 = r.deep_view();
        let seg = target[j].clone();
        r.push(seg);
        proof {
            assert(r.deep_view() =~= dv0.push(b[j as int]));
            assert(b.subrange(c as int, j + 1) =~= b.subrange(c as int, j as int).push(b[j as int]));
        }
        j += 1;
    }
    proof {
        assert(b.subrange(c as int, b.len() as int) =~= descend_names(a, b));
        assert(r.deep_view() =~= require_parts_spec(a, b));
    }
    r
}

/// Converts a source and a target logical path (dot-separated) into the
/// dot-joined runtime-relative access path, e.g.
/// `script.Parent.Parent.Runtime`.
pub fn roblox_path_to_luau_require(source_roblox_path: &str, target_roblox_path: &str) -> (r:
    String)
    ensures
        r@ == join_dots(
            require_parts_spec(
                split_dots(source_roblox_path@),
                split_dots(target_roblox_path@),
            ),
        ),
{
    let source_parts = split_dots_exec(source_roblox_path);
    let target_parts = split_dots_exec(target_roblox_path);
    let parts = require_parts(&source_parts, &target_parts);
    join_dots_exec(&parts)
}

} // verus!

