//! Verified string utilities: splitting and joining dot-separated logical
//! paths, string comparison, and suffix tests. All contracts are stated over
//! `Seq<char>` views.

use vstd::prelude::*;
use vstd::string::*;

verus! {

/// Splitting a character sequence at every `'.'`. The result always has at
/// least one element; an empty input yields one empty segment.
pub open spec fn split_dots(s: Seq<char>) -> Seq<Seq<char>>
    decreases s.len(),
{
    if s.len() == 0 {
        seq![Seq::<char>::empty()]
    } else {
        let rest = split_dots(s.drop_first());
        if s[0] == '.' {
            seq![Seq::<char>::empty()] + rest
        } else {
            seq![seq![s[0]] + rest[0]] + rest.drop_first()
        }
    }
}

/// Joining segments with a `'.'` between each pair.
pub open spec fn join_dots(parts: Seq<Seq<char>>) -> Seq<char>
    decreases parts.len(),
{
    if parts.len() == 0 {
        Seq::<char>::empty()
    } else if parts.len() == 1 {
        parts[0]
    } else {
        parts[0] + seq!['.'] + join_dots(parts.drop_first())
    }
}

/// True when no character of `s` is a `'.'`.
pub open spec fn no_dot(s: Seq<char>) -> bool {
    forall|i: int| 0 <= i < s.len() ==> s[i] != '.'
}

/// `sfx` is a suffix of `s`.
pub open spec fn is_suffix_of(sfx: Seq<char>, s: Seq<char>) -> bool {
    sfx.len() <= s.len() && s.skip(s.len() - sfx.len()) == sfx
}

/// `pat` occurs in `s` at position `i`.
pub open spec fn contains_at(s: Seq<char>, pat: Seq<char>, i: int) -> bool {
    0 <= i && i + pat.len() <= s.len() && s.subrange(i, i + pat.len()) == pat
}

/// A dot-free sequence splits into exactly itself.
pub proof fn lemma_split_dots_no_dot(s: Seq<char>)
    requires
        no_dot(s),
    ensures
        split_dots(s) =~= seq![s],
    decreases s.len(),
{
    if s.len() == 0 {
        assert(s =~= Seq::<char>::empty());
        assert(split_dots(s) =~= seq![s]);
    } else {
        assert(s[0] != '.');
        lemma_split_dots_no_dot(s.drop_first());
        let rest = split_dots(s.drop_first());
        assert(rest =~= seq![s.drop_first()]);
        assert(rest[0] == s.drop_first());
        assert(seq![s[0]] + rest[0] =~= s);
        assert(rest.drop_first() =~= Seq::<Seq<char>>::empty());
        assert(split_dots(s) == seq![seq![s[0]] + rest[0]] + rest.drop_first());
        assert(split_dots(s) =~= seq![s]);
    }
}

/// Splitting `a + '.' + b` where `a` is dot-free peels `a` off the front.
pub proof fn lemma_split_dots_prefix(a: Seq<char>, b: Seq<char>)
    requires
        no_dot(a),
    ensures
        split_dots(a + seq!['.'] + b) =~= seq![a] + split_dots(b),
    decreases a.len(),
{
    let s = a + seq!['.'] + b;
    if a.len() == 0 {
        assert(s[0] == '.');
        assert(s.drop_first() =~= b);
        assert(a =~= Seq::<char>::empty());
        assert(split_dots(s) == seq![Seq::<char>::empty()] + split_dots(s.drop_first()));
        assert(split_dots(s) =~= seq![a] + split_dots(b));
    } else {
        assert(s[0] == a[0]);
        assert(a[0] != '.');
        assert(s.drop_first() =~= a.drop_first() + seq!['.'] + b);
        lemma_split_dots_prefix(a.drop_first(), b);
        let rest = split_dots(s.drop_first());
        assert(rest =~= seq![a.drop_first()] + split_dots(b));
        assert(rest[0] == a.drop_first());
        assert(seq![s[0]] + rest[0] =~= a);
        assert(rest.drop_first() =~= split_dots(b));
        assert(split_dots(s) == seq![seq![s[0]] + rest[0]] + rest.drop_first());
        assert(split_dots(s) =~= seq![a] + split_dots(b));
    }
}

/// Every segment that splitting produces is dot-free.
pub proof fn lemma_split_dots_segments(s: Seq<char>)
    ensures
        forall|i: int| 0 <= i < split_dots(s).len() ==> no_dot(#[trigger] split_dots(s)[i]),
    decreases s.len(),
{
    if s.len() > 0 {
        lemma_split_dots_segments(s.drop_first());
        let rest = split_dots(s.drop_first());
        if s[0] == '.' {
            assert(split_dots(s) == seq![Seq::<char>::empty()] + rest);
            assert forall|i: int| 0 <= i < split_dots(s).len() implies no_dot(
                split_dots(s)[i],
            ) by {
                if i > 0 {
                    assert(split_dots(s)[i] == rest[i - 1]);
                }
            }
        } else {
            assert(split_dots(s) == seq![seq![s[0]] + rest[0]] + rest.drop_first());
            assert forall|i: int| 0 <= i < split_dots(s).len() implies no_dot(
                split_dots(s)[i],
            ) by {
                if i == 0 {
                    let head = seq![s[0]] + rest[0];
                    assert(no_dot(rest[0]));
                    assert forall|j: int| 0 <= j < head.len() implies head[j] != '.' by {
                        if j > 0 {
                            assert(head[j] == rest[0][j - 1]);
                        }
                    }
                } else {
                    assert(split_dots(s)[i] == rest[i]);
                }
            }
        }
    }
}

/// Splitting after joining restores dot-free segments exactly.
pub proof fn lemma_split_join_inverse(parts: Seq<Seq<char>>)
    requires
        parts.len() >= 1,
        forall|i: int| 0 <= i < parts.len() ==> no_dot(#[trigger] parts[i]),
    ensures
        split_dots(join_dots(parts)) == parts,
    decreases parts.len(),
{
    if parts.len() == 1 {
        lemma_split_dots_no_dot(parts[0]);
        assert(split_dots(join_dots(parts)) =~= parts);
    } else {
        assert(forall|i: int| 0 <= i < parts.drop_first().len() ==> no_dot(
            #[trigger] parts.drop_first()[i],
        ));
        lemma_split_dots_prefix(parts[0], join_dots(parts.drop_first()));
        lemma_split_join_inverse(parts.drop_first());
        assert(split_dots(join_dots(parts)) =~= seq![parts[0]] + parts.drop_first());
        assert(seq![parts[0]] + parts.drop_first() =~= parts);
    }
}

/// Joining after appending one more segment.
pub proof fn lemma_join_dots_push(parts: Seq<Seq<char>>, x: Seq<char>)
    ensures
        parts.len() == 0 ==> join_dots(parts.push(x)) =~= x,
        parts.len() > 0 ==> join_dots(parts.push(x)) =~= join_dots(parts) + seq!['.'] + x,
    decreases parts.len(),
{
    if parts.len() == 0 {
        assert(parts.push(x)[0] == x);
    } else if parts.len() == 1 {
        assert(parts.push(x).drop_first() =~= seq![x]);
        assert(join_dots(seq![x]) == x);
        assert(parts.push(x)[0] == parts[0]);
        assert(join_dots(parts.push(x)) == parts.push(x)[0] + seq!['.'] + join_dots(
            parts.push(x).drop_first(),
        ));
        assert(join_dots(parts.push(x)) =~= parts[0] + seq!['.'] + x);
    } else {
        lemma_join_dots_push(parts.drop_first(), x);
        assert(parts.push(x).drop_first() =~= parts.drop_first().push(x));
        assert(join_dots(parts.push(x)) =~= join_dots(parts) + seq!['.'] + x);
    }
}

/// Concatenates two strings with a `'.'` between them.
pub fn dot_join2(a: &str, b: &str) -> (r: String)
    ensures
        r@ == a@ + seq!['.'] + b@,
{
    let mut r = a.to_owned();
    proof {
        reveal_strlit(".");
        assert("."@ =~= seq!['.']);
    }
    r.append(".");
    r.append(b);
    proof {
        assert(r@ =~= a@ + seq!['.'] + b@);
    }
    r
}

/// Character-exact string equality.
pub fn str_eq(a: &str, b: &str) -> (r: bool)
    ensures
        r == (a@ == b@),
{
    let na = a.unicode_len();
    let nb = b.unicode_len();
    if na != nb {
        return false;
    }
    let mut i: usize = 0;
    while i < na
        invariant
            na == a@.len(),
            na == b@.len(),
            i <= na,
            forall|j: int| 0 <= j < i ==> a@[j] == b@[j],
        decreases na - i,
    {
        if a.get_char(i) != b.get_char(i) {
            return false;
        }
        i += 1;
    }
    proof {
        assert(a@ =~= b@);
    }
    true
}

/// Suffix test, character-exact.
pub fn str_ends_with(s: &str, sfx: &str) -> (r: bool)
    ensures
        r == is_suffix_of(sfx@, s@),
{
    let n = s.unicode_len();
    let m = sfx.unicode_len();
    if m > n {
        return false;
    }
    let off = n - m;
    let mut i: usize = 0;
    while i < m
        invariant
            n == s@.len(),
            m == sfx@.len(),
            m <= n,
            off == n - m,
            i <= m,
            forall|j: int| 0 <= j < i ==> s@[off + j] == sfx@[j],
        decreases m - i,
    {
        if s.get_char(off + i) != sfx.get_char(i) {
            proof {
                assert(s@.skip(s@.len() - sfx@.len())[i as int] != sfx@[i as int]);
            }
            return false;
        }
        i += 1;
    }
    proof {
        assert(s@.skip(s@.len() - sfx@.len()) =~= sfx@);
    }
    true
}

fn matches_at(hay: &str, needle: &str, at: usize) -> (r: bool)
    requires
        at + needle@.len() <= hay@.len(),
    ensures
        r == (hay@.subrange(at as int, at + needle@.len()) == needle@),
{
    let n = hay.unicode_len();
    let m = needle.unicode_len();
    let mut k: usize = 0;
    while k < m
        invariant
            n == hay@.len(),
            m == needle@.len(),
            at + m <= n,
            k <= m,
            forall|l: int| 0 <= l < k ==> hay@[at + l] == needle@[l],
        decreases m - k,
    {
        if hay.get_char(at + k) != needle.get_char(k) {
            proof {
                assert(hay@.subrange(at as int, at + m as int)[k as int] != needle@[k as int]);
            }
            return false;
        }
        k += 1;
    }
    proof {
        assert(hay@.subrange(at as int, at + m as int) =~= needle@);
    }
    true
}

/// Substring containment, character-exact.
pub fn str_contains(hay: &str, needle: &str) -> (r: bool)
    ensures
        r == (exists|i: int| contains_at(hay@, needle@, i)),
{
    let n = hay.unicode_len();
    let m = needle.unicode_len();
    if m > n {
        return false;
    }
    if m == 0 {
        proof {
            assert(hay@.subrange(0, 0) =~= needle@);
            assert(contains_at(hay@, needle@, 0));
        }
        return true;
    }
    let mut i: usize = 0;
    while i <= n - m
        invariant
            n == hay@.len(),
            m == needle@.len(),
            1 <= m <= n,
            i <= n - m + 1,
            forall|j: int| 0 <= j < i ==> !contains_at(hay@, needle@, j),
        decreases n - m - i + 1,
    {
        if matches_at(hay, needle, i) {
            proof {
                assert(contains_at(hay@, needle@, i as int));
            }
            return true;
        }
        i += 1;
    }
    false
}

/// Splits a string at every `'.'`, as `split_dots` describes.
pub fn split_dots_exec(s: &str) -> (parts: Vec<String>)
    ensures
        parts.deep_view() == split_dots(s@),
        parts.len() >= 1,
{
    let n = s.unicode_len();
    let mut parts: Vec<String> = Vec::new();
    let mut start: usize = 0;
    let mut i: usize = 0;
    proof {
        assert(s@.skip(0) =~= s@);
        assert(parts.deep_view() =~= Seq::<Seq<char>>::empty());
        assert(parts.deep_view() + split_dots(s@) =~= split_dots(s@));
        assert(s@.subrange(0, 0) =~= Seq::<char>::empty());
    }
    while i < n
        invariant
            n == s@.len(),
            start <= i <= n,
            no_dot(s@.subrange(start as int, i as int)),
            split_dots(s@) =~= parts.deep_view() + split_dots(s@.skip(start as int)),
        decreases n - i,
    {
        let c = s.get_char(i);
        if c == '.' {
            let seg = s.substring_char(start, i).to_owned();
            let ghost dv0 = parts.deep_view();
            let ghost head = s@.subrange(start as int, i as int);
            proof {
                assert(s@.skip(start as int) =~= head + seq!['.'] + s@.skip(i + 1));
                lemma_split_dots_prefix(head, s@.skip(i + 1));
            }
            parts.push(seg);
            start = i + 1;
            proof {
                assert(parts.deep_view() =~= dv0.push(head));
                assert(dv0 + (seq![head] + split_dots(s@.skip(start as int))) =~= dv0.push(head)
                    + split_dots(s@.skip(start as int)));
                assert(s@.subrange(start as int, start as int) =~= Seq::<char>::empty());
            }
        } else {
            proof {
                assert(s@.subrange(start as int, i + 1) =~= s@.subrange(
                    start as int,
                    i as int,
                ).push(s@[i as int]));
            }
        }
        i += 1;
    }
    let seg = s.substring_char(start, n).to_owned();
    let ghost dv0 = parts.deep_view();
    proof {
        assert(s@.skip(start as int) =~= s@.subrange(start as int, n as int));
        lemma_split_dots_no_dot(s@.skip(start as int));
    }
    parts.push(seg);
    proof {
        assert(parts.deep_view() =~= dv0.push(seg@));
        assert(dv0.push(seg@) =~= dv0 + split_dots(s@.skip(start as int)));
    }
    parts
}

/// Joins segments with `'.'`, as `join_dots` describes.
pub fn join_dots_exec(parts: &Vec<String>) -> (r: String)
    ensures
        r@ == join_dots(parts.deep_view()),
{
    let mut r = String::new();
    let mut i: usize = 0;
    proof {
        assert(parts.deep_view().take(0) =~= Seq::<Seq<char>>::empty());
    }
    while i < parts.len()
        invariant
            i <= parts.len(),
            r@ == join_dots(parts.deep_view().take(i as int)),
        decreases parts.len() - i,
    {
        proof {
            reveal_strlit(".");
            assert("."@ =~= seq!['.']);
            lemma_join_dots_push(parts.deep_view().take(i as int), parts.deep_view()[i as int]);
            assert(parts.deep_view().take(i + 1) =~= parts.deep_view().take(i as int).push(
                parts.deep_view()[i as int],
            ));
        }
        if i > 0 {
            r.append(".");
        }
        r.append(parts[i].as_str());
        i += 1;
    }
    proof {
        assert(parts.deep_view().take(parts.len() as int) =~= parts.deep_view());
    }
    r
}

} // verus!
