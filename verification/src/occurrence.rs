//! Substring occurrence, and what placeholder substitution does to it.
//!
//! Substitution output interleaves pieces of the template with replacement
//! values. When a replacement value shares no character with a pattern,
//! the pattern can neither survive its own replacement nor arise anew:
//! the lemmas below make that argument precise.

use vstd::prelude::*;
use crate::assemble::spec_replace_all;

verus! {

/// Whether `pat` occurs in `s` starting at position `i`.
pub open spec fn occurs_at(s: Seq<char>, pat: Seq<char>, i: int) -> bool {
    0 <= i && i + pat.len() <= s.len() && s.subrange(i, i + pat.len()) == pat
}

/// Whether `pat` occurs anywhere in `s`.
pub open spec fn occurs(s: Seq<char>, pat: Seq<char>) -> bool {
    exists|i: int| occurs_at(s, pat, i)
}

/// No character of `p` appears anywhere in `s`.
pub open spec fn avoids_chars(s: Seq<char>, p: Seq<char>) -> bool {
    forall|i: int, j: int| 0 <= i < s.len() && 0 <= j < p.len() ==> s[i] != p[j]
}

/// An occurrence in a suffix of `s` is an occurrence in `s`.
pub proof fn lemma_occurs_in_skip(s: Seq<char>, pat: Seq<char>, k: int)
    requires
        0 <= k <= s.len(),
        occurs(s.skip(k), pat),
    ensures
        occurs(s, pat),
{
    let i = choose|i: int| occurs_at(s.skip(k), pat, i);
    assert(s.subrange(k + i, k + i + pat.len()) =~= s.skip(k).subrange(i, i + pat.len()));
    assert(occurs_at(s, pat, k + i));
}

/// An occurrence of `name` brings an occurrence of every part of `name`.
pub proof fn lemma_occurs_within(s: Seq<char>, name: Seq<char>, j: int, l: int)
    requires
        occurs(s, name),
        0 <= j,
        0 <= l,
        j + l <= name.len(),
    ensures
        occurs(s, name.subrange(j, j + l)),
{
    let i = choose|i: int| occurs_at(s, name, i);
    assert(s.subrange(i + j, i + j + l) =~= name.subrange(j, j + l));
    assert(occurs_at(s, name.subrange(j, j + l), i + j));
}

/// A pattern absent from both halves and whose characters never open the
/// right half cannot occur in the concatenation: an occurrence crossing
/// the seam would have to cover the right half's first character.
pub proof fn lemma_concat_avoids_boundary(a: Seq<char>, b: Seq<char>, p: Seq<char>)
    requires
        p.len() >= 1,
        !occurs(a, p),
        !occurs(b, p),
        b.len() >= 1 ==> forall|m: int| 0 <= m < p.len() ==> p[m] != b[0],
    ensures
        !occurs(a + b, p),
{
    assert forall|i: int| !occurs_at(a + b, p, i) by {
        if occurs_at(a + b, p, i) {
            if i + p.len() <= a.len() {
                assert(a.subrange(i, i + p.len()) =~= (a + b).subrange(i, i + p.len()));
                assert(occurs_at(a, p, i));
            } else if i >= a.len() {
                assert(b.subrange(i - a.len(), i - a.len() + p.len()) =~= (a + b).subrange(
                    i,
                    i + p.len(),
                ));
                assert(occurs_at(b, p, i - a.len()));
            } else {
                assert((a + b).subrange(i, i + p.len())[a.len() - i] == b[0]);
                assert(p[a.len() - i] == b[0]);
            }
        }
    }
}

/// Substitution of a non-empty value in non-empty text leaves text.
pub proof fn lemma_replace_nonempty(s: Seq<char>, pat: Seq<char>, rep: Seq<char>)
    requires
        s.len() >= 1,
        rep.len() >= 1,
    ensures
        spec_replace_all(s, pat, rep).len() >= 1,
    decreases s.len(),
{
}

/// The first character of a substitution result is the first character of
/// the input or of the replacement value.
pub proof fn lemma_replace_first(s: Seq<char>, pat: Seq<char>, rep: Seq<char>)
    requires
        rep.len() >= 1,
        spec_replace_all(s, pat, rep).len() >= 1,
    ensures
        spec_replace_all(s, pat, rep)[0] == s[0] || spec_replace_all(s, pat, rep)[0] == rep[0],
{
}

/// An occurrence in the right half of a concatenation is an occurrence in
/// the whole.
pub proof fn lemma_occurs_in_concat_right(a: Seq<char>, b: Seq<char>, pat: Seq<char>)
    requires
        occurs(b, pat),
    ensures
        occurs(a + b, pat),
{
    let i = choose|i: int| occurs_at(b, pat, i);
    assert((a + b).subrange(a.len() + i, a.len() + i + pat.len()) =~= b.subrange(
        i,
        i + pat.len(),
    ));
    assert(occurs_at(a + b, pat, a.len() + i));
}

/// Substituting a pattern that does not occur changes nothing.
pub proof fn lemma_replace_identity(s: Seq<char>, pat: Seq<char>, rep: Seq<char>)
    requires
        pat.len() >= 1,
        !occurs(s, pat),
    ensures
        spec_replace_all(s, pat, rep) == s,
    decreases s.len(),
{
    if s.len() < pat.len() {
        // nothing to replace
    } else if s.subrange(0, pat.len() as int) == pat {
        assert(occurs_at(s, pat, 0));
    } else {
        if occurs(s.skip(1), pat) {
            lemma_occurs_in_skip(s, pat, 1);
        }
        lemma_replace_identity(s.skip(1), pat, rep);
        assert(seq![s[0]] + s.skip(1) =~= s);
    }
}

/// Substitution acts on the first pattern occurrence independently: with
/// no occurrence starting inside `x1`, the text up to the occurrence is
/// kept, the occurrence becomes the replacement value, and the remainder
/// is substituted on its own.
pub proof fn lemma_replace_split(x1: Seq<char>, pat: Seq<char>, rest: Seq<char>, rep: Seq<char>)
    requires
        pat.len() >= 1,
        forall|j: int| 0 <= j < x1.len() ==> !occurs_at(x1 + pat + rest, pat, j),
    ensures
        spec_replace_all(x1 + pat + rest, pat, rep) == x1 + rep + spec_replace_all(
            rest,
            pat,
            rep,
        ),
    decreases x1.len(),
{
    let t = x1 + pat + rest;
    if x1.len() == 0 {
        assert(t.subrange(0, pat.len() as int) =~= pat);
        assert(t.skip(pat.len() as int) =~= rest);
        assert(x1 + rep + spec_replace_all(rest, pat, rep) =~= rep + spec_replace_all(
            rest,
            pat,
            rep,
        ));
    } else {
        if t.subrange(0, pat.len() as int) == pat {
            assert(occurs_at(t, pat, 0));
        }
        assert(t.skip(1) =~= x1.skip(1) + pat + rest);
        assert forall|j: int| 0 <= j < x1.skip(1).len() implies !occurs_at(
            x1.skip(1) + pat + rest,
            pat,
            j,
        ) by {
            if occurs_at(x1.skip(1) + pat + rest, pat, j) {
                assert(t.subrange(j + 1, j + 1 + pat.len()) =~= (x1.skip(1) + pat
                    + rest).subrange(j, j + pat.len()));
                assert(occurs_at(t, pat, j + 1));
            }
        }
        lemma_replace_split(x1.skip(1), pat, rest, rep);
        assert(t[0] == x1[0]);
        assert(seq![t[0]] + (x1.skip(1) + rep + spec_replace_all(rest, pat, rep)) =~= x1 + rep
            + spec_replace_all(rest, pat, rep));
    }
}

/// Text before the first pattern occurrence survives substitution as the
/// same prefix of the result.
pub proof fn lemma_replace_keeps_prefix(
    s: Seq<char>,
    pat: Seq<char>,
    rep: Seq<char>,
    y: Seq<char>,
)
    requires
        pat.len() >= 1,
        y.len() <= s.len(),
        y == s.subrange(0, y.len() as int),
        forall|j: int| 0 <= j < y.len() ==> !occurs_at(s, pat, j),
    ensures
        spec_replace_all(s, pat, rep).len() >= y.len(),
        spec_replace_all(s, pat, rep).subrange(0, y.len() as int) == y,
    decreases s.len(),
{
    let out = spec_replace_all(s, pat, rep);
    if y.len() == 0 {
        assert(out.subrange(0, 0) =~= y);
    } else if s.len() < pat.len() {
        // nothing was replaced
    } else if s.subrange(0, pat.len() as int) == pat {
        assert(occurs_at(s, pat, 0));
    } else {
        let rest = spec_replace_all(s.skip(1), pat, rep);
        assert(y.skip(1) =~= s.skip(1).subrange(0, y.len() - 1));
        assert forall|j: int| 0 <= j < y.len() - 1 implies !occurs_at(s.skip(1), pat, j) by {
            if occurs_at(s.skip(1), pat, j) {
                assert(s.subrange(j + 1, j + 1 + pat.len()) =~= s.skip(1).subrange(
                    j,
                    j + pat.len(),
                ));
                assert(occurs_at(s, pat, j + 1));
            }
        }
        lemma_replace_keeps_prefix(s.skip(1), pat, rep, y.skip(1));
        assert forall|k: int| 0 <= k < y.len() implies out.subrange(0, y.len() as int)[k]
            == y[k] by {
            if k == 0 {
                assert(out[0] == s[0]);
                assert(y[0] == s.subrange(0, y.len() as int)[0]);
            } else {
                assert(out[k] == rest[k - 1]);
                assert(rest.subrange(0, y.len() - 1)[k - 1] == y.skip(1)[k - 1]);
            }
        }
        assert(out.subrange(0, y.len() as int) =~= y);
    }
}

/// Text that no pattern occurrence overlaps survives substitution.
pub proof fn lemma_replace_keeps(
    s: Seq<char>,
    pat: Seq<char>,
    rep: Seq<char>,
    x: Seq<char>,
    i: int,
)
    requires
        pat.len() >= 1,
        x.len() >= 1,
        occurs_at(s, x, i),
        forall|j: int| occurs_at(s, pat, j) ==> j + pat.len() <= i || j >= i + x.len(),
    ensures
        occurs(spec_replace_all(s, pat, rep), x),
    decreases s.len(),
{
    let out = spec_replace_all(s, pat, rep);
    if s.len() < pat.len() {
        assert(occurs_at(out, x, i));
    } else if s.subrange(0, pat.len() as int) == pat {
        assert(occurs_at(s, pat, 0));
        let k = pat.len() as int;
        assert(s.skip(k).subrange(i - k, i - k + x.len()) =~= s.subrange(i, i + x.len()));
        assert(occurs_at(s.skip(k), x, i - k));
        assert forall|j: int| occurs_at(s.skip(k), pat, j) implies j + pat.len() <= i - k || j
            >= i - k + x.len() by {
            if occurs_at(s.skip(k), pat, j) {
                assert(s.subrange(k + j, k + j + pat.len()) =~= s.skip(k).subrange(
                    j,
                    j + pat.len(),
                ));
                assert(occurs_at(s, pat, k + j));
            }
        }
        lemma_replace_keeps(s.skip(k), pat, rep, x, i - k);
        lemma_occurs_in_concat_right(rep, spec_replace_all(s.skip(k), pat, rep), x);
    } else if i >= 1 {
        assert(s.skip(1).subrange(i - 1, i - 1 + x.len()) =~= s.subrange(i, i + x.len()));
        assert(occurs_at(s.skip(1), x, i - 1));
        assert forall|j: int| occurs_at(s.skip(1), pat, j) implies j + pat.len() <= i - 1 || j
            >= i - 1 + x.len() by {
            if occurs_at(s.skip(1), pat, j) {
                assert(s.subrange(1 + j, 1 + j + pat.len()) =~= s.skip(1).subrange(
                    j,
                    j + pat.len(),
                ));
                assert(occurs_at(s, pat, 1 + j));
            }
        }
        lemma_replace_keeps(s.skip(1), pat, rep, x, i - 1);
        lemma_occurs_in_concat_right(seq![s[0]], spec_replace_all(s.skip(1), pat, rep), x);
    } else {
        assert forall|j: int| 0 <= j < x.len() implies !occurs_at(s, pat, j) by {
            if occurs_at(s, pat, j) {
                assert(j + pat.len() <= 0 || j >= x.len());
            }
        }
        assert(x == s.subrange(0, x.len() as int));
        lemma_replace_keeps_prefix(s, pat, rep, x);
        assert(out.subrange(0, x.len() as int) == x);
        assert(occurs_at(out, x, 0));
    }
}

/// A sequence whose head and tail agree with the start of `s` is a prefix
/// of `s`.
proof fn lemma_stitch_prefix(s: Seq<char>, y: Seq<char>)
    requires
        1 <= y.len() <= s.len(),
        y[0] == s[0],
        y.skip(1) == s.skip(1).subrange(0, y.len() - 1),
    ensures
        y == s.subrange(0, y.len() as int),
{
    assert forall|k: int| 0 <= k < y.len() implies y[k] == s.subrange(0, y.len() as int)[k] by {
        if k >= 1 {
            assert(y[k] == y.skip(1)[k - 1]);
            assert(s.skip(1).subrange(0, y.len() - 1)[k - 1] == s[k]);
        }
    }
    assert(y =~= s.subrange(0, y.len() as int));
}

/// A prefix of a substitution result that shares no character with the
/// replacement value was already a prefix of the input.
proof fn lemma_prefix_of_replace(s: Seq<char>, pat: Seq<char>, rep: Seq<char>, y: Seq<char>)
    requires
        rep.len() >= 1,
        avoids_chars(rep, y),
        y.len() <= spec_replace_all(s, pat, rep).len(),
        y == spec_replace_all(s, pat, rep).subrange(0, y.len() as int),
    ensures
        y.len() <= s.len(),
        y == s.subrange(0, y.len() as int),
    decreases s.len(),
{
    let out = spec_replace_all(s, pat, rep);
    if y.len() == 0 {
        assert(y =~= s.subrange(0, 0));
    } else if pat.len() == 0 || s.len() < pat.len() {
        // nothing was replaced
    } else if s.subrange(0, pat.len() as int) == pat {
        assert(y[0] == out[0]);
        assert(out[0] == rep[0]);
    } else {
        let rest = spec_replace_all(s.skip(1), pat, rep);
        assert(y[0] == s[0]);
        assert(y.skip(1) =~= rest.subrange(0, y.len() - 1));
        assert(avoids_chars(rep, y.skip(1)));
        lemma_prefix_of_replace(s.skip(1), pat, rep, y.skip(1));
        lemma_stitch_prefix(s, y);
    }
}

/// Substitution cannot create a pattern that the input avoids when the
/// replacement value shares no character with that pattern.
pub proof fn lemma_replace_preserves_avoiding(
    s: Seq<char>,
    pat: Seq<char>,
    rep: Seq<char>,
    p: Seq<char>,
)
    requires
        p.len() >= 1,
        !occurs(s, p),
        avoids_chars(rep, p),
        rep.len() >= 1,
    ensures
        !occurs(spec_replace_all(s, pat, rep), p),
    decreases s.len(),
{
    let out = spec_replace_all(s, pat, rep);
    if pat.len() == 0 || s.len() < pat.len() {
        // nothing was replaced
    } else if s.subrange(0, pat.len() as int) == pat {
        if occurs(s.skip(pat.len() as int), p) {
            lemma_occurs_in_skip(s, p, pat.len() as int);
        }
        lemma_replace_preserves_avoiding(s.skip(pat.len() as int), pat, rep, p);
        let rest = spec_replace_all(s.skip(pat.len() as int), pat, rep);
        assert forall|i: int| !occurs_at(out, p, i) by {
            if occurs_at(out, p, i) {
                if i < rep.len() {
                    assert(out.subrange(i, i + p.len())[0] == rep[i]);
                } else {
                    assert(rest.subrange(i - rep.len(), i - rep.len() + p.len()) =~= out.subrange(
                        i,
                        i + p.len(),
                    ));
                    assert(occurs_at(rest, p, i - rep.len()));
                }
            }
        }
    } else {
        if occurs(s.skip(1), p) {
            lemma_occurs_in_skip(s, p, 1);
        }
        lemma_replace_preserves_avoiding(s.skip(1), pat, rep, p);
        let rest = spec_replace_all(s.skip(1), pat, rep);
        assert forall|i: int| !occurs_at(out, p, i) by {
            if occurs_at(out, p, i) {
                if i >= 1 {
                    assert(rest.subrange(i - 1, i - 1 + p.len()) =~= out.subrange(
                        i,
                        i + p.len(),
                    ));
                    assert(occurs_at(rest, p, i - 1));
                } else {
                    assert(p[0] == out.subrange(0, p.len() as int)[0]);
                    assert(p[0] == s[0]);
                    assert(p.skip(1) =~= rest.subrange(0, p.len() - 1));
                    assert(avoids_chars(rep, p.skip(1)));
                    lemma_prefix_of_replace(s.skip(1), pat, rep, p.skip(1));
                    lemma_stitch_prefix(s, p);
                    assert(occurs_at(s, p, 0));
                }
            }
        }
    }
}

/// Substitution replaces every occurrence: the pattern itself never
/// occurs in the result when the replacement value shares no character
/// with it.
pub proof fn lemma_replace_removes_pattern(s: Seq<char>, pat: Seq<char>, rep: Seq<char>)
    requires
        pat.len() >= 1,
        avoids_chars(rep, pat),
        rep.len() >= 1,
    ensures
        !occurs(spec_replace_all(s, pat, rep), pat),
    decreases s.len(),
{
    let out = spec_replace_all(s, pat, rep);
    if s.len() < pat.len() {
        assert forall|i: int| !occurs_at(out, pat, i) by {}
    } else if s.subrange(0, pat.len() as int) == pat {
        lemma_replace_removes_pattern(s.skip(pat.len() as int), pat, rep);
        let rest = spec_replace_all(s.skip(pat.len() as int), pat, rep);
        assert forall|i: int| !occurs_at(out, pat, i) by {
            if occurs_at(out, pat, i) {
                if i < rep.len() {
                    assert(out.subrange(i, i + pat.len())[0] == rep[i]);
                } else {
                    assert(rest.subrange(i - rep.len(), i - rep.len() + pat.len())
                        =~= out.subrange(i, i + pat.len()));
                    assert(occurs_at(rest, pat, i - rep.len()));
                }
            }
        }
    } else {
        lemma_replace_removes_pattern(s.skip(1), pat, rep);
        let rest = spec_replace_all(s.skip(1), pat, rep);
        assert forall|i: int| !occurs_at(out, pat, i) by {
            if occurs_at(out, pat, i) {
                if i >= 1 {
                    assert(rest.subrange(i - 1, i - 1 + pat.len()) =~= out.subrange(
                        i,
                        i + pat.len(),
                    ));
                    assert(occurs_at(rest, pat, i - 1));
                } else {
                    assert(pat[0] == out.subrange(0, pat.len() as int)[0]);
                    assert(pat[0] == s[0]);
                    assert(pat.skip(1) =~= rest.subrange(0, pat.len() - 1));
                    assert(avoids_chars(rep, pat.skip(1)));
                    lemma_prefix_of_replace(s.skip(1), pat, rep, pat.skip(1));
                    lemma_stitch_prefix(s, pat);
                    assert(s.subrange(0, pat.len() as int) == pat);
                }
            }
        }
    }
}

} // verus!
