//! Template assembly: placeholder substitution and per-width blocks.
//!
//! Substitution replaces every occurrence of a placeholder, scanning left
//! to right without rescanning replaced text, so a replacement value can
//! never combine with surrounding text to form a new placeholder.

use vstd::prelude::*;
use vstd::string::StrSliceExecFns;
use vstd::string::StringExecFns;
use crate::mask::{valid_width, includes_mini, spec_decimal, spec_type_name, spec_mask};
use crate::mask::{decimal, type_name_of, mask};
use crate::templates::{MASK_TEMPLATE, MINI_MASK_TEMPLATE};

verus! {

/// `s` with every occurrence of `pat` replaced by `rep`: the leftmost
/// occurrence is replaced first, scanning resumes after the replacement,
/// and an empty pattern leaves `s` unchanged.
pub open spec fn spec_replace_all(s: Seq<char>, pat: Seq<char>, rep: Seq<char>) -> Seq<char>
    decreases s.len(),
{
    if pat.len() == 0 || s.len() < pat.len() {
        s
    } else if s.subrange(0, pat.len() as int) == pat {
        rep + spec_replace_all(s.skip(pat.len() as int), pat, rep)
    } else {
        seq![s[0]] + spec_replace_all(s.skip(1), pat, rep)
    }
}

/// Whether `pat` occurs in `s` starting at character index `i`.
fn matches_at(s: &str, pat: &str, i: usize, s_len: usize, pat_len: usize) -> (b: bool)
    requires
        s_len == s@.len(),
        pat_len == pat@.len(),
        i + pat_len <= s_len,
    ensures
        b == (s@.subrange(i as int, i + pat_len) == pat@),
{
    let mut j: usize = 0;
    while j < pat_len
        invariant
            j <= pat_len,
            s_len == s@.len(),
            pat_len == pat@.len(),
            i + pat_len <= s_len,
            forall|k: int| 0 <= k < j ==> s@[i + k] == pat@[k],
        decreases pat_len - j,
    {
        let c1 = s.get_char(i + j);
        let c2 = pat.get_char(j);
        if c1 != c2 {
            proof {
                assert(s@.subrange(i as int, i + pat_len)[j as int] == s@[i + j]);
            }
            return false;
        }
        j = j + 1;
    }
    proof {
        assert(s@.subrange(i as int, i + pat_len) =~= pat@);
    }
    true
}

/// Replaces every occurrence of `pat` in `s` with `rep`, leftmost first,
/// never rescanning text that a replacement produced.
pub fn replace_all(s: &str, pat: &str, rep: &str) -> (r: String)
    ensures
        r@ == spec_replace_all(s@, pat@, rep@),
{
    let s_len = s.unicode_len();
    let pat_len = pat.unicode_len();
    if pat_len == 0 {
        return String::from_str(s);
    }
    let mut r = String::new();
    let mut i: usize = 0;
    proof {
        assert(s@.skip(0) =~= s@);
        assert(r@ + spec_replace_all(s@, pat@, rep@) =~= spec_replace_all(s@, pat@, rep@));
    }
    while i < s_len
        invariant
            i <= s_len,
            s_len == s@.len(),
            pat_len == pat@.len(),
            pat_len >= 1,
            spec_replace_all(s@, pat@, rep@) == r@ + spec_replace_all(
                s@.skip(i as int),
                pat@,
                rep@,
            ),
        decreases s_len - i,
    {
        let ghost t = s@.skip(i as int);
        let ghost r0 = r@;
        if pat_len <= s_len - i && matches_at(s, pat, i, s_len, pat_len) {
            r.append(rep);
            proof {
                assert(t.subrange(0, pat_len as int) =~= s@.subrange(i as int, i + pat_len));
                assert(t.skip(pat_len as int) =~= s@.skip(i + pat_len));
                assert(spec_replace_all(t, pat@, rep@) == rep@ + spec_replace_all(
                    s@.skip(i + pat_len),
                    pat@,
                    rep@,
                ));
                assert(r0 + (rep@ + spec_replace_all(s@.skip(i + pat_len), pat@, rep@)) =~= (r0
                    + rep@) + spec_replace_all(s@.skip(i + pat_len), pat@, rep@));
            }
            i = i + pat_len;
        } else {
            let c = s.substring_char(i, i + 1);
            r.append(c);
            proof {
                assert(seq![t[0]] =~= s@.subrange(i as int, i + 1));
                assert(t.skip(1) =~= s@.skip(i + 1));
                if i + pat_len <= s_len {
                    assert(t.subrange(0, pat_len as int) =~= s@.subrange(
                        i as int,
                        i + pat_len,
                    ));
                    assert(t.subrange(0, pat_len as int) != pat@);
                } else {
                    assert(t.len() < pat@.len());
                    assert(spec_replace_all(t, pat@, rep@) == t);
                    assert(t.skip(1).len() < pat@.len());
                    assert(spec_replace_all(t.skip(1), pat@, rep@) == t.skip(1));
                    assert(t =~= seq![t[0]] + t.skip(1));
                }
                assert(spec_replace_all(t, pat@, rep@) == seq![t[0]] + spec_replace_all(
                    t.skip(1),
                    pat@,
                    rep@,
                ));
                assert(r0 + (seq![t[0]] + spec_replace_all(s@.skip(i + 1), pat@, rep@)) =~= (r0
                    + seq![t[0]]) + spec_replace_all(s@.skip(i + 1), pat@, rep@));
            }
            i = i + 1;
        }
    }
    proof {
        assert(s@.skip(i as int) =~= Seq::<char>::empty());
        assert(spec_replace_all(Seq::<char>::empty(), pat@, rep@) == Seq::<char>::empty());
        assert(r@ + Seq::<char>::empty() =~= r@);
    }
    r
}

/// A template with the three placeholders replaced by the values derived
/// for width `w`: the type name, the literal mask, and the decimal width,
/// substituted in that order.
pub open spec fn spec_substitute(t: Seq<char>, w: nat) -> Seq<char> {
    spec_replace_all(
        spec_replace_all(
            spec_replace_all(t, "TYPENAME"@, spec_type_name(w)),
            "TYPEMASK"@,
            spec_mask(w / 8),
        ),
        "TYPESIZE"@,
        spec_decimal(w),
    )
}

fn substitute(t: &str, size: u16, name: &str, m: &str, d: &str) -> (r: String)
    requires
        name@ == spec_type_name(size as nat),
        m@ == spec_mask((size as nat) / 8),
        d@ == spec_decimal(size as nat),
    ensures
        r@ == spec_substitute(t@, size as nat),
{
    let a = replace_all(t, "TYPENAME", name);
    let b = replace_all(a.as_str(), "TYPEMASK", m);
    replace_all(b.as_str(), "TYPESIZE", d)
}

/// The full block generated for width `w`: the substituted base template,
/// followed by the substituted mini template exactly when the width
/// receives the mini variant.
pub open spec fn spec_block(w: u16) -> Seq<char> {
    if includes_mini(w) {
        spec_substitute(MASK_TEMPLATE@, w as nat) + spec_substitute(MINI_MASK_TEMPLATE@, w as nat)
    } else {
        spec_substitute(MASK_TEMPLATE@, w as nat)
    }
}

/// Generates the text block for one width: the mask accessor and checked
/// cast always, plus the mini mask accessor and unchecked mini cast for
/// widths of 32 bits and above.
pub fn generate_cast(size: u16) -> (r: String)
    requires
        valid_width(size),
    ensures
        r@ == spec_block(size),
{
    let name = type_name_of(size);
    let m = mask(size);
    let d = decimal(size);
    let base = substitute(MASK_TEMPLATE, size, name.as_str(), m.as_str(), d.as_str());
    if size < 32 {
        return base;
    }
    let mini = substitute(MINI_MASK_TEMPLATE, size, name.as_str(), m.as_str(), d.as_str());
    base.concat(mini.as_str())
}

} // verus!
