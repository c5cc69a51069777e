//! Document assembly: the width list, block joining, and the final text.
//!
//! The widths are a fixed ascending list; the document is the header, the
//! error definition, the per-width blocks joined by single newlines, and
//! the shared mini-mask helper, in that order.

use vstd::prelude::*;
use vstd::string::StringExecFns;
use crate::assemble::{spec_block, generate_cast};
use crate::mask::valid_width;
use crate::templates::{HEADER, ERROR_DEFINITION, MINI_MASK_DEFINITION};

verus! {

/// The fixed width list: every multiple of 8 from 8 to 256, ascending.
pub open spec fn spec_widths() -> Seq<u16> {
    Seq::new(32, |i: int| (8 * (i + 1)) as u16)
}

/// The blocks for `ws`, in order, joined by a single newline between
/// consecutive blocks and nothing before the first or after the last.
pub open spec fn spec_joined(ws: Seq<u16>) -> Seq<char>
    decreases ws.len(),
{
    if ws.len() == 0 {
        Seq::<char>::empty()
    } else if ws.len() == 1 {
        spec_block(ws[0])
    } else {
        spec_block(ws[0]) + "\n"@ + spec_joined(ws.drop_first())
    }
}

/// The whole generated document: header, error definition, the joined
/// per-width blocks, and the shared mini-mask helper, concatenated.
pub open spec fn spec_document() -> Seq<char> {
    HEADER@ + ERROR_DEFINITION@ + spec_joined(spec_widths()) + MINI_MASK_DEFINITION@
}

/// Appending a width to a non-empty list appends a newline and its block.
proof fn lemma_joined_push(ws: Seq<u16>, w: u16)
    requires
        ws.len() >= 1,
    ensures
        spec_joined(ws.push(w)) == spec_joined(ws) + "\n"@ + spec_block(w),
    decreases ws.len(),
{
    if ws.len() == 1 {
        assert(ws.push(w).drop_first() =~= seq![w]);
        assert(spec_joined(seq![w]) == spec_block(w));
        assert(ws.push(w)[0] == ws[0]);
    } else {
        assert(ws.push(w).drop_first() =~= ws.drop_first().push(w));
        lemma_joined_push(ws.drop_first(), w);
        assert(spec_block(ws[0]) + "\n"@ + (spec_joined(ws.drop_first()) + "\n"@ + spec_block(w))
            =~= (spec_block(ws[0]) + "\n"@ + spec_joined(ws.drop_first())) + "\n"@ + spec_block(
            w,
        ));
    }
}

/// Every entry of the fixed width list is a valid width.
pub proof fn lemma_widths_valid(i: int)
    requires
        0 <= i < spec_widths().len(),
    ensures
        spec_widths()[i] == 8 * (i + 1),
        valid_width(spec_widths()[i]),
{
    assert((8 * (i + 1)) % 8 == 0 && 8 <= 8 * (i + 1) <= 256) by (nonlinear_arith)
        requires
            0 <= i < 32,
    ;
    assert(spec_widths()[i] == (8 * (i + 1)) as u16);
}

/// The fixed width list: every multiple of 8 from 8 to 256, ascending.
pub fn widths() -> (r: Vec<u16>)
    ensures
        r@ == spec_widths(),
{
    let mut r: Vec<u16> = Vec::new();
    let mut k: u16 = 1;
    while k <= 32
        invariant
            1 <= k <= 33,
            r@.len() == k - 1,
            forall|j: int| 0 <= j < k - 1 ==> r@[j] == 8 * (j + 1),
        decreases 33 - k,
    {
        r.push(8 * k);
        k = k + 1;
    }
    proof {
        assert(r@ =~= spec_widths());
    }
    r
}

/// Generates the whole casting library document: the header, the error
/// definition, one block per width in ascending width order joined by
/// single newlines, and the shared mini-mask helper at the end.
pub fn generate_libcast() -> (r: String)
    ensures
        r@ == spec_document(),
{
    let ws = widths();
    proof {
        lemma_widths_valid(0);
    }
    let first = generate_cast(ws[0]);
    let mut blocks = first;
    let mut i: usize = 1;
    proof {
        assert(ws@.take(1) =~= seq![ws@[0]]);
    }
    while i < ws.len()
        invariant
            1 <= i <= ws@.len(),
            ws@ == spec_widths(),
            blocks@ == spec_joined(ws@.take(i as int)),
        decreases ws@.len() - i,
    {
        proof {
            lemma_widths_valid(i as int);
        }
        blocks.append("\n");
        let b = generate_cast(ws[i]);
        blocks.append(b.as_str());
        proof {
            lemma_joined_push(ws@.take(i as int), ws@[i as int]);
            assert(ws@.take(i + 1) =~= ws@.take(i as int).push(ws@[i as int]));
            assert((spec_joined(ws@.take(i as int)) + "\n"@) + spec_block(ws@[i as int])
                =~= spec_joined(ws@.take(i as int)) + "\n"@ + spec_block(ws@[i as int]));
        }
        i = i + 1;
    }
    proof {
        assert(ws@.take(ws@.len() as int) =~= spec_widths());
    }
    let mut r = String::from_str(HEADER);
    r.append(ERROR_DEFINITION);
    r.append(blocks.as_str());
    r.append(MINI_MASK_DEFINITION);
    proof {
        assert(((HEADER@ + ERROR_DEFINITION@) + spec_joined(spec_widths())) + MINI_MASK_DEFINITION@
            =~= spec_document());
    }
    r
}

} // verus!
