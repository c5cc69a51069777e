//! Mask derivation: per-width values substituted into the templates.
//!
//! Every generated block is identified by a bit width. From the width the
//! deriver computes a type name (`U` followed by the decimal width), the
//! all-ones hexadecimal mask of that width, and whether the width receives
//! the size-optimized mini variant.

use vstd::prelude::*;
use vstd::string::StringExecFns;

verus! {

/// A block is generated for every bit width that is a multiple of 8
/// between 8 and 256 inclusive.
pub open spec fn valid_width(w: u16) -> bool {
    8 <= w <= 256 && w % 8 == 0
}

/// The mini (compute-the-mask-at-expansion-time) variant applies to
/// widths of 32 bits and above.
pub open spec fn includes_mini(w: u16) -> bool {
    w >= 32
}

/// The character for one decimal digit.
pub open spec fn digit_char(d: nat) -> char {
    if d == 0 {
        '0'
    } else if d == 1 {
        '1'
    } else if d == 2 {
        '2'
    } else if d == 3 {
        '3'
    } else if d == 4 {
        '4'
    } else if d == 5 {
        '5'
    } else if d == 6 {
        '6'
    } else if d == 7 {
        '7'
    } else if d == 8 {
        '8'
    } else {
        '9'
    }
}

/// The decimal representation of `n`, most significant digit first,
/// with no sign and no leading zeros (`0` itself is the single digit `0`).
pub open spec fn spec_decimal(n: nat) -> Seq<char>
    decreases n,
{
    if n < 10 {
        seq![digit_char(n)]
    } else {
        spec_decimal(n / 10) + seq![digit_char(n % 10)]
    }
}

/// The type name for a width: `U` followed by the decimal width.
pub open spec fn spec_type_name(w: nat) -> Seq<char> {
    "U"@ + spec_decimal(w)
}

/// The hexadecimal all-ones mask covering `bytes` bytes: `0x` followed by
/// `bytes` repetitions of the pair `ff`.
pub open spec fn spec_mask(bytes: nat) -> Seq<char>
    decreases bytes,
{
    if bytes == 0 {
        "0x"@
    } else {
        spec_mask((bytes - 1) as nat) + "ff"@
    }
}

fn digit_str(d: u16) -> (r: &'static str)
    requires
        d < 10,
    ensures
        r@ == seq![digit_char(d as nat)],
{
    proof {
        reveal_strlit("0");
        reveal_strlit("1");
        reveal_strlit("2");
        reveal_strlit("3");
        reveal_strlit("4");
        reveal_strlit("5");
        reveal_strlit("6");
        reveal_strlit("7");
        reveal_strlit("8");
        reveal_strlit("9");
        assert("0"@ =~= seq!['0']);
        assert("1"@ =~= seq!['1']);
        assert("2"@ =~= seq!['2']);
        assert("3"@ =~= seq!['3']);
        assert("4"@ =~= seq!['4']);
        assert("5"@ =~= seq!['5']);
        assert("6"@ =~= seq!['6']);
        assert("7"@ =~= seq!['7']);
        assert("8"@ =~= seq!['8']);
        assert("9"@ =~= seq!['9']);
    }
    if d == 0 {
        "0"
    } else if d == 1 {
        "1"
    } else if d == 2 {
        "2"
    } else if d == 3 {
        "3"
    } else if d == 4 {
        "4"
    } else if d == 5 {
        "5"
    } else if d == 6 {
        "6"
    } else if d == 7 {
        "7"
    } else if d == 8 {
        "8"
    } else {
        "9"
    }
}

/// The decimal representation of `n` as a string.
pub fn decimal(n: u16) -> (r: String)
    ensures
        r@ == spec_decimal(n as nat),
    decreases n,
{
    if n < 10 {
        String::from_str(digit_str(n))
    } else {
        let mut r = decimal(n / 10);
        r.append(digit_str(n % 10));
        r
    }
}

/// The type name for a width, such as `U8` or `U256`.
pub fn type_name_of(size: u16) -> (r: String)
    ensures
        r@ == spec_type_name(size as nat),
{
    let mut r = String::from_str("U");
    let d = decimal(size);
    r.append(d.as_str());
    r
}

/// The literal hexadecimal mask for a width: `0x` followed by `size / 8`
/// repetitions of `ff`, the canonical form of `2^size - 1` for a
/// byte-aligned width.
pub fn mask(size: u16) -> (r: String)
    requires
        valid_width(size),
    ensures
        r@ == spec_mask((size / 8) as nat),
{
    let mut r = String::from_str("0x");
    let n = size / 8;
    let mut k: u16 = 0;
    while k < n
        invariant
            k <= n,
            r@ == spec_mask(k as nat),
        decreases n - k,
    {
        r.append("ff");
        k = k + 1;
    }
    r
}

} // verus!
