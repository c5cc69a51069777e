//! Properties of the generated document and of the names it emits.
//!
//! Stated and proved here: the mask shape, the mini-variant selection,
//! determinism, the document layout with its ascending width order, the
//! pairwise distinctness of the emitted macro names, that no placeholder
//! survives substitution, that blocks below 32 bits hold no mini name
//! while blocks from 32 bits up hold theirs, and that the shared helper's
//! definition stands at exactly one place, at the document's end.

use vstd::prelude::*;
use crate::assemble::{spec_block, spec_replace_all, spec_substitute};
use crate::occurrence::{
    avoids_chars, occurs, occurs_at, lemma_concat_avoids_boundary,
    lemma_occurs_in_concat_right, lemma_occurs_within, lemma_replace_first,
    lemma_replace_identity, lemma_replace_keeps, lemma_replace_keeps_prefix,
    lemma_replace_nonempty, lemma_replace_preserves_avoiding, lemma_replace_removes_pattern,
    lemma_replace_split,
};
use crate::document::{spec_document, spec_joined, spec_widths, lemma_widths_valid};
use crate::mask::{
    valid_width, includes_mini, digit_char, spec_decimal, spec_type_name, spec_mask,
};
use crate::templates::{
    HEADER, ERROR_DEFINITION, MASK_TEMPLATE, MINI_MASK_TEMPLATE, MINI_MASK_DEFINITION,
};

verus! {

/// Whether `c` is a decimal digit character.
pub open spec fn is_digit_char(c: char) -> bool {
    c == '0' || c == '1' || c == '2' || c == '3' || c == '4' || c == '5' || c == '6' || c == '7'
        || c == '8' || c == '9'
}

/// A decimal representation is non-empty, grows with a second digit from
/// ten upward, and consists of digit characters only.
pub proof fn lemma_decimal_shape(n: nat)
    ensures
        spec_decimal(n).len() >= 1,
        n >= 10 ==> spec_decimal(n).len() >= 2,
        forall|i: int| 0 <= i < spec_decimal(n).len() ==> is_digit_char(#[trigger] spec_decimal(n)[i]),
    decreases n,
{
    if n >= 10 {
        lemma_decimal_shape(n / 10);
    }
}

/// No two naturals share a decimal representation.
pub proof fn lemma_decimal_injective(a: nat, b: nat)
    requires
        spec_decimal(a) == spec_decimal(b),
    ensures
        a == b,
    decreases a + b,
{
    lemma_decimal_shape(a);
    lemma_decimal_shape(b);
    if a < 10 && b < 10 {
        assert(spec_decimal(a)[0] == digit_char(a));
        assert(spec_decimal(b)[0] == digit_char(b));
    } else if a >= 10 && b >= 10 {
        let la = spec_decimal(a).len() as int;
        assert(spec_decimal(a)[la - 1] == digit_char(a % 10));
        assert(spec_decimal(b)[la - 1] == digit_char(b % 10));
        assert(a % 10 == b % 10);
        assert(spec_decimal(a / 10) =~= spec_decimal(a).subrange(0, la - 1));
        assert(spec_decimal(b / 10) =~= spec_decimal(b).subrange(0, la - 1));
        lemma_decimal_injective(a / 10, b / 10);
        assert(a == 10 * (a / 10) + a % 10);
        assert(b == 10 * (b / 10) + b % 10);
    } else if a < 10 {
        assert(spec_decimal(a).len() == 1);
        assert(false);
    } else {
        assert(spec_decimal(b).len() == 1);
        assert(false);
    }
}

/// A type name starts with `U`, continues with digits only, and is at
/// least two characters long.
pub proof fn lemma_type_name_shape(w: nat)
    ensures
        spec_type_name(w).len() >= 2,
        spec_type_name(w)[0] == 'U',
        forall|i: int|
            1 <= i < spec_type_name(w).len() ==> is_digit_char(#[trigger] spec_type_name(w)[i]),
{
    reveal_strlit("U");
    lemma_decimal_shape(w);
    assert forall|i: int| 1 <= i < spec_type_name(w).len() implies is_digit_char(
        spec_type_name(w)[i],
    ) by {
        assert(spec_type_name(w)[i] == spec_decimal(w)[i - 1]);
    }
}

/// No two widths share a type name.
pub proof fn lemma_type_name_injective(a: nat, b: nat)
    requires
        spec_type_name(a) == spec_type_name(b),
    ensures
        a == b,
{
    reveal_strlit("U");
    assert(spec_decimal(a) =~= spec_type_name(a).skip(1));
    assert(spec_decimal(b) =~= spec_type_name(b).skip(1));
    lemma_decimal_injective(a, b);
}

/// The mask for a valid width `w` is `0x` followed by `w / 4` hexadecimal
/// `f` digits, two for each byte of the width.
pub proof fn lemma_mask_shape(w: u16)
    requires
        valid_width(w),
    ensures
        spec_mask((w as nat) / 8).len() == 2 + (w as int) / 4,
        spec_mask((w as nat) / 8)[0] == '0',
        spec_mask((w as nat) / 8)[1] == 'x',
        forall|i: int|
            2 <= i < spec_mask((w as nat) / 8).len() ==> #[trigger] spec_mask((w as nat) / 8)[i]
                == 'f',
{
    lemma_mask_chars((w as nat) / 8);
    assert(w % 8 == 0 ==> w / 4 == 2 * (w / 8)) by (bit_vector);
}

/// The mask over `n` bytes is `0x` followed by `2 * n` repetitions of `f`.
proof fn lemma_mask_chars(n: nat)
    ensures
        spec_mask(n).len() == 2 + 2 * n,
        spec_mask(n)[0] == '0',
        spec_mask(n)[1] == 'x',
        forall|i: int| 2 <= i < 2 + 2 * n ==> #[trigger] spec_mask(n)[i] == 'f',
    decreases n,
{
    reveal_strlit("0x");
    reveal_strlit("ff");
    if n == 0 {
        assert(spec_mask(0) == "0x"@);
    } else {
        lemma_mask_chars((n - 1) as nat);
    }
}

/// The mini variant belongs to a block exactly when the width is at least
/// 32 bits: below that the block is the substituted base template alone,
/// from 32 upward the substituted mini template follows it.
pub proof fn lemma_mini_selection(w: u16)
    requires
        valid_width(w),
    ensures
        includes_mini(w) <==> w >= 32,
        !includes_mini(w) ==> spec_block(w) == spec_substitute(MASK_TEMPLATE@, w as nat),
        includes_mini(w) ==> spec_block(w) == spec_substitute(MASK_TEMPLATE@, w as nat)
            + spec_substitute(MINI_MASK_TEMPLATE@, w as nat),
{
}

/// Generation is deterministic: any two generated documents are equal,
/// character for character.
pub proof fn lemma_generation_deterministic(a: Seq<char>, b: Seq<char>)
    requires
        a == spec_document(),
        b == spec_document(),
    ensures
        a == b,
{
}

/// The document holds the header, the error definition, one block per
/// width in strictly ascending width order, and the shared helper once at
/// the very end.
pub proof fn lemma_document_layout()
    ensures
        spec_widths().len() == 32,
        forall|i: int, j: int|
            0 <= i < j < spec_widths().len() ==> spec_widths()[i] < spec_widths()[j],
        forall|i: int| 0 <= i < spec_widths().len() ==> valid_width(#[trigger] spec_widths()[i]),
        spec_document() == HEADER@ + ERROR_DEFINITION@ + spec_joined(spec_widths())
            + MINI_MASK_DEFINITION@,
        spec_document().len() >= MINI_MASK_DEFINITION@.len(),
        spec_document().skip(
            spec_document().len() - MINI_MASK_DEFINITION@.len(),
        ) == MINI_MASK_DEFINITION@,
{
    assert(spec_document().skip(spec_document().len() - MINI_MASK_DEFINITION@.len())
        =~= MINI_MASK_DEFINITION@);
    assert forall|i: int| 0 <= i < spec_widths().len() implies valid_width(
        #[trigger] spec_widths()[i],
    ) by {
        lemma_widths_valid(i);
    }
    assert forall|i: int, j: int|
        0 <= i < j < spec_widths().len() implies spec_widths()[i] < spec_widths()[j] by {
        lemma_widths_valid(i);
        lemma_widths_valid(j);
    }
}

/// The mask accessor macro name for a width: `U{width}_MASK`.
pub open spec fn spec_mask_name(w: u16) -> Seq<char> {
    spec_type_name(w as nat) + "_MASK"@
}

/// The checked cast macro name for a width: `TO_U{width}`.
pub open spec fn spec_to_name(w: u16) -> Seq<char> {
    "TO_"@ + spec_type_name(w as nat)
}

/// The mini mask accessor macro name for a width: `MINI_U{width}_MASK`.
pub open spec fn spec_mini_mask_name(w: u16) -> Seq<char> {
    "MINI_"@ + spec_type_name(w as nat) + "_MASK"@
}

/// The unchecked mini cast macro name for a width:
/// `UNSAFE_MINI_TO_U{width}`.
pub open spec fn spec_mini_to_name(w: u16) -> Seq<char> {
    "UNSAFE_MINI_TO_"@ + spec_type_name(w as nat)
}

/// The name of the shared width-independent helper macro.
pub open spec fn spec_helper_name() -> Seq<char> {
    "__MINI_MASK"@
}

/// Macro names never collide: names of different kinds differ for any two
/// widths, names of the same kind differ for different widths, and no
/// per-width name equals the shared helper's name.
pub proof fn lemma_macro_names_distinct(w1: u16, w2: u16)
    requires
        valid_width(w1),
        valid_width(w2),
    ensures
        w1 != w2 ==> spec_mask_name(w1) != spec_mask_name(w2),
        w1 != w2 ==> spec_to_name(w1) != spec_to_name(w2),
        w1 != w2 ==> spec_mini_mask_name(w1) != spec_mini_mask_name(w2),
        w1 != w2 ==> spec_mini_to_name(w1) != spec_mini_to_name(w2),
        spec_mask_name(w1) != spec_to_name(w2),
        spec_mask_name(w1) != spec_mini_mask_name(w2),
        spec_mask_name(w1) != spec_mini_to_name(w2),
        spec_to_name(w1) != spec_mini_mask_name(w2),
        spec_to_name(w1) != spec_mini_to_name(w2),
        spec_mini_mask_name(w1) != spec_mini_to_name(w2),
        spec_mask_name(w1) != spec_helper_name(),
        spec_to_name(w1) != spec_helper_name(),
        spec_mini_mask_name(w1) != spec_helper_name(),
        spec_mini_to_name(w1) != spec_helper_name(),
{
    reveal_strlit("TO_");
    reveal_strlit("MINI_");
    reveal_strlit("UNSAFE_MINI_TO_");
    reveal_strlit("_MASK");
    reveal_strlit("__MINI_MASK");
    let tn1 = spec_type_name(w1 as nat);
    let tn2 = spec_type_name(w2 as nat);
    lemma_type_name_shape(w1 as nat);
    lemma_type_name_shape(w2 as nat);
    // First characters separate the kinds: `U`, `T`, `M`, `U`, `_`; where
    // both start with `U`, the second character is a digit in one name and
    // the `N` of `UNSAFE_` in the other.
    assert(spec_mask_name(w1)[0] == 'U');
    assert(spec_to_name(w2)[0] == 'T');
    assert(spec_mini_mask_name(w2)[0] == 'M');
    assert(spec_mini_to_name(w2)[0] == 'U');
    assert(spec_mask_name(w1)[1] == tn1[1]);
    assert(spec_mini_to_name(w2)[1] == 'N');
    assert(spec_to_name(w1)[0] == 'T');
    assert(spec_mini_mask_name(w1)[0] == 'M');
    assert(spec_mini_to_name(w1)[0] == 'U');
    assert(spec_helper_name()[0] == '_');
    assert(spec_mask_name(w1)[0] == 'U');
    // Within one kind the type name is recovered from the name, so equal
    // names would force equal widths.
    if w1 != w2 {
        if spec_mask_name(w1) == spec_mask_name(w2) {
            assert(spec_mask_name(w1).len() == tn1.len() + 5);
            assert(spec_mask_name(w2).len() == tn2.len() + 5);
            assert(tn1.len() == tn2.len());
            assert(tn1 =~= spec_mask_name(w1).subrange(0, tn1.len() as int));
            assert(tn2 =~= spec_mask_name(w2).subrange(0, tn2.len() as int));
            lemma_type_name_injective(w1 as nat, w2 as nat);
        }
        if spec_to_name(w1) == spec_to_name(w2) {
            assert(tn1 =~= spec_to_name(w1).skip(3));
            assert(tn2 =~= spec_to_name(w2).skip(3));
            lemma_type_name_injective(w1 as nat, w2 as nat);
        }
        if spec_mini_mask_name(w1) == spec_mini_mask_name(w2) {
            assert(spec_mini_mask_name(w1).len() == 5 + tn1.len() + 5);
            assert(spec_mini_mask_name(w2).len() == 5 + tn2.len() + 5);
            assert(tn1.len() == tn2.len());
            assert(tn1 =~= spec_mini_mask_name(w1).subrange(5, 5 + tn1.len() as int));
            assert(tn2 =~= spec_mini_mask_name(w2).subrange(5, 5 + tn2.len() as int));
            lemma_type_name_injective(w1 as nat, w2 as nat);
        }
        if spec_mini_to_name(w1) == spec_mini_to_name(w2) {
            assert(tn1 =~= spec_mini_to_name(w1).skip(15));
            assert(tn2 =~= spec_mini_to_name(w2).skip(15));
            lemma_type_name_injective(w1 as nat, w2 as nat);
        }
    }
}


/// The base template never contains the two-character fragment `MI`.
#[verifier::rlimit(100)]
proof fn lemma_base_template_facts()
    ensures
        MASK_TEMPLATE@.len() == 1161,
        MASK_TEMPLATE@[0] == '\n',
        !occurs(MASK_TEMPLATE@, "MI"@),
        !occurs(MASK_TEMPLATE@, "o __MI"@),
{
    reveal_strlit("MI");
    reveal_strlit("o __MI");
    // reveal_strlit accepts only a literal token, so the template text is
    // spelled out once more here; the first assertion ties it to the
    // constant, and fails if the two ever diverge.
    reveal_strlit(r#"
/// ## TYPENAME Mask
/// 
/// Used to downcast a value to a smaller type.
/// 
/// ### Usage
/// 
/// ```huff
/// #define macro MAIN() = takes (0) returns (0) {
///     0x00 calldataload
///     TYPENAME_MASK() and
/// }
/// ```
#define macro TYPENAME_MASK() = takes (0) returns (1) { TYPEMASK }

/// ## TYPENAME Cast
/// 
/// Downcasts a value to a smaller type.
/// 
/// The `UNSAFE_TO_TYPENAME` macro will not revert on overflow.
#define macro TO_TYPENAME() = takes (1) returns (1) {
    // takes:               // [value]
    dup1                    // [value, value]
    TYPENAME_MASK()         // [mask, value, value]
    and                     // [masked_value, value]
    dup2                    // [value, masked_value, value]
    eq                      // [is_safe, value]
    is_safe                 // [is_safe_dest, is_safe, value]
    jumpi                   // [value]
        __ERROR(Overflow)   // [err]
        0x00                // [ptr, err]
        mstore              // []
        0x04                // [err_len]
        0x00                // [ptr, err_len]
        revert              // []
    is_safe:                // [value]
}"#);
    let t = r#"
/// ## TYPENAME Mask
/// 
/// Used to downcast a value to a smaller type.
/// 
/// ### Usage
/// 
/// ```huff
/// #define macro MAIN() = takes (0) returns (0) {
///     0x00 calldataload
///     TYPENAME_MASK() and
/// }
/// ```
#define macro TYPENAME_MASK() = takes (0) returns (1) { TYPEMASK }

/// ## TYPENAME Cast
/// 
/// Downcasts a value to a smaller type.
/// 
/// The `UNSAFE_TO_TYPENAME` macro will not revert on overflow.
#define macro TO_TYPENAME() = takes (1) returns (1) {
    // takes:               // [value]
    dup1                    // [value, value]
    TYPENAME_MASK()         // [mask, value, value]
    and                     // [masked_value, value]
    dup2                    // [value, masked_value, value]
    eq                      // [is_safe, value]
    is_safe                 // [is_safe_dest, is_safe, value]
    jumpi                   // [value]
        __ERROR(Overflow)   // [err]
        0x00                // [ptr, err]
        mstore              // []
        0x04                // [err_len]
        0x00                // [ptr, err_len]
        revert              // []
    is_safe:                // [value]
}"#@;
    assert(MASK_TEMPLATE@ == t);
    assert(forall|i: int| 0 <= i < 1161 ==> !(#[trigger] t[i] == 'M' && t[i + 1] == 'I'));
    assert forall|i: int| !occurs_at(MASK_TEMPLATE@, "MI"@, i) by {
        if occurs_at(t, "MI"@, i) {
            assert(t.subrange(i, i + 2)[0] == t[i]);
            assert(t.subrange(i, i + 2)[1] == t[i + 1]);
        }
    }
    assert(forall|j: int|
        0 <= j < 1156 ==> !(#[trigger] t[j] == 'o' && t[j + 1] == ' ' && t[j + 2] == '_' && t[j
            + 3] == '_' && t[j + 4] == 'M' && t[j + 5] == 'I'));
    assert forall|i: int| !occurs_at(MASK_TEMPLATE@, "o __MI"@, i) by {
        if occurs_at(t, "o __MI"@, i) {
            assert(t.subrange(i, i + 6)[0] == t[i]);
            assert(t.subrange(i, i + 6)[1] == t[i + 1]);
            assert(t.subrange(i, i + 6)[2] == t[i + 2]);
            assert(t.subrange(i, i + 6)[3] == t[i + 3]);
            assert(t.subrange(i, i + 6)[4] == t[i + 4]);
            assert(t.subrange(i, i + 6)[5] == t[i + 5]);
        }
    }
}

/// Below 32 bits a block carries no trace of the mini variant: the
/// fragment `MI` never occurs in it, so neither does any mini macro name
/// of any width, nor the shared helper's name.
pub proof fn lemma_no_mini_names_below_32(w: u16, other: u16)
    requires
        valid_width(w),
        !includes_mini(w),
        valid_width(other),
    ensures
        !occurs(spec_block(w), "MI"@),
        !occurs(spec_block(w), spec_mini_mask_name(other)),
        !occurs(spec_block(w), spec_mini_to_name(other)),
        !occurs(spec_block(w), spec_helper_name()),
{
    reveal_strlit("MI");
    lemma_base_template_facts();
    let tn = spec_type_name(w as nat);
    let mk = spec_mask((w as nat) / 8);
    let dc = spec_decimal(w as nat);
    lemma_value_chars(w);
    assert(forall|j: int| 0 <= j < "MI"@.len() ==> is_placeholder_char(#[trigger] "MI"@[j]));
    lemma_value_avoids(tn, "MI"@);
    lemma_value_avoids(mk, "MI"@);
    lemma_value_avoids(dc, "MI"@);
    let t1 = spec_replace_all(MASK_TEMPLATE@, "TYPENAME"@, tn);
    lemma_replace_preserves_avoiding(MASK_TEMPLATE@, "TYPENAME"@, tn, "MI"@);
    let t2 = spec_replace_all(t1, "TYPEMASK"@, mk);
    lemma_replace_preserves_avoiding(t1, "TYPEMASK"@, mk, "MI"@);
    lemma_replace_preserves_avoiding(t2, "TYPESIZE"@, dc, "MI"@);
    assert(spec_block(w) == spec_replace_all(t2, "TYPESIZE"@, dc));
    reveal_strlit("MINI_");
    reveal_strlit("UNSAFE_MINI_TO_");
    reveal_strlit("__MINI_MASK");
    if occurs(spec_block(w), spec_mini_mask_name(other)) {
        assert(spec_mini_mask_name(other).subrange(0, 2) =~= "MI"@);
        lemma_occurs_within(spec_block(w), spec_mini_mask_name(other), 0, 2);
    }
    if occurs(spec_block(w), spec_mini_to_name(other)) {
        assert(spec_mini_to_name(other).subrange(7, 9) =~= "MI"@);
        lemma_occurs_within(spec_block(w), spec_mini_to_name(other), 7, 2);
    }
    if occurs(spec_block(w), spec_helper_name()) {
        assert(spec_helper_name().subrange(2, 4) =~= "MI"@);
        lemma_occurs_within(spec_block(w), spec_helper_name(), 2, 2);
    }
}


/// The characters replacement values are made of: `U`, `x`, `f` and the
/// decimal digits.
pub open spec fn is_value_char(c: char) -> bool {
    is_digit_char(c) || c == 'U' || c == 'x' || c == 'f'
}

/// The characters the placeholder tokens are made of.
pub open spec fn is_placeholder_char(c: char) -> bool {
    c == 'T' || c == 'Y' || c == 'P' || c == 'E' || c == 'N' || c == 'A' || c == 'M' || c == 'S'
        || c == 'K' || c == 'I' || c == 'Z'
}

/// The placeholder tokens consist of placeholder characters only.
proof fn lemma_placeholder_chars()
    ensures
        "TYPENAME"@.len() == 8,
        "TYPEMASK"@.len() == 8,
        "TYPESIZE"@.len() == 8,
        forall|j: int| 0 <= j < 8 ==> is_placeholder_char(#[trigger] "TYPENAME"@[j]),
        forall|j: int| 0 <= j < 8 ==> is_placeholder_char(#[trigger] "TYPEMASK"@[j]),
        forall|j: int| 0 <= j < 8 ==> is_placeholder_char(#[trigger] "TYPESIZE"@[j]),
{
    reveal_strlit("TYPENAME");
    reveal_strlit("TYPEMASK");
    reveal_strlit("TYPESIZE");
}

/// The derived values for a width consist of value characters only.
proof fn lemma_value_chars(w: u16)
    requires
        valid_width(w),
    ensures
        spec_type_name(w as nat).len() >= 1,
        spec_mask((w as nat) / 8).len() >= 1,
        spec_decimal(w as nat).len() >= 1,
        forall|i: int|
            0 <= i < spec_type_name(w as nat).len() ==> is_value_char(
                #[trigger] spec_type_name(w as nat)[i],
            ),
        forall|i: int|
            0 <= i < spec_mask((w as nat) / 8).len() ==> is_value_char(
                #[trigger] spec_mask((w as nat) / 8)[i],
            ),
        forall|i: int|
            0 <= i < spec_decimal(w as nat).len() ==> is_value_char(
                #[trigger] spec_decimal(w as nat)[i],
            ),
{
    lemma_type_name_shape(w as nat);
    lemma_mask_chars((w as nat) / 8);
    lemma_decimal_shape(w as nat);
    assert forall|i: int| 0 <= i < spec_type_name(w as nat).len() implies is_value_char(
        spec_type_name(w as nat)[i],
    ) by {
        if i >= 1 {
            assert(is_digit_char(spec_type_name(w as nat)[i]));
        }
    }
    assert forall|i: int| 0 <= i < spec_mask((w as nat) / 8).len() implies is_value_char(
        #[trigger] spec_mask((w as nat) / 8)[i],
    ) by {
        if i >= 2 {
            assert(spec_mask((w as nat) / 8)[i] == 'f');
        }
    }
    assert forall|i: int| 0 <= i < spec_decimal(w as nat).len() implies is_value_char(
        spec_decimal(w as nat)[i],
    ) by {
        assert(is_digit_char(spec_decimal(w as nat)[i]));
    }
}

/// No value character is a placeholder character, so a value avoids a
/// placeholder token entirely.
proof fn lemma_value_avoids(v: Seq<char>, p: Seq<char>)
    requires
        forall|i: int| 0 <= i < v.len() ==> is_value_char(#[trigger] v[i]),
        forall|j: int| 0 <= j < p.len() ==> is_placeholder_char(#[trigger] p[j]),
    ensures
        avoids_chars(v, p),
{
    assert forall|i: int, j: int| 0 <= i < v.len() && 0 <= j < p.len() implies v[i] != p[j] by {
        assert(is_value_char(v[i]));
        assert(is_placeholder_char(p[j]));
    }
}

/// Substitution is complete: whatever the template, none of the three
/// placeholder tokens survives in the substituted text.
pub proof fn lemma_no_placeholder_remains(t: Seq<char>, w: u16)
    requires
        valid_width(w),
    ensures
        !occurs(spec_substitute(t, w as nat), "TYPENAME"@),
        !occurs(spec_substitute(t, w as nat), "TYPEMASK"@),
        !occurs(spec_substitute(t, w as nat), "TYPESIZE"@),
{
    lemma_placeholder_chars();
    lemma_value_chars(w);
    let tn = spec_type_name(w as nat);
    let mk = spec_mask((w as nat) / 8);
    let dc = spec_decimal(w as nat);
    lemma_value_avoids(tn, "TYPENAME"@);
    lemma_value_avoids(tn, "TYPEMASK"@);
    lemma_value_avoids(tn, "TYPESIZE"@);
    lemma_value_avoids(mk, "TYPENAME"@);
    lemma_value_avoids(mk, "TYPEMASK"@);
    lemma_value_avoids(mk, "TYPESIZE"@);
    lemma_value_avoids(dc, "TYPENAME"@);
    lemma_value_avoids(dc, "TYPEMASK"@);
    lemma_value_avoids(dc, "TYPESIZE"@);
    let t1 = spec_replace_all(t, "TYPENAME"@, tn);
    lemma_replace_removes_pattern(t, "TYPENAME"@, tn);
    let t2 = spec_replace_all(t1, "TYPEMASK"@, mk);
    lemma_replace_removes_pattern(t1, "TYPEMASK"@, mk);
    lemma_replace_preserves_avoiding(t1, "TYPEMASK"@, mk, "TYPENAME"@);
    lemma_replace_removes_pattern(t2, "TYPESIZE"@, dc);
    lemma_replace_preserves_avoiding(t2, "TYPESIZE"@, dc, "TYPENAME"@);
    lemma_replace_preserves_avoiding(t2, "TYPESIZE"@, dc, "TYPEMASK"@);
}


/// Concrete facts about the mini template: where its first two
/// placeholder occurrences stand, that the text before and between them
/// holds no further occurrence, what directly surrounds the second one,
/// and that neither of the other two placeholders occurs anywhere in it.
#[verifier::rlimit(100)]
proof fn lemma_mini_template_facts()
    ensures
        MINI_MASK_TEMPLATE@.len() == 839,
        MINI_MASK_TEMPLATE@.subrange(14, 22) == "TYPENAME"@,
        MINI_MASK_TEMPLATE@.subrange(289, 297) == "TYPENAME"@,
        MINI_MASK_TEMPLATE@.subrange(284, 289) == "MINI_"@,
        MINI_MASK_TEMPLATE@.subrange(297, 302) == "_MASK"@,
        forall|j: int| 0 <= j < 14 ==> #[trigger] MINI_MASK_TEMPLATE@[j] != 'T',
        forall|j: int|
            22 <= j < 288 ==> !(#[trigger] MINI_MASK_TEMPLATE@[j] == 'T'
                && MINI_MASK_TEMPLATE@[j + 1] == 'Y'),
        forall|j: int| 297 <= j < 302 ==> #[trigger] MINI_MASK_TEMPLATE@[j] != 'T',
        forall|j: int|
            0 <= j < 832 ==> !(#[trigger] MINI_MASK_TEMPLATE@[j] == 'T'
                && MINI_MASK_TEMPLATE@[j + 1] == 'Y' && MINI_MASK_TEMPLATE@[j + 4] == 'M'),
        MINI_MASK_TEMPLATE@[0] == '\n',
        !occurs(MINI_MASK_TEMPLATE@, "o __MI"@),
        MINI_MASK_TEMPLATE@.subrange(342, 350) == "TYPENAME"@,
        MINI_MASK_TEMPLATE@.subrange(421, 429) == "TYPENAME"@,
        MINI_MASK_TEMPLATE@.subrange(592, 600) == "TYPENAME"@,
        MINI_MASK_TEMPLATE@.subrange(396, 404) == "TYPESIZE"@,
        MINI_MASK_TEMPLATE@.subrange(577, 592) == "UNSAFE_MINI_TO_"@,
        forall|j: int|
            297 <= j < 342 ==> !(#[trigger] MINI_MASK_TEMPLATE@[j] == 'T'
                && MINI_MASK_TEMPLATE@[j + 1] == 'Y'),
        forall|j: int|
            350 <= j < 421 && j != 396 ==> !(#[trigger] MINI_MASK_TEMPLATE@[j] == 'T'
                && MINI_MASK_TEMPLATE@[j + 1] == 'Y'),
        forall|j: int|
            429 <= j < 592 ==> !(#[trigger] MINI_MASK_TEMPLATE@[j] == 'T'
                && MINI_MASK_TEMPLATE@[j + 1] == 'Y'),
        forall|j: int|
            0 <= j < 835 && j != 396 ==> !(#[trigger] MINI_MASK_TEMPLATE@[j] == 'T'
                && MINI_MASK_TEMPLATE@[j + 1] == 'Y' && MINI_MASK_TEMPLATE@[j + 4] == 'S'),
{
    reveal_strlit("o __MI");
    reveal_strlit("TYPESIZE");
    reveal_strlit("UNSAFE_MINI_TO_");
    reveal_strlit("TYPENAME");
    reveal_strlit("MINI_");
    reveal_strlit("_MASK");
    // reveal_strlit accepts only a literal token, so the template text is
    // spelled out once more here; the first assertion ties it to the
    // constant, and fails if the two ever diverge.
    reveal_strlit(r#"

/// ## Mini TYPENAME Mask
/// 
/// Used to downcast a value to a smaller type.
/// 
/// This consumes more runtime gas to the benefit of a smaller runtime size.
/// 
/// ### Usage
/// 
/// ```huff
/// #define macro MAIN() = takes (0) returns (0) {
///     0x00 calldataload
///     MINI_TYPENAME_MASK() and
/// }
/// ```
#define macro MINI_TYPENAME_MASK() = takes (0) returns (1) { __MINI_MASK(TYPESIZE) }

/// ## Mini TYPENAME Cast
/// 
/// Downcasts a value to a smaller type.
/// 
/// This consumes more runtime gas to the benefit of a smaller runtime size.
/// 
/// The `UNSAFE_MINI_TO_TYPENAME` macro will not revert on overflow.
#define macro UNSAFE_MINI_TO_TYPENAME() = takes (0) returns (0) {
    // takes:               // [value]
    MINI_TYPENAME_MASK()         // [mask, value]
    and                     // [masked_value]
}"#);
    assert(MINI_MASK_TEMPLATE@ == r#"

/// ## Mini TYPENAME Mask
/// 
/// Used to downcast a value to a smaller type.
/// 
/// This consumes more runtime gas to the benefit of a smaller runtime size.
/// 
/// ### Usage
/// 
/// ```huff
/// #define macro MAIN() = takes (0) returns (0) {
///     0x00 calldataload
///     MINI_TYPENAME_MASK() and
/// }
/// ```
#define macro MINI_TYPENAME_MASK() = takes (0) returns (1) { __MINI_MASK(TYPESIZE) }

/// ## Mini TYPENAME Cast
/// 
/// Downcasts a value to a smaller type.
/// 
/// This consumes more runtime gas to the benefit of a smaller runtime size.
/// 
/// The `UNSAFE_MINI_TO_TYPENAME` macro will not revert on overflow.
#define macro UNSAFE_MINI_TO_TYPENAME() = takes (0) returns (0) {
    // takes:               // [value]
    MINI_TYPENAME_MASK()         // [mask, value]
    and                     // [masked_value]
}"#@);
    assert(MINI_MASK_TEMPLATE@.subrange(14, 22) =~= "TYPENAME"@);
    assert(MINI_MASK_TEMPLATE@.subrange(289, 297) =~= "TYPENAME"@);
    assert(MINI_MASK_TEMPLATE@.subrange(284, 289) =~= "MINI_"@);
    assert(MINI_MASK_TEMPLATE@.subrange(297, 302) =~= "_MASK"@);
    assert(MINI_MASK_TEMPLATE@.subrange(342, 350) =~= "TYPENAME"@);
    assert(MINI_MASK_TEMPLATE@.subrange(421, 429) =~= "TYPENAME"@);
    assert(MINI_MASK_TEMPLATE@.subrange(592, 600) =~= "TYPENAME"@);
    assert(MINI_MASK_TEMPLATE@.subrange(396, 404) =~= "TYPESIZE"@);
    assert(MINI_MASK_TEMPLATE@.subrange(577, 592) =~= "UNSAFE_MINI_TO_"@);
    let t = MINI_MASK_TEMPLATE@;
    assert(forall|j: int|
        0 <= j < 834 ==> !(#[trigger] t[j] == 'o' && t[j + 1] == ' ' && t[j + 2] == '_' && t[j
            + 3] == '_' && t[j + 4] == 'M' && t[j + 5] == 'I'));
    assert forall|i: int| !occurs_at(MINI_MASK_TEMPLATE@, "o __MI"@, i) by {
        if occurs_at(t, "o __MI"@, i) {
            assert(t.subrange(i, i + 6)[0] == t[i]);
            assert(t.subrange(i, i + 6)[1] == t[i + 1]);
            assert(t.subrange(i, i + 6)[2] == t[i + 2]);
            assert(t.subrange(i, i + 6)[3] == t[i + 3]);
            assert(t.subrange(i, i + 6)[4] == t[i + 4]);
            assert(t.subrange(i, i + 6)[5] == t[i + 5]);
        }
    }
}


/// From 32 bits upward a block contains its mini mask accessor's name:
/// in the mini template the placeholder stands between `MINI_` and
/// `_MASK`, and substitution turns that spot into the macro name.
#[verifier::rlimit(100)]
pub proof fn lemma_mini_name_present_from_32(w: u16)
    requires
        valid_width(w),
        includes_mini(w),
    ensures
        occurs(spec_block(w), spec_mini_mask_name(w)),
{
    reveal_strlit("TYPENAME");
    reveal_strlit("TYPEMASK");
    reveal_strlit("TYPESIZE");
    reveal_strlit("MINI_");
    reveal_strlit("_MASK");
    lemma_mini_template_facts();
    lemma_placeholder_chars();
    lemma_value_chars(w);
    let t0 = MINI_MASK_TEMPLATE@;
    let pat = "TYPENAME"@;
    let tn = spec_type_name(w as nat);
    let mk = spec_mask((w as nat) / 8);
    let dc = spec_decimal(w as nat);
    let a1 = t0.subrange(0, 14);
    let a2 = t0.subrange(22, 289);
    let b2 = t0.subrange(297, 839);
    let b1 = a2 + pat + b2;
    // the template splits around its first two placeholder occurrences
    assert((a1 + pat + b1).len() == 839);
    assert forall|k: int| 0 <= k < 839 implies (a1 + pat + b1)[k] == t0[k] by {
        if 14 <= k < 22 {
            assert(pat[k - 14] == t0.subrange(14, 22)[k - 14]);
        } else if 289 <= k < 297 {
            assert(b1[k - 22] == pat[k - 289]);
            assert(pat[k - 289] == t0.subrange(289, 297)[k - 289]);
        }
    }
    assert(t0 =~= a1 + pat + b1);
    // the text before the first occurrence holds no occurrence
    assert forall|j: int| 0 <= j < a1.len() implies !occurs_at(a1 + pat + b1, pat, j) by {
        if occurs_at(t0, pat, j) {
            assert(t0.subrange(j, j + 8)[0] == t0[j]);
        }
    }
    lemma_replace_split(a1, pat, b1, tn);
    let r1 = spec_replace_all(b1, pat, tn);
    assert(spec_replace_all(t0, pat, tn) == a1 + tn + r1);
    // the text between the two occurrences holds no occurrence either
    assert forall|j: int| 0 <= j < a2.len() implies !occurs_at(a2 + pat + b2, pat, j) by {
        if occurs_at(b1, pat, j) {
            assert(b1.subrange(j, j + 8)[0] == b1[j]);
            assert(b1.subrange(j, j + 8)[1] == b1[j + 1]);
            assert(b1[j] == t0[22 + j]);
            if j + 1 < 267 {
                assert(b1[j + 1] == t0[22 + j + 1]);
            } else {
                assert(b1[j + 1] == pat[0]);
            }
        }
    }
    lemma_replace_split(a2, pat, b2, tn);
    let r2 = spec_replace_all(b2, pat, tn);
    assert(r1 == a2 + tn + r2);
    // the five characters after the second occurrence survive in front
    let y0 = "_MASK"@;
    assert(y0.len() == 5);
    assert(y0 =~= b2.subrange(0, 5));
    assert forall|j: int| 0 <= j < 5 implies !occurs_at(b2, pat, j) by {
        if occurs_at(b2, pat, j) {
            assert(b2.subrange(j, j + 8)[0] == b2[j]);
            assert(b2[j] == t0[297 + j]);
        }
    }
    lemma_replace_keeps_prefix(b2, pat, tn, y0);
    assert(r2.len() >= 5);
    assert(r2.subrange(0, 5) == y0);
    let t1 = spec_replace_all(t0, pat, tn);
    assert(t1 == a1 + tn + (a2 + tn + r2));
    assert(t1.len() == 281 + 2 * tn.len() + r2.len());
    // the macro name stands where `MINI_`, the replaced placeholder and
    // `_MASK` meet
    let x = spec_mini_mask_name(w);
    assert(x == "MINI_"@ + tn + "_MASK"@);
    assert(x.len() == 10 + tn.len());
    let i1 = 276 + tn.len() as int;
    assert forall|k: int| 0 <= k < x.len() implies t1.subrange(i1, i1 + x.len())[k] == x[k] by {
        assert(t1.subrange(i1, i1 + x.len())[k] == t1[i1 + k]);
        assert(t1[i1 + k] == (a2 + tn + r2)[262 + k]);
        if k < 5 {
            assert((a2 + tn + r2)[262 + k] == a2[262 + k]);
            assert(a2[262 + k] == t0[284 + k]);
            assert(t0.subrange(284, 289)[k] == t0[284 + k]);
            assert(x[k] == "MINI_"@[k]);
        } else if k < 5 + tn.len() {
            assert((a2 + tn + r2)[262 + k] == tn[k - 5]);
            assert(x[k] == tn[k - 5]);
        } else {
            assert((a2 + tn + r2)[262 + k] == r2[k - 5 - tn.len()]);
            assert(r2.subrange(0, 5)[k - 5 - tn.len()] == r2[k - 5 - tn.len()]);
            assert(x[k] == "_MASK"@[k - 5 - tn.len()]);
        }
    }
    assert(t1.subrange(i1, i1 + x.len()) =~= x);
    assert(occurs_at(t1, x, i1));
    // the second placeholder occurs nowhere in the template, so its
    // substitution changes nothing
    assert forall|j: int| !occurs_at(t0, "TYPEMASK"@, j) by {
        if occurs_at(t0, "TYPEMASK"@, j) {
            assert(t0.subrange(j, j + 8)[0] == t0[j]);
            assert(t0.subrange(j, j + 8)[1] == t0[j + 1]);
            assert(t0.subrange(j, j + 8)[4] == t0[j + 4]);
        }
    }
    lemma_value_avoids(tn, "TYPEMASK"@);
    lemma_replace_preserves_avoiding(t0, pat, tn, "TYPEMASK"@);
    lemma_replace_identity(t1, "TYPEMASK"@, mk);
    // every occurrence of the third placeholder lies after the name
    let sz = "TYPESIZE"@;
    assert forall|j: int| occurs_at(t1, sz, j) implies j >= i1 + x.len() by {
        if occurs_at(t1, sz, j) && j < i1 + x.len() {
            assert(t1.subrange(j, j + 8)[0] == t1[j]);
            assert(t1.subrange(j, j + 8)[1] == t1[j + 1]);
            assert(t1[j] == 'T');
            assert(t1[j + 1] == 'Y');
            if j < 14 {
                assert(t1[j] == a1[j]);
                assert(a1[j] == t0[j]);
            } else if j < 14 + tn.len() {
                assert(t1[j] == tn[j - 14]);
                assert(is_value_char(tn[j - 14]));
            } else {
                let m = j - 14 - tn.len() as int;
                assert(t1[j] == (a2 + tn + r2)[m]);
                if m < 266 {
                    assert((a2 + tn + r2)[m] == a2[m]);
                    assert(a2[m] == t0[22 + m]);
                    assert(t1[j + 1] == (a2 + tn + r2)[m + 1]);
                    assert((a2 + tn + r2)[m + 1] == a2[m + 1]);
                    assert(a2[m + 1] == t0[22 + m + 1]);
                } else if m == 266 {
                    assert((a2 + tn + r2)[m] == a2[m]);
                    assert(a2[266] == t0[288]);
                    assert(t0.subrange(284, 289)[4] == t0[288]);
                    assert(t0[288] == '_');
                } else if m < 267 + tn.len() {
                    assert((a2 + tn + r2)[m] == tn[m - 267]);
                    assert(is_value_char(tn[m - 267]));
                } else {
                    assert((a2 + tn + r2)[m] == r2[m - 267 - tn.len()]);
                    assert(m - 267 - tn.len() < 5);
                    assert(r2.subrange(0, 5)[m - 267 - tn.len()] == r2[m - 267 - tn.len()]);
                    assert(r2[m - 267 - tn.len()] == "_MASK"@[m - 267 - tn.len()]);
                }
            }
        }
    }
    // so the name also survives the third substitution
    let yb = t1.subrange(0, i1 + x.len());
    assert(yb == t1.subrange(0, yb.len() as int));
    assert forall|j: int| 0 <= j < yb.len() implies !occurs_at(t1, sz, j) by {}
    lemma_replace_keeps_prefix(t1, sz, dc, yb);
    let t3 = spec_replace_all(t1, sz, dc);
    assert forall|k: int| 0 <= k < x.len() implies t3.subrange(i1, i1 + x.len())[k] == x[k] by {
        assert(t3.subrange(i1, i1 + x.len())[k] == t3[i1 + k]);
        assert(t3[i1 + k] == t3.subrange(0, yb.len() as int)[i1 + k]);
        assert(yb[i1 + k] == t1[i1 + k]);
        assert(t1.subrange(i1, i1 + x.len())[k] == t1[i1 + k]);
    }
    assert(t3.subrange(i1, i1 + x.len()) =~= x);
    assert(occurs_at(t3, x, i1));
    assert(occurs(t3, x));
    // and stands in the block, whose mini part is that substituted text
    assert(spec_substitute(t0, w as nat) == t3);
    lemma_occurs_in_concat_right(spec_substitute(MASK_TEMPLATE@, w as nat), t3, x);
    assert(spec_block(w) == spec_substitute(MASK_TEMPLATE@, w as nat) + spec_substitute(
        t0,
        w as nat,
    ));
}


/// The full text of the shared helper's definition in the document.
pub open spec fn spec_helper_definition() -> Seq<char> {
    "#define macro __MINI_MASK(bitsize)"@
}

/// Concrete facts about the three fixed segments: their lengths, that
/// header and error definition never hold the fragment `o __MI`, and that
/// the trailing helper segment holds it at exactly one place, inside the
/// helper's definition.
#[verifier::rlimit(100)]
proof fn lemma_fixed_segments_facts()
    ensures
        HEADER@.len() == 899,
        ERROR_DEFINITION@.len() == 87,
        MINI_MASK_DEFINITION@.len() == 589,
        ERROR_DEFINITION@[0] == '\n',
        MINI_MASK_DEFINITION@[0] == '\n',
        !occurs(HEADER@, "o __MI"@),
        !occurs(ERROR_DEFINITION@, "o __MI"@),
        MINI_MASK_DEFINITION@.subrange(367, 401) == spec_helper_definition(),
        MINI_MASK_DEFINITION@.subrange(379, 385) == "o __MI"@,
        forall|j: int| occurs_at(MINI_MASK_DEFINITION@, "o __MI"@, j) ==> j == 379,
{
    reveal_strlit("o __MI");
    reveal_strlit("#define macro __MINI_MASK(bitsize)");
    // reveal_strlit accepts only a literal token, so the three segments
    // are spelled out once more here; the equality assertions tie them to
    // the constants, and fail if the texts ever diverge.
    reveal_strlit(r#"
//  ------------------------------------------------------------------------------------------------
//! # Casting Library
//! 
//! Provides macros for casting values.
//! 
//! Bit sizes supported range from 8 to 256 inclusive and are multiples of 8.
//! 
//! Items prefixed with `UNSAFE_` will not revert on overflow.
//! 
//! Items prefixed with `MINI_` will consume more runtime gas to the benefit of a smaller runtime
//! size.
//! 
//! ## API
//! 
//! For a given type, `TYPENAME`:
//! 
//! - `TYPENAME_MASK` - Used to downcast a value to a smaller type.
//! - `TO_TYPENAME` - Downcasts a value to a smaller type.
//! - `UNSAFE_TO_TYPENAME` - Downcasts a value to a smaller type.
//! - `MINI_TYPENAME_MASK` - Used to downcast a value to a smaller type.
//! - `MINI_TO_TYPENAME` - Downcasts a value to a smaller type.
//! - `UNSAFE_MINI_TO_TYPENAME` - Downcasts a value to a smaller type.
//! 
"#);
    reveal_strlit(r#"
/// ## Overflow Error
/// 
/// Thrown when a cast overflows.
#define error Overflow()
"#);
    reveal_strlit(r#"
/// ## Mini Mask
///
/// Used as a utility to generate the mask
///
/// The macro body is functionally equivalent to the following: `2 ** bitsize - 1`
///
/// ### Template Arguments
///
/// - `bitsize` - The number of bits to generate a mask for.
///
/// ### Usage
///
/// ```huff
/// #define macro MINI_U32_MASK() = takes (0) returns (1) { __MINI_MASK(32)}
/// ```
#define macro __MINI_MASK(bitsize) = takes (0) returns (1) {
    0x01        // [one]
    dup1        // [one, one]
    <bitsize>   // [bisize, one, one]
    shl         // [mask_plus_one, one]
    sub         // [mask]
}
"#);
    assert(HEADER@ == r#"
//  ------------------------------------------------------------------------------------------------
//! # Casting Library
//! 
//! Provides macros for casting values.
//! 
//! Bit sizes supported range from 8 to 256 inclusive and are multiples of 8.
//! 
//! Items prefixed with `UNSAFE_` will not revert on overflow.
//! 
//! Items prefixed with `MINI_` will consume more runtime gas to the benefit of a smaller runtime
//! size.
//! 
//! ## API
//! 
//! For a given type, `TYPENAME`:
//! 
//! - `TYPENAME_MASK` - Used to downcast a value to a smaller type.
//! - `TO_TYPENAME` - Downcasts a value to a smaller type.
//! - `UNSAFE_TO_TYPENAME` - Downcasts a value to a smaller type.
//! - `MINI_TYPENAME_MASK` - Used to downcast a value to a smaller type.
//! - `MINI_TO_TYPENAME` - Downcasts a value to a smaller type.
//! - `UNSAFE_MINI_TO_TYPENAME` - Downcasts a value to a smaller type.
//! 
"#@);
    assert(ERROR_DEFINITION@ == r#"
/// ## Overflow Error
/// 
/// Thrown when a cast overflows.
#define error Overflow()
"#@);
    assert(MINI_MASK_DEFINITION@ == r#"
/// ## Mini Mask
///
/// Used as a utility to generate the mask
///
/// The macro body is functionally equivalent to the following: `2 ** bitsize - 1`
///
/// ### Template Arguments
///
/// - `bitsize` - The number of bits to generate a mask for.
///
/// ### Usage
///
/// ```huff
/// #define macro MINI_U32_MASK() = takes (0) returns (1) { __MINI_MASK(32)}
/// ```
#define macro __MINI_MASK(bitsize) = takes (0) returns (1) {
    0x01        // [one]
    dup1        // [one, one]
    <bitsize>   // [bisize, one, one]
    shl         // [mask_plus_one, one]
    sub         // [mask]
}
"#@);
    let h = HEADER@;
    let e = ERROR_DEFINITION@;
    let d = MINI_MASK_DEFINITION@;
    assert(forall|j: int|
        0 <= j < 894 ==> !(#[trigger] h[j] == 'o' && h[j + 1] == ' ' && h[j + 2] == '_' && h[j
            + 3] == '_' && h[j + 4] == 'M' && h[j + 5] == 'I'));
    assert forall|i: int| !occurs_at(h, "o __MI"@, i) by {
        if occurs_at(h, "o __MI"@, i) {
            assert(h.subrange(i, i + 6)[0] == h[i]);
            assert(h.subrange(i, i + 6)[1] == h[i + 1]);
            assert(h.subrange(i, i + 6)[2] == h[i + 2]);
            assert(h.subrange(i, i + 6)[3] == h[i + 3]);
            assert(h.subrange(i, i + 6)[4] == h[i + 4]);
            assert(h.subrange(i, i + 6)[5] == h[i + 5]);
        }
    }
    assert(forall|j: int|
        0 <= j < 82 ==> !(#[trigger] e[j] == 'o' && e[j + 1] == ' ' && e[j + 2] == '_' && e[j
            + 3] == '_' && e[j + 4] == 'M' && e[j + 5] == 'I'));
    assert forall|i: int| !occurs_at(e, "o __MI"@, i) by {
        if occurs_at(e, "o __MI"@, i) {
            assert(e.subrange(i, i + 6)[0] == e[i]);
            assert(e.subrange(i, i + 6)[1] == e[i + 1]);
            assert(e.subrange(i, i + 6)[2] == e[i + 2]);
            assert(e.subrange(i, i + 6)[3] == e[i + 3]);
            assert(e.subrange(i, i + 6)[4] == e[i + 4]);
            assert(e.subrange(i, i + 6)[5] == e[i + 5]);
        }
    }
    assert(d.subrange(367, 401) =~= spec_helper_definition());
    assert(d.subrange(379, 385) =~= "o __MI"@);
    assert(forall|j: int|
        0 <= j < 584 && j != 379 ==> !(#[trigger] d[j] == 'o' && d[j + 1] == ' ' && d[j + 2]
            == '_' && d[j + 3] == '_' && d[j + 4] == 'M' && d[j + 5] == 'I'));
    assert forall|j: int| occurs_at(d, "o __MI"@, j) implies j == 379 by {
        if occurs_at(d, "o __MI"@, j) && j != 379 {
            assert(d.subrange(j, j + 6)[0] == d[j]);
            assert(d.subrange(j, j + 6)[1] == d[j + 1]);
            assert(d.subrange(j, j + 6)[2] == d[j + 2]);
            assert(d.subrange(j, j + 6)[3] == d[j + 3]);
            assert(d.subrange(j, j + 6)[4] == d[j + 4]);
            assert(d.subrange(j, j + 6)[5] == d[j + 5]);
        }
    }
}


/// No block ever holds the fragment `o __MI` of the helper definition's
/// `macro __MINI_MASK`, and no block opens with one of its characters.
proof fn lemma_block_fragment_free(w: u16)
    requires
        valid_width(w),
    ensures
        !occurs(spec_block(w), "o __MI"@),
        spec_block(w).len() >= 1,
        forall|m: int| 0 <= m < "o __MI"@.len() ==> "o __MI"@[m] != spec_block(w)[0],
{
    reveal_strlit("o __MI");
    reveal_strlit("TYPENAME");
    reveal_strlit("TYPEMASK");
    reveal_strlit("TYPESIZE");
    lemma_base_template_facts();
    lemma_mini_template_facts();
    lemma_value_chars(w);
    let frag = "o __MI"@;
    let tn = spec_type_name(w as nat);
    let mk = spec_mask((w as nat) / 8);
    let dc = spec_decimal(w as nat);
    assert forall|i: int, j: int| 0 <= i < tn.len() && 0 <= j < frag.len() implies tn[i]
        != frag[j] by {
        assert(is_value_char(tn[i]));
    }
    assert forall|i: int, j: int| 0 <= i < mk.len() && 0 <= j < frag.len() implies mk[i]
        != frag[j] by {
        assert(is_value_char(mk[i]));
    }
    assert forall|i: int, j: int| 0 <= i < dc.len() && 0 <= j < frag.len() implies dc[i]
        != frag[j] by {
        assert(is_value_char(dc[i]));
    }
    let s1 = spec_replace_all(MASK_TEMPLATE@, "TYPENAME"@, tn);
    let s2 = spec_replace_all(s1, "TYPEMASK"@, mk);
    let s3 = spec_replace_all(s2, "TYPESIZE"@, dc);
    lemma_replace_preserves_avoiding(MASK_TEMPLATE@, "TYPENAME"@, tn, frag);
    lemma_replace_preserves_avoiding(s1, "TYPEMASK"@, mk, frag);
    lemma_replace_preserves_avoiding(s2, "TYPESIZE"@, dc, frag);
    lemma_replace_nonempty(MASK_TEMPLATE@, "TYPENAME"@, tn);
    lemma_replace_nonempty(s1, "TYPEMASK"@, mk);
    lemma_replace_nonempty(s2, "TYPESIZE"@, dc);
    lemma_replace_first(MASK_TEMPLATE@, "TYPENAME"@, tn);
    lemma_replace_first(s1, "TYPEMASK"@, mk);
    lemma_replace_first(s2, "TYPESIZE"@, dc);
    assert(s3[0] == '\n' || is_value_char(s3[0]));
    let m1 = spec_replace_all(MINI_MASK_TEMPLATE@, "TYPENAME"@, tn);
    let m2 = spec_replace_all(m1, "TYPEMASK"@, mk);
    let m3 = spec_replace_all(m2, "TYPESIZE"@, dc);
    lemma_replace_preserves_avoiding(MINI_MASK_TEMPLATE@, "TYPENAME"@, tn, frag);
    lemma_replace_preserves_avoiding(m1, "TYPEMASK"@, mk, frag);
    lemma_replace_preserves_avoiding(m2, "TYPESIZE"@, dc, frag);
    lemma_replace_nonempty(MINI_MASK_TEMPLATE@, "TYPENAME"@, tn);
    lemma_replace_nonempty(m1, "TYPEMASK"@, mk);
    lemma_replace_nonempty(m2, "TYPESIZE"@, dc);
    lemma_replace_first(MINI_MASK_TEMPLATE@, "TYPENAME"@, tn);
    lemma_replace_first(m1, "TYPEMASK"@, mk);
    lemma_replace_first(m2, "TYPESIZE"@, dc);
    assert(m3[0] == '\n' || is_value_char(m3[0]));
    if includes_mini(w) {
        assert forall|m: int| 0 <= m < frag.len() implies frag[m] != m3[0] by {}
        lemma_concat_avoids_boundary(s3, m3, frag);
        assert(spec_block(w)[0] == s3[0]);
    }
    assert forall|m: int| 0 <= m < frag.len() implies frag[m] != spec_block(w)[0] by {}
}

/// The joined blocks never hold the fragment `o __MI`: no block holds it,
/// and neither a block's first character nor the newline between blocks
/// can complete it across a seam.
proof fn lemma_joined_fragment_free(ws: Seq<u16>)
    requires
        forall|k: int| 0 <= k < ws.len() ==> valid_width(#[trigger] ws[k]),
    ensures
        !occurs(spec_joined(ws), "o __MI"@),
        ws.len() >= 1 ==> spec_joined(ws).len() >= 1,
        ws.len() >= 1 ==> forall|m: int|
            0 <= m < "o __MI"@.len() ==> "o __MI"@[m] != spec_joined(ws)[0],
    decreases ws.len(),
{
    reveal_strlit("o __MI");
    let frag = "o __MI"@;
    if ws.len() == 0 {
        assert forall|i: int| !occurs_at(spec_joined(ws), frag, i) by {}
    } else if ws.len() == 1 {
        lemma_block_fragment_free(ws[0]);
    } else {
        lemma_block_fragment_free(ws[0]);
        assert forall|k: int| 0 <= k < ws.drop_first().len() implies valid_width(
            #[trigger] ws.drop_first()[k],
        ) by {
            assert(ws.drop_first()[k] == ws[k + 1]);
        }
        lemma_joined_fragment_free(ws.drop_first());
        let b = spec_block(ws[0]);
        let jr = spec_joined(ws.drop_first());
        reveal_strlit("\n");
        assert forall|i: int| !occurs_at("\n"@, frag, i) by {}
        lemma_concat_avoids_boundary("\n"@, jr, frag);
        lemma_concat_avoids_boundary(b, "\n"@ + jr, frag);
        assert(b + ("\n"@ + jr) =~= (b + "\n"@) + jr);
        assert(spec_joined(ws) == (b + "\n"@) + jr);
        assert(spec_joined(ws)[0] == b[0]);
    }
}

/// The shared helper's definition stands at exactly one place in the
/// document: inside the trailing helper segment, after every block.
pub proof fn lemma_helper_defined_once()
    ensures
        occurs_at(
            spec_document(),
            spec_helper_definition(),
            spec_document().len() - MINI_MASK_DEFINITION@.len() + 367,
        ),
        forall|i: int|
            occurs_at(spec_document(), spec_helper_definition(), i) ==> i == spec_document().len()
                - MINI_MASK_DEFINITION@.len() + 367,
{
    reveal_strlit("o __MI");
    reveal_strlit("#define macro __MINI_MASK(bitsize)");
    lemma_fixed_segments_facts();
    lemma_document_layout();
    lemma_joined_fragment_free(spec_widths());
    let frag = "o __MI"@;
    let def = spec_helper_definition();
    let h = HEADER@;
    let e = ERROR_DEFINITION@;
    let jn = spec_joined(spec_widths());
    let d = MINI_MASK_DEFINITION@;
    let doc = spec_document();
    let hl = h.len() as int;
    let hel = (h.len() + e.len()) as int;
    let l0 = (h.len() + e.len() + jn.len()) as int;
    assert(doc == h + e + jn + d);
    assert(doc.len() == l0 + 589);
    assert(jn.len() >= 1);
    assert forall|m: int| 0 <= m < frag.len() implies frag[m] != '\n' by {}
    // the fragment occurs in the document exactly once, in the helper
    // segment
    assert forall|i: int| occurs_at(doc, frag, i) implies i == l0 + 379 by {
        if occurs_at(doc, frag, i) {
            if i + 6 <= h.len() {
                assert(h.subrange(i, i + 6) =~= doc.subrange(i, i + 6));
                assert(occurs_at(h, frag, i));
            } else if i < h.len() {
                assert(doc.subrange(i, i + 6)[hl - i] == doc[hl]);
                assert(doc[hl] == e[0]);
            } else if i + 6 <= hel {
                assert(e.subrange(i - h.len(), i - h.len() + 6) =~= doc.subrange(i, i + 6));
                assert(occurs_at(e, frag, i - h.len()));
            } else if i < hel {
                assert(doc.subrange(i, i + 6)[hel - i] == doc[hel]);
                assert(doc[hel] == jn[0]);
            } else if i + 6 <= l0 {
                assert(jn.subrange(i - h.len() - e.len(), i - h.len() - e.len() + 6)
                    =~= doc.subrange(i, i + 6));
                assert(occurs_at(jn, frag, i - h.len() - e.len()));
            } else if i < l0 {
                assert(doc.subrange(i, i + 6)[l0 - i] == doc[l0]);
                assert(doc[l0] == d[0]);
            } else {
                assert(d.subrange(i - l0, i - l0 + 6) =~= doc.subrange(i, i + 6));
                assert(occurs_at(d, frag, i - l0));
            }
        }
    }
    // the helper definition stands there
    assert(doc.subrange(l0 + 367, l0 + 401) =~= d.subrange(367, 401));
    assert(occurs_at(doc, def, l0 + 367));
    // and nowhere else: any occurrence brings the fragment twelve
    // characters in
    assert(def.subrange(12, 18) =~= frag);
    assert forall|i: int| occurs_at(doc, def, i) implies i == l0 + 367 by {
        if occurs_at(doc, def, i) {
            assert(doc.subrange(i + 12, i + 18) =~= doc.subrange(i, i + 34).subrange(12, 18));
            assert(occurs_at(doc, frag, i + 12));
        }
    }
}



/// The tail of the mini template from its third placeholder occurrence
/// splits apart under substitution, leaving the fixed text between the
/// occurrences intact.
#[verifier::rlimit(100)]
proof fn lemma_mini_splits_tail(w: u16)
    requires
        valid_width(w),
    ensures
        spec_replace_all(MINI_MASK_TEMPLATE@.skip(297), "TYPENAME"@, spec_type_name(w as nat))
            == MINI_MASK_TEMPLATE@.subrange(297, 342) + spec_type_name(w as nat) + (
        MINI_MASK_TEMPLATE@.subrange(350, 421) + spec_type_name(w as nat) + spec_replace_all(
            MINI_MASK_TEMPLATE@.skip(429),
            "TYPENAME"@,
            spec_type_name(w as nat),
        )),
        spec_replace_all(MINI_MASK_TEMPLATE@.skip(429), "TYPENAME"@, spec_type_name(w as nat))
            == MINI_MASK_TEMPLATE@.subrange(429, 592) + spec_type_name(w as nat)
            + spec_replace_all(MINI_MASK_TEMPLATE@.skip(600), "TYPENAME"@, spec_type_name(
            w as nat,
        )),
{
    reveal_strlit("TYPENAME");
    reveal_strlit("TYPESIZE");
    lemma_mini_template_facts();
    let t0 = MINI_MASK_TEMPLATE@;
    let pat = "TYPENAME"@;
    let tn = spec_type_name(w as nat);
    let c1 = t0.subrange(297, 342);
    let c2 = t0.subrange(350, 421);
    let c3 = t0.subrange(429, 592);
    let b2 = t0.skip(297);
    let e1 = t0.skip(350);
    let e2 = t0.skip(429);
    let e3 = t0.skip(600);
    assert forall|k: int| 0 <= k < 542 implies (c1 + pat + e1)[k] == b2[k] by {
        if 45 <= k < 53 {
            assert(pat[k - 45] == t0.subrange(342, 350)[k - 45]);
        }
    }
    assert(b2 =~= c1 + pat + e1);
    assert forall|k: int| 0 <= k < 489 implies (c2 + pat + e2)[k] == e1[k] by {
        if 71 <= k < 79 {
            assert(pat[k - 71] == t0.subrange(421, 429)[k - 71]);
        }
    }
    assert(e1 =~= c2 + pat + e2);
    assert forall|k: int| 0 <= k < 410 implies (c3 + pat + e3)[k] == e2[k] by {
        if 163 <= k < 171 {
            assert(pat[k - 163] == t0.subrange(592, 600)[k - 163]);
        }
    }
    assert(e2 =~= c3 + pat + e3);
    assert forall|j: int| 0 <= j < 45 implies !occurs_at(c1 + pat + e1, pat, j) by {
        if occurs_at(b2, pat, j) {
            assert(b2.subrange(j, j + 8)[0] == b2[j]);
            assert(b2.subrange(j, j + 8)[1] == b2[j + 1]);
            assert(b2[j] == t0[297 + j]);
            assert(b2[j + 1] == t0[297 + j + 1]);
        }
    }
    assert forall|j: int| 0 <= j < 71 implies !occurs_at(c2 + pat + e2, pat, j) by {
        if occurs_at(e1, pat, j) {
            assert(e1.subrange(j, j + 8)[0] == e1[j]);
            assert(e1.subrange(j, j + 8)[1] == e1[j + 1]);
            assert(e1.subrange(j, j + 8)[4] == e1[j + 4]);
            assert(e1[j] == t0[350 + j]);
            assert(e1[j + 1] == t0[350 + j + 1]);
            assert(e1[j + 4] == t0[350 + j + 4]);
            if 350 + j == 396 {
                assert(t0[400] == t0.subrange(396, 404)[4]);
            }
        }
    }
    assert forall|j: int| 0 <= j < 163 implies !occurs_at(c3 + pat + e3, pat, j) by {
        if occurs_at(e2, pat, j) {
            assert(e2.subrange(j, j + 8)[0] == e2[j]);
            assert(e2.subrange(j, j + 8)[1] == e2[j + 1]);
            assert(e2[j] == t0[429 + j]);
            assert(e2[j + 1] == t0[429 + j + 1]);
        }
    }
    lemma_replace_split(c1, pat, e1, tn);
    lemma_replace_split(c2, pat, e2, tn);
    lemma_replace_split(c3, pat, e3, tn);
}

/// The mini template's first four placeholder occurrences split off one
/// by one under substitution, leaving the fixed text between them intact.
#[verifier::rlimit(100)]
proof fn lemma_mini_splits(w: u16)
    requires
        valid_width(w),
    ensures
        spec_replace_all(MINI_MASK_TEMPLATE@, "TYPENAME"@, spec_type_name(w as nat))
            == MINI_MASK_TEMPLATE@.subrange(0, 14) + spec_type_name(w as nat) + (
        MINI_MASK_TEMPLATE@.subrange(22, 289) + spec_type_name(w as nat) + (
        MINI_MASK_TEMPLATE@.subrange(297, 342) + spec_type_name(w as nat) + (
        MINI_MASK_TEMPLATE@.subrange(350, 421) + spec_type_name(w as nat) + spec_replace_all(
            MINI_MASK_TEMPLATE@.skip(429),
            "TYPENAME"@,
            spec_type_name(w as nat),
        )))),
        spec_replace_all(MINI_MASK_TEMPLATE@.skip(429), "TYPENAME"@, spec_type_name(w as nat))
            == MINI_MASK_TEMPLATE@.subrange(429, 592) + spec_type_name(w as nat)
            + spec_replace_all(MINI_MASK_TEMPLATE@.skip(600), "TYPENAME"@, spec_type_name(
            w as nat,
        )),
{
    reveal_strlit("TYPENAME");
    lemma_mini_template_facts();
    lemma_mini_splits_tail(w);
    let t0 = MINI_MASK_TEMPLATE@;
    let pat = "TYPENAME"@;
    let tn = spec_type_name(w as nat);
    let a1 = t0.subrange(0, 14);
    let a2 = t0.subrange(22, 289);
    let b1 = t0.skip(22);
    let b2 = t0.skip(297);
    assert forall|k: int| 0 <= k < 839 implies (a1 + pat + b1)[k] == t0[k] by {
        if 14 <= k < 22 {
            assert(pat[k - 14] == t0.subrange(14, 22)[k - 14]);
        }
    }
    assert(t0 =~= a1 + pat + b1);
    assert forall|k: int| 0 <= k < 817 implies (a2 + pat + b2)[k] == b1[k] by {
        if 267 <= k < 275 {
            assert(pat[k - 267] == t0.subrange(289, 297)[k - 267]);
        }
    }
    assert(b1 =~= a2 + pat + b2);
    assert forall|j: int| 0 <= j < 14 implies !occurs_at(a1 + pat + b1, pat, j) by {
        if occurs_at(t0, pat, j) {
            assert(t0.subrange(j, j + 8)[0] == t0[j]);
        }
    }
    assert forall|j: int| 0 <= j < 267 implies !occurs_at(a2 + pat + b2, pat, j) by {
        if occurs_at(b1, pat, j) {
            assert(b1.subrange(j, j + 8)[0] == b1[j]);
            assert(b1.subrange(j, j + 8)[1] == b1[j + 1]);
            assert(b1[j] == t0[22 + j]);
            assert(b1[j + 1] == t0[22 + j + 1]);
        }
    }
    lemma_replace_split(a1, pat, b1, tn);
    lemma_replace_split(a2, pat, b2, tn);
}

/// In the substituted mini text, the cast macro name stands where
/// `UNSAFE_MINI_TO_` met the placeholder, and the sizing placeholder's one
/// occurrence lies before it.
#[verifier::rlimit(100)]
proof fn lemma_mini_cast_spot(w: u16)
    requires
        valid_width(w),
    ensures
        occurs_at(
            spec_replace_all(MINI_MASK_TEMPLATE@, "TYPENAME"@, spec_type_name(w as nat)),
            spec_mini_to_name(w),
            545 + 4 * spec_type_name(w as nat).len() as int,
        ),
        forall|j: int|
            occurs_at(
                spec_replace_all(MINI_MASK_TEMPLATE@, "TYPENAME"@, spec_type_name(w as nat)),
                "TYPESIZE"@,
                j,
            ) ==> j + 8 <= 545 + 4 * spec_type_name(w as nat).len() as int,
{
    reveal_strlit("TYPENAME");
    reveal_strlit("TYPESIZE");
    reveal_strlit("UNSAFE_MINI_TO_");
    lemma_mini_template_facts();
    lemma_placeholder_chars();
    lemma_value_chars(w);
    lemma_mini_splits(w);
    let t0 = MINI_MASK_TEMPLATE@;
    let pat = "TYPENAME"@;
    let sz = "TYPESIZE"@;
    let tn = spec_type_name(w as nat);
    let tl = tn.len() as int;
    lemma_value_avoids(tn, "TYPESIZE"@);
    let a1 = t0.subrange(0, 14);
    let a2 = t0.subrange(22, 289);
    let c1 = t0.subrange(297, 342);
    let c2 = t0.subrange(350, 421);
    let c3 = t0.subrange(429, 592);
    let e2 = t0.skip(429);
    let r_e3 = spec_replace_all(t0.skip(600), pat, tn);
    let r_e2 = spec_replace_all(e2, pat, tn);
    let t1 = spec_replace_all(t0, pat, tn);
    let r_e1 = c2 + tn + r_e2;
    let r_b2 = c1 + tn + r_e1;
    let r_b1 = a2 + tn + r_b2;
    assert(r_e2 == c3 + tn + r_e3);
    assert(t1 == a1 + tn + r_b1);
    assert(r_e2.len() == 163 + tl + r_e3.len());
    assert(t1.len() == 397 + 4 * tl + r_e2.len());
    let x = spec_mini_to_name(w);
    assert(x == "UNSAFE_MINI_TO_"@ + tn);
    assert(x.len() == 15 + tl);
    let i2 = 545 + 4 * tl;
    assert forall|k: int| 0 <= k < x.len() implies r_e2.subrange(148, 163 + tl)[k] == x[k] by {
        assert(r_e2.subrange(148, 163 + tl)[k] == r_e2[148 + k]);
        if k < 15 {
            assert(r_e2[148 + k] == c3[148 + k]);
            assert(c3[148 + k] == t0[577 + k]);
            assert(t0.subrange(577, 592)[k] == t0[577 + k]);
            assert(x[k] == "UNSAFE_MINI_TO_"@[k]);
        } else {
            assert(r_e2[148 + k] == tn[k - 15]);
            assert(x[k] == tn[k - 15]);
        }
    }
    assert(r_e2.subrange(148, 163 + tl) =~= x);
    assert forall|k: int| 0 <= k < x.len() implies t1.subrange(i2, i2 + x.len())[k] == x[k] by {
        assert(t1.subrange(i2, i2 + x.len())[k] == t1[i2 + k]);
        assert(t1[i2 + k] == r_b1[i2 + k - 14 - tl]);
        assert(r_b1[i2 + k - 14 - tl] == r_b2[i2 + k - 281 - 2 * tl]);
        assert(r_b2[i2 + k - 281 - 2 * tl] == r_e1[i2 + k - 326 - 3 * tl]);
        assert(r_e1[i2 + k - 326 - 3 * tl] == r_e2[i2 + k - 397 - 4 * tl]);
        assert(r_e2.subrange(148, 163 + tl)[k] == r_e2[148 + k]);
    }
    assert(t1.subrange(i2, i2 + x.len()) =~= x);
    assert(occurs_at(t1, x, i2));
    assert forall|j: int| !occurs_at(e2, sz, j) by {
        if occurs_at(e2, sz, j) {
            assert(e2.subrange(j, j + 8)[0] == e2[j]);
            assert(e2.subrange(j, j + 8)[1] == e2[j + 1]);
            assert(e2.subrange(j, j + 8)[4] == e2[j + 4]);
            assert(e2[j] == t0[429 + j]);
            assert(e2[j + 1] == t0[429 + j + 1]);
            assert(e2[j + 4] == t0[429 + j + 4]);
        }
    }
    lemma_replace_preserves_avoiding(e2, pat, tn, sz);
    assert forall|j: int| occurs_at(t1, sz, j) implies j + 8 <= i2 by {
        if occurs_at(t1, sz, j) && j + 8 > i2 {
            assert(t1.subrange(j, j + 8)[0] == t1[j]);
            assert(t1.subrange(j, j + 8)[1] == t1[j + 1]);
            assert(t1[j] == 'T');
            assert(t1[j + 1] == 'Y');
            if j < 14 {
                assert(t1[j] == a1[j]);
                assert(a1[j] == t0[j]);
            } else if j < 14 + tl {
                assert(t1[j] == tn[j - 14]);
                assert(is_value_char(tn[j - 14]));
            } else if j < 281 + tl {
                let m = j - 14 - tl;
                assert(t1[j] == r_b1[m]);
                assert(r_b1[m] == a2[m]);
                assert(a2[m] == t0[22 + m]);
                if m < 266 {
                    assert(t1[j + 1] == r_b1[m + 1]);
                    assert(r_b1[m + 1] == a2[m + 1]);
                    assert(a2[m + 1] == t0[22 + m + 1]);
                } else {
                    assert(t0.subrange(284, 289)[4] == t0[288]);
                }
            } else if j < 281 + 2 * tl {
                assert(t1[j] == r_b1[j - 14 - tl]);
                assert(r_b1[j - 14 - tl] == tn[j - 281 - tl]);
                assert(is_value_char(tn[j - 281 - tl]));
            } else if j < 326 + 2 * tl {
                let m = j - 281 - 2 * tl;
                assert(t1[j] == r_b1[j - 14 - tl]);
                assert(r_b1[j - 14 - tl] == r_b2[m]);
                assert(r_b2[m] == c1[m]);
                assert(c1[m] == t0[297 + m]);
                if m < 44 {
                    assert(t1[j + 1] == r_b2[m + 1]);
                    assert(r_b2[m + 1] == c1[m + 1]);
                    assert(c1[m + 1] == t0[297 + m + 1]);
                } else {
                    assert(t1[j + 1] == r_b2[45]);
                    assert(r_b2[45] == tn[0]);
                    assert(is_value_char(tn[0]));
                }
            } else if j < 326 + 3 * tl {
                assert(t1[j] == r_b2[j - 281 - 2 * tl]);
                assert(r_b2[j - 281 - 2 * tl] == tn[j - 326 - 2 * tl]);
                assert(is_value_char(tn[j - 326 - 2 * tl]));
            } else if j < 397 + 3 * tl {
                let m = j - 326 - 3 * tl;
                assert(t1[j] == r_e1[m]);
                assert(r_e1[m] == c2[m]);
                assert(c2[m] == t0[350 + m]);
                if m == 46 {
                    assert(j == 372 + 3 * tl);
                    assert(j + 8 <= i2);
                } else if m < 70 {
                    assert(t1[j + 1] == r_e1[m + 1]);
                    assert(r_e1[m + 1] == c2[m + 1]);
                    assert(c2[m + 1] == t0[350 + m + 1]);
                } else {
                    assert(t1[j + 1] == r_e1[71]);
                    assert(r_e1[71] == tn[0]);
                    assert(is_value_char(tn[0]));
                }
            } else if j < 397 + 4 * tl {
                assert(t1[j] == r_e1[j - 326 - 3 * tl]);
                assert(r_e1[j - 326 - 3 * tl] == tn[j - 397 - 3 * tl]);
                assert(is_value_char(tn[j - 397 - 3 * tl]));
            } else {
                let m = j - 397 - 4 * tl;
                assert(r_e2.subrange(m, m + 8) =~= t1.subrange(j, j + 8));
                assert(occurs_at(r_e2, sz, m));
            }
        }
    }
}

/// From 32 bits upward a block also contains its unchecked mini cast's
/// name: in the mini template the placeholder follows `UNSAFE_MINI_TO_`,
/// and substitution turns that spot into the macro name.
pub proof fn lemma_mini_cast_name_present_from_32(w: u16)
    requires
        valid_width(w),
        includes_mini(w),
    ensures
        occurs(spec_block(w), spec_mini_to_name(w)),
{
    reveal_strlit("TYPENAME");
    reveal_strlit("TYPEMASK");
    reveal_strlit("TYPESIZE");
    reveal_strlit("UNSAFE_MINI_TO_");
    lemma_mini_template_facts();
    lemma_placeholder_chars();
    lemma_value_chars(w);
    lemma_mini_cast_spot(w);
    let t0 = MINI_MASK_TEMPLATE@;
    let pat = "TYPENAME"@;
    let sz = "TYPESIZE"@;
    let tn = spec_type_name(w as nat);
    let tl = tn.len() as int;
    let dc = spec_decimal(w as nat);
    let mk = spec_mask((w as nat) / 8);
    let t1 = spec_replace_all(t0, pat, tn);
    let x = spec_mini_to_name(w);
    let i2 = 545 + 4 * tl;
    assert(x.len() == 15 + tl);
    lemma_replace_keeps(t1, sz, dc, x, i2);
    lemma_value_avoids(tn, "TYPEMASK"@);
    assert forall|j: int| !occurs_at(t0, "TYPEMASK"@, j) by {
        if occurs_at(t0, "TYPEMASK"@, j) {
            assert(t0.subrange(j, j + 8)[0] == t0[j]);
            assert(t0.subrange(j, j + 8)[1] == t0[j + 1]);
            assert(t0.subrange(j, j + 8)[4] == t0[j + 4]);
        }
    }
    lemma_replace_preserves_avoiding(t0, pat, tn, "TYPEMASK"@);
    lemma_replace_identity(t1, "TYPEMASK"@, mk);
    assert(spec_substitute(t0, w as nat) == spec_replace_all(t1, sz, dc));
    lemma_occurs_in_concat_right(
        spec_substitute(MASK_TEMPLATE@, w as nat),
        spec_substitute(t0, w as nat),
        x,
    );
    assert(spec_block(w) == spec_substitute(MASK_TEMPLATE@, w as nat) + spec_substitute(
        t0,
        w as nat,
    ));
}
} // verus!
