//! The weight model: how many display rows one line takes.

use vstd::prelude::*;

verus! {

/// The number of display rows taken by a line of `length` characters when a
/// row holds `max_length` characters. An empty line still takes one row.
pub open spec fn spec_line_weight(length: nat, max_length: nat) -> nat {
    if length == 0 {
        1
    } else {
        ((length - 1) / (max_length as int) + 1) as nat
    }
}

/// For a non-empty line the weight is the ceiling of `length / max_length`:
/// the one `w` with `(w - 1) * max_length < length <= w * max_length`.
pub proof fn lemma_line_weight_is_ceiling(length: nat, max_length: nat)
    requires
        length > 0,
        max_length > 0,
    ensures
        (spec_line_weight(length, max_length) - 1) * max_length < length,
        length <= spec_line_weight(length, max_length) * max_length,
        1 <= spec_line_weight(length, max_length) <= length,
{
    let x: int = length - 1;
    let d: int = max_length as int;
    let q: int = x / d;
    let r: int = x % d;
    assert(x == d * q + r && 0 <= r < d && 0 <= q <= x) by (nonlinear_arith)
        requires
            x >= 0,
            d > 0,
            q == x / d,
            r == x % d,
    ;
    assert(q * d == d * q && (q + 1) * d == d * q + d) by (nonlinear_arith);
}

/// Whatever the row length, a line weighs at least one row, and an empty line
/// exactly one.
pub proof fn lemma_line_weight_positive(length: nat, max_length: nat)
    requires
        max_length > 0,
    ensures
        spec_line_weight(length, max_length) >= 1,
        length == 0 ==> spec_line_weight(length, max_length) == 1,
{
    if length > 0 {
        lemma_line_weight_is_ceiling(length, max_length);
    }
}

/// Computes the weight of a line of `length` characters for rows of
/// `max_length` characters.
pub fn line_weight(length: usize, max_length: usize) -> (weight: usize)
    requires
        max_length > 0,
    ensures
        weight == spec_line_weight(length as nat, max_length as nat),
        length == 0 ==> weight == 1,
        length > 0 ==> (weight - 1) * max_length < length && length <= weight * max_length,
        weight >= 1,
{
    if length == 0 {
        return 1;
    }
    proof {
        lemma_line_weight_is_ceiling(length as nat, max_length as nat);
    }
    (length - 1) / max_length + 1
}

} // verus!
