//! Splitting a count into pieces of bounded size.

use crate::count::Count;
use vstd::arithmetic::div_mod::*;
use vstd::prelude::*;

verus! {

/// The pieces into which `total` is split with pieces of at most `unit`:
/// as many pieces of `unit` as fit, then what is left, if anything is.
/// Nothing is split into no piece at all.
pub open spec fn chunks_of(total: nat, unit: nat) -> Seq<nat>
    recommends
        unit > 0,
{
    let full = Seq::new(total / unit, |i: int| unit);
    if total % unit > 0 {
        full.push(total % unit)
    } else {
        full
    }
}

/// The sum of the numbers of `s`.
pub open spec fn sum(s: Seq<nat>) -> nat
    decreases s.len(),
{
    if s.len() == 0 {
        0
    } else {
        sum(s.drop_last()) + s.last()
    }
}

/// The numbers that the counts of `s` stand for.
pub open spec fn values(s: Seq<Count>) -> Seq<nat> {
    Seq::new(s.len(), |i: int| s[i]@)
}

/// `k` times the same number add up to the product.
proof fn lemma_sum_constant(k: nat, unit: nat)
    ensures
        sum(Seq::new(k, |i: int| unit)) == k * unit,
    decreases k,
{
    let s = Seq::new(k, |i: int| unit);
    if k > 0 {
        assert(s.drop_last() =~= Seq::new((k - 1) as nat, |i: int| unit));
        lemma_sum_constant((k - 1) as nat, unit);
        assert(k * unit == (k - 1) * unit + unit) by (nonlinear_arith);
    } else {
        assert(k * unit == 0) by (nonlinear_arith)
            requires
                k == 0,
        ;
    }
}

/// The pieces of a split add up to what was split, none of them is larger
/// than the unit or empty, and there are as many of them as the quotient of
/// the total by the unit, rounded up.
pub proof fn lemma_chunks_of(total: nat, unit: nat)
    requires
        unit > 0,
    ensures
        sum(chunks_of(total, unit)) == total,
        forall|i: int|
            0 <= i < chunks_of(total, unit).len() ==> 0 < #[trigger] chunks_of(total, unit)[i]
                <= unit,
        chunks_of(total, unit).len() == (total + unit - 1) / (unit as int),
        total == 0 ==> chunks_of(total, unit).len() == 0,
{
    let q = total / unit;
    let r = total % unit;
    let full = Seq::new(q, |i: int| unit);
    lemma_sum_constant(q, unit);
    lemma_fundamental_div_mod(total as int, unit as int);
    assert(unit * q == q * unit) by (nonlinear_arith);
    if r > 0 {
        assert(full.push(r).drop_last() =~= full);
        assert((q + 1) * unit == q * unit + unit) by (nonlinear_arith);
        lemma_fundamental_div_mod_converse(total + unit - 1, unit as int, (q + 1) as int, r - 1);
    } else {
        lemma_fundamental_div_mod_converse(total + unit - 1, unit as int, q as int, unit - 1);
    }
    if total == 0 {
        lemma_fundamental_div_mod_converse(0, unit as int, 0, 0);
    }
}

/// Splits `n` into pieces of at most `unit`: `unit` as often as it fits,
/// then what is left, if anything is.
pub fn div_unit(unit: &Count, n: &Count) -> (r: Vec<Count>)
    requires
        unit@ > 0,
    ensures
        values(r@) == chunks_of(n@, unit@),
{
    let mut pieces: Vec<Count> = Vec::new();
    let mut rest = n.clone();
    assert(pieces@.len() * unit@ == 0) by (nonlinear_arith)
        requires
            pieces@.len() == 0,
    ;
    while !rest.less_than(unit)
        invariant
            unit@ > 0,
            n@ == pieces@.len() * unit@ + rest@,
            forall|i: int| 0 <= i < pieces@.len() ==> (#[trigger] pieces@[i])@ == unit@,
        decreases rest@,
    {
        let ghost before = pieces@.len();
        rest = rest.checked_minus(unit).unwrap();
        pieces.push(unit.clone());
        assert((before + 1) * unit@ == before * unit@ + unit@) by (nonlinear_arith);
    }
    proof {
        lemma_fundamental_div_mod_converse(
            n@ as int,
            unit@ as int,
            pieces@.len() as int,
            rest@ as int,
        );
    }
    if !rest.is_zero() {
        pieces.push(rest);
    }
    assert(values(pieces@) =~= chunks_of(n@, unit@));
    pieces
}

} // verus!
