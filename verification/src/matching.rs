//! The CLR (Capital-Constrained Liberal Radicalism) matching engine: a pure
//! function from per-proposal contribution lists and a fixed budget to
//! per-proposal matches and a leftover. Everything is exact integer
//! arithmetic; overflow is a hard failure, never a silent wrap.

use vstd::prelude::*;

use crate::error::ContractError;
use crate::helper::clone_bytes;
use crate::sqrt::{integer_sqrt, lemma_sqrt_floor_of_sum, lemma_square_monotone, sqrt_floor};
use vstd::arithmetic::div_mod::{
    lemma_div_is_ordered, lemma_div_multiples_vanish, lemma_div_pos_is_pos,
    lemma_fundamental_div_mod, lemma_mod_division_less_than_divisor,
};
use vstd::arithmetic::mul::{
    lemma_mul_inequality, lemma_mul_is_distributive_add_other_way, lemma_mul_nonnegative,
};

verus! {

/// The matching formula a round runs. A closed set of variants so that the
/// engine stays pluggable; only CLR is implemented.
#[derive(Clone, Debug, PartialEq, Eq)]
pub enum QuadraticFundingAlgorithm {
    CapitalConstrainedLiberalRadicalism { parameter: String },
}

/// One proposal's input to the engine: its recipient, the individual vote
/// amounts it received, and their running total.
#[derive(Clone, Debug, PartialEq, Eq)]
pub struct RawGrant {
    pub addr: Vec<u8>,
    pub funds: Vec<u128>,
    pub collected_vote_funds: u128,
}

/// One proposal's output from a matching phase: its recipient, the computed
/// grant, and the collected votes carried through unchanged.
#[derive(Clone, Debug, PartialEq, Eq)]
pub struct CalculatedGrant {
    pub addr: Vec<u8>,
    pub grant: u128,
    pub collected_vote_funds: u128,
}

/// The sum of the floor square roots of the individual contributions.
pub open spec fn sum_sqrts(funds: Seq<u128>) -> int
    decreases funds.len(),
{
    if funds.len() == 0 {
        0
    } else {
        sum_sqrts(funds.drop_last()) + sqrt_floor(funds.last() as nat)
    }
}

/// The unconstrained (liberal) match of one proposal: the square of the sum
/// of the square roots of its contributions. Broad support beats concentrated
/// support: many small contributions score higher than one large one of the
/// same total.
pub open spec fn liberal_match(funds: Seq<u128>) -> int {
    sum_sqrts(funds) * sum_sqrts(funds)
}

/// The per-proposal contribution lists of a sequence of raw grants.
pub open spec fn fundss_of(grants: Seq<RawGrant>) -> Seq<Seq<u128>> {
    grants.map_values(|g: RawGrant| g.funds@)
}

/// The sum of the liberal matches across all proposals.
pub open spec fn liberal_total(fundss: Seq<Seq<u128>>) -> int
    decreases fundss.len(),
{
    if fundss.len() == 0 {
        0
    } else {
        liberal_total(fundss.drop_last()) + liberal_match(fundss.last())
    }
}

/// One proposal's budget-constrained match: its liberal match scaled by
/// `budget / total`, multiplied first and floor-divided once.
pub open spec fn scaled_match(liberal: int, total: int, budget: int) -> int {
    liberal * budget / total
}

/// The sum of the scaled matches of the first `k` proposals.
pub open spec fn scaled_sum(fundss: Seq<Seq<u128>>, total: int, budget: int) -> int
    decreases fundss.len(),
{
    if fundss.len() == 0 {
        0
    } else {
        scaled_sum(fundss.drop_last(), total, budget) + scaled_match(
            liberal_match(fundss.last()),
            total,
            budget,
        )
    }
}

/// A sum of square roots is never negative.
pub proof fn lemma_sum_sqrts_nonneg(funds: Seq<u128>)
    ensures
        sum_sqrts(funds) >= 0,
    decreases funds.len(),
{
    if funds.len() > 0 {
        lemma_sum_sqrts_nonneg(funds.drop_last());
    }
}

/// A liberal match is never negative.
pub proof fn lemma_liberal_match_nonneg(funds: Seq<u128>)
    ensures
        liberal_match(funds) >= 0,
{
    let s = sum_sqrts(funds);
    assert(s * s >= 0) by (nonlinear_arith);
}

/// Extending a prefix by one contribution adds that contribution's root.
pub proof fn lemma_sum_sqrts_prefix(funds: Seq<u128>, i: int)
    requires
        0 <= i < funds.len(),
    ensures
        sum_sqrts(funds.subrange(0, i + 1)) == sum_sqrts(funds.subrange(0, i)) + sqrt_floor(
            funds[i] as nat,
        ),
{
    assert(funds.subrange(0, i + 1).drop_last() =~= funds.subrange(0, i));
    assert(funds.subrange(0, i + 1).last() == funds[i]);
}

/// A prefix's sum of roots never exceeds the whole sequence's.
pub proof fn lemma_sum_sqrts_prefix_le(funds: Seq<u128>, i: int)
    requires
        0 <= i <= funds.len(),
    ensures
        sum_sqrts(funds.subrange(0, i)) <= sum_sqrts(funds),
    decreases funds.len(),
{
    if i == funds.len() {
        assert(funds.subrange(0, i) =~= funds);
    } else {
        assert(funds.drop_last() =~= funds.subrange(0, funds.len() - 1));
        assert(funds.drop_last().subrange(0, i) =~= funds.subrange(0, i));
        lemma_sum_sqrts_prefix_le(funds.drop_last(), i);
    }
}

/// A number at least one is at most its own square.
proof fn lemma_square_ge_self(a: int)
    requires
        a >= 1,
    ensures
        a * a >= a,
{
    assert(a * a >= a) by (nonlinear_arith)
        requires
            a >= 1,
    ;
}

/// Extending a prefix of grants by one adds that grant's liberal match.
pub proof fn lemma_liberal_total_prefix(fundss: Seq<Seq<u128>>, i: int)
    requires
        0 <= i < fundss.len(),
    ensures
        liberal_total(fundss.subrange(0, i + 1)) == liberal_total(fundss.subrange(0, i))
            + liberal_match(fundss[i]),
{
    assert(fundss.subrange(0, i + 1).drop_last() =~= fundss.subrange(0, i));
    assert(fundss.subrange(0, i + 1).last() == fundss[i]);
}

/// No liberal total is negative.
pub proof fn lemma_liberal_total_nonneg(fundss: Seq<Seq<u128>>)
    ensures
        liberal_total(fundss) >= 0,
    decreases fundss.len(),
{
    if fundss.len() > 0 {
        lemma_liberal_total_nonneg(fundss.drop_last());
        lemma_liberal_match_nonneg(fundss.last());
    }
}

/// A prefix's liberal total never exceeds the whole sequence's.
pub proof fn lemma_liberal_total_prefix_le(fundss: Seq<Seq<u128>>, i: int)
    requires
        0 <= i <= fundss.len(),
    ensures
        liberal_total(fundss.subrange(0, i)) <= liberal_total(fundss),
    decreases fundss.len(),
{
    if i == fundss.len() {
        assert(fundss.subrange(0, i) =~= fundss);
    } else {
        assert(fundss.drop_last() =~= fundss.subrange(0, fundss.len() - 1));
        assert(fundss.drop_last().subrange(0, i) =~= fundss.subrange(0, i));
        lemma_liberal_total_prefix_le(fundss.drop_last(), i);
        lemma_liberal_match_nonneg(fundss.last());
    }
}

/// Each proposal's liberal match: the integer square root of every
/// contribution, summed, then squared. Fails with `Overflow` exactly when
/// some proposal's liberal match no longer fits the arithmetic width.
fn calculate_matched_sum(grants: &Vec<RawGrant>) -> (r: Result<Vec<CalculatedGrant>, ContractError>)
    ensures
        match r {
            Ok(cg) => {
                &&& cg@.len() == grants@.len()
                &&& forall|i: int|
                    0 <= i < grants@.len() ==> (#[trigger] cg@[i]).addr@ == grants@[i].addr@
                        && cg@[i].grant as int == liberal_match(grants@[i].funds@)
                        && cg@[i].collected_vote_funds == grants@[i].collected_vote_funds
                &&& forall|i: int|
                    0 <= i < grants@.len() ==> liberal_match(#[trigger] grants@[i].funds@)
                        <= u128::MAX
            },
            Err(e) => {
                &&& e == ContractError::Overflow
                &&& exists|i: int|
                    0 <= i < grants@.len() && liberal_match(#[trigger] grants@[i].funds@)
                        > u128::MAX
            },
        },
{
    let mut out: Vec<CalculatedGrant> = Vec::new();
    let mut gi: usize = 0;
    while gi < grants.len()
        invariant
            gi <= grants@.len(),
            out@.len() == gi,
            forall|i: int|
                0 <= i < gi ==> (#[trigger] out@[i]).addr@ == grants@[i].addr@ && out@[i].grant
                    as int == liberal_match(grants@[i].funds@) && out@[i].collected_vote_funds
                    == grants@[i].collected_vote_funds,
            forall|i: int|
                0 <= i < gi ==> liberal_match(#[trigger] grants@[i].funds@) <= u128::MAX,
        decreases grants@.len() - gi,
    {
        let g = &grants[gi];
        let mut s: u128 = 0;
        let mut fi: usize = 0;
        proof {
            assert(g.funds@.subrange(0, 0) =~= Seq::<u128>::empty());
        }
        while fi < g.funds.len()
            invariant
                fi <= g.funds@.len(),
                s as int == sum_sqrts(g.funds@.subrange(0, fi as int)),
                g == grants@[gi as int],
                gi < grants@.len(),
            decreases g.funds@.len() - fi,
        {
            let root = integer_sqrt(g.funds[fi]);
            proof {
                lemma_sum_sqrts_prefix(g.funds@, fi as int);
            }
            s = match s.checked_add(root) {
                Some(ns) => ns,
                None => {
                    proof {
                        lemma_sum_sqrts_prefix_le(g.funds@, fi + 1);
                        lemma_square_ge_self(sum_sqrts(g.funds@));
                    }
                    return Err(ContractError::Overflow);
                },
            };
            fi = fi + 1;
        }
        proof {
            assert(g.funds@.subrange(0, g.funds@.len() as int) =~= g.funds@);
        }
        let grant = match s.checked_mul(s) {
            Some(sq) => sq,
            None => {
                return Err(ContractError::Overflow);
            },
        };
        out.push(
            CalculatedGrant {
                addr: clone_bytes(&g.addr),
                grant,
                collected_vote_funds: g.collected_vote_funds,
            },
        );
        gi = gi + 1;
    }
    Ok(out)
}

/// Integer division distributes subadditively over addition: the floors of
/// two shares never exceed the floor of their sum.
proof fn lemma_div_subadd(x: int, y: int, d: int)
    requires
        x >= 0,
        y >= 0,
        d > 0,
    ensures
        x / d + y / d <= (x + y) / d,
{
    lemma_fundamental_div_mod(x, d);
    lemma_fundamental_div_mod(y, d);
    lemma_mod_division_less_than_divisor(x, d);
    lemma_mod_division_less_than_divisor(y, d);
    let q = x / d + y / d;
    assert(d * q == d * (x / d) + d * (y / d)) by {
        vstd::arithmetic::mul::lemma_mul_is_distributive_add(d, x / d, y / d);
    }
    assert(d * q <= x + y);
    lemma_div_is_ordered(d * q, x + y, d);
    lemma_div_multiples_vanish(q, d);
}

/// Extending a prefix of grants by one adds that grant's scaled match.
proof fn lemma_scaled_sum_prefix(fundss: Seq<Seq<u128>>, total: int, budget: int, i: int)
    requires
        0 <= i < fundss.len(),
    ensures
        scaled_sum(fundss.subrange(0, i + 1), total, budget) == scaled_sum(
            fundss.subrange(0, i),
            total,
            budget,
        ) + scaled_match(liberal_match(fundss[i]), total, budget),
{
    assert(fundss.subrange(0, i + 1).drop_last() =~= fundss.subrange(0, i));
    assert(fundss.subrange(0, i + 1).last() == fundss[i]);
}

/// No scaled sum is negative.
proof fn lemma_scaled_sum_nonneg(fundss: Seq<Seq<u128>>, total: int, budget: int)
    requires
        total > 0,
        budget >= 0,
    ensures
        scaled_sum(fundss, total, budget) >= 0,
    decreases fundss.len(),
{
    if fundss.len() > 0 {
        lemma_scaled_sum_nonneg(fundss.drop_last(), total, budget);
        lemma_liberal_match_nonneg(fundss.last());
        lemma_mul_nonnegative(liberal_match(fundss.last()), budget);
        lemma_div_pos_is_pos(liberal_match(fundss.last()) * budget, total);
    }
}

/// The sum of the scaled matches of a prefix is bounded by that prefix's
/// liberal total, scaled.
proof fn lemma_scaled_sum_le(fundss: Seq<Seq<u128>>, total: int, budget: int, i: int)
    requires
        0 <= i <= fundss.len(),
        total > 0,
        budget >= 0,
    ensures
        scaled_sum(fundss.subrange(0, i), total, budget) <= liberal_total(fundss.subrange(0, i))
            * budget / total,
    decreases i,
{
    if i == 0 {
        assert(fundss.subrange(0, 0) =~= Seq::<Seq<u128>>::empty());
    } else {
        lemma_scaled_sum_le(fundss, total, budget, i - 1);
        lemma_scaled_sum_prefix(fundss, total, budget, i - 1);
        lemma_liberal_total_prefix(fundss, i - 1);
        let lpre = liberal_total(fundss.subrange(0, i - 1));
        let li = liberal_match(fundss[i - 1]);
        lemma_liberal_total_nonneg(fundss.subrange(0, i - 1));
        lemma_liberal_match_nonneg(fundss[i - 1]);
        lemma_mul_nonnegative(lpre, budget);
        lemma_mul_nonnegative(li, budget);
        lemma_div_subadd(lpre * budget, li * budget, total);
        lemma_mul_is_distributive_add_other_way(budget, lpre, li);
    }
}

/// Budget conservation: when every proposal's budget-constrained match is its
/// liberal match scaled by `budget / total` with a single floor division,
/// the matches together never exceed the budget, so the leftover
/// `budget - sum` is non-negative and `sum + leftover == budget` exactly.
pub proof fn lemma_budget_conservation(fundss: Seq<Seq<u128>>, budget: u128)
    requires
        liberal_total(fundss) > 0,
    ensures
        0 <= scaled_sum(fundss, liberal_total(fundss), budget as int),
        scaled_sum(fundss, liberal_total(fundss), budget as int) <= budget,
{
    let total = liberal_total(fundss);
    lemma_scaled_sum_nonneg(fundss, total, budget as int);
    lemma_scaled_sum_le(fundss, total, budget as int, fundss.len() as int);
    assert(fundss.subrange(0, fundss.len() as int) =~= fundss);
    lemma_div_multiples_vanish(budget as int, total);
    assert(total * budget == budget * total) by (nonlinear_arith);
}

/// Every single grant's liberal match is bounded by the liberal total.
proof fn lemma_liberal_total_element_le(fundss: Seq<Seq<u128>>, i: int)
    requires
        0 <= i < fundss.len(),
    ensures
        liberal_match(fundss[i]) <= liberal_total(fundss),
{
    lemma_liberal_total_prefix(fundss, i);
    lemma_liberal_total_prefix_le(fundss, i + 1);
    lemma_liberal_total_nonneg(fundss.subrange(0, i));
}

/// The sum of the grants of a sequence of calculated grants.
pub open spec fn sum_grants(cgs: Seq<CalculatedGrant>) -> int
    decreases cgs.len(),
{
    if cgs.len() == 0 {
        0
    } else {
        sum_grants(cgs.drop_last()) + cgs.last().grant
    }
}

/// A sequence of calculated grants that carries, element for element, the
/// scaled matches of `fundss` sums to the scaled sum of `fundss`.
pub proof fn lemma_sum_grants_is_scaled_sum(
    cgs: Seq<CalculatedGrant>,
    fundss: Seq<Seq<u128>>,
    total: int,
    budget: int,
)
    requires
        cgs.len() == fundss.len(),
        forall|i: int|
            0 <= i < cgs.len() ==> (#[trigger] cgs[i]).grant as int == scaled_match(
                liberal_match(fundss[i]),
                total,
                budget,
            ),
    ensures
        sum_grants(cgs) == scaled_sum(fundss, total, budget),
    decreases cgs.len(),
{
    if cgs.len() > 0 {
        assert(forall|i: int|
            0 <= i < cgs.drop_last().len() ==> (#[trigger] cgs.drop_last()[i]) == cgs[i]);
        lemma_sum_grants_is_scaled_sum(cgs.drop_last(), fundss.drop_last(), total, budget);
    }
}

/// Scales each grant by `budget / total`, multiplying first and floor-dividing
/// once, so that rounding error never accumulates across proposals. Fails
/// with `Overflow` exactly when some product `grant * budget` no longer fits.
fn constrain_by_budget(grants: Vec<CalculatedGrant>, total: u128, budget: u128) -> (r: Result<
    Vec<CalculatedGrant>,
    ContractError,
>)
    requires
        total > 0,
    ensures
        match r {
            Ok(cg) => {
                &&& cg@.len() == grants@.len()
                &&& forall|i: int|
                    0 <= i < grants@.len() ==> (#[trigger] cg@[i]).addr@ == grants@[i].addr@
                        && cg@[i].grant as int == scaled_match(
                        grants@[i].grant as int,
                        total as int,
                        budget as int,
                    ) && cg@[i].collected_vote_funds == grants@[i].collected_vote_funds
                &&& forall|i: int|
                    0 <= i < grants@.len() ==> (#[trigger] grants@[i]).grant as int * budget
                        <= u128::MAX
            },
            Err(e) => {
                &&& e == ContractError::Overflow
                &&& exists|i: int|
                    0 <= i < grants@.len() && (#[trigger] grants@[i]).grant as int * budget
                        > u128::MAX
            },
        },
{
    let mut out: Vec<CalculatedGrant> = Vec::new();
    let mut gi: usize = 0;
    while gi < grants.len()
        invariant
            total > 0,
            gi <= grants@.len(),
            out@.len() == gi,
            forall|i: int|
                0 <= i < gi ==> (#[trigger] out@[i]).addr@ == grants@[i].addr@ && out@[i].grant
                    as int == scaled_match(grants@[i].grant as int, total as int, budget as int)
                    && out@[i].collected_vote_funds == grants@[i].collected_vote_funds,
            forall|i: int|
                0 <= i < gi ==> (#[trigger] grants@[i]).grant as int * budget <= u128::MAX,
        decreases grants@.len() - gi,
    {
        let g = &grants[gi];
        let product = match g.grant.checked_mul(budget) {
            Some(p) => p,
            None => {
                return Err(ContractError::Overflow);
            },
        };
        let scaled = product / total;
        out.push(
            CalculatedGrant {
                addr: clone_bytes(&g.addr),
                grant: scaled,
                collected_vote_funds: g.collected_vote_funds,
            },
        );
        gi = gi + 1;
    }
    Ok(out)
}

/// The engine overflows on these inputs: the liberal total, or some single
/// scaling product `liberal * budget`, no longer fits the arithmetic width.
pub open spec fn clr_overflows(grants: Seq<RawGrant>, budget: u128) -> bool {
    ||| liberal_total(fundss_of(grants)) > u128::MAX
    ||| exists|i: int|
        0 <= i < grants.len() && liberal_match((#[trigger] grants[i]).funds@) * budget > u128::MAX
}

/// The engine's successful outcome, pinned value by value: every input grant
/// reappears in order with its liberal match scaled by `budget / total`, the
/// collected votes are carried through untouched, and the matches plus the
/// leftover equal the budget exactly.
pub open spec fn clr_ok(
    grants: Seq<RawGrant>,
    budget: u128,
    matched: Seq<CalculatedGrant>,
    leftover: u128,
) -> bool {
    let total = liberal_total(fundss_of(grants));
    &&& matched.len() == grants.len()
    &&& forall|i: int| 0 <= i < grants.len() ==> (#[trigger] matched[i]).addr@ == grants[i].addr@
    &&& forall|i: int|
        0 <= i < grants.len() ==> (#[trigger] matched[i]).collected_vote_funds
            == grants[i].collected_vote_funds
    &&& forall|i: int|
        0 <= i < grants.len() ==> (#[trigger] matched[i]).grant as int == scaled_match(
            liberal_match(grants[i].funds@),
            total,
            budget as int,
        )
    &&& sum_grants(matched) + leftover == budget
    &&& leftover <= budget
}

/// The CLR matching engine. For each proposal it sums the integer square
/// roots of the individual contributions and squares the sum (the liberal
/// match), then scales every liberal match by `budget / total` with a single
/// floor division each, and returns the scaled matches together with the
/// leftover `budget - sum(matches)`.
///
/// Fails with `CLRConstrainRequired` when no budget constraint was given or
/// the support base is empty (a zero liberal total), and with `Overflow` when
/// an intermediate value no longer fits, rather than wrapping.
pub fn calculate_clr(grants: Vec<RawGrant>, budget: Option<u128>) -> (r: Result<
    (Vec<CalculatedGrant>, u128),
    ContractError,
>)
    ensures
        match budget {
            None => r == Err::<(Vec<CalculatedGrant>, u128), ContractError>(
                ContractError::CLRConstrainRequired,
            ),
            Some(b) => {
                &&& clr_overflows(grants@, b) ==> r == Err::<
                    (Vec<CalculatedGrant>, u128),
                    ContractError,
                >(ContractError::Overflow)
                &&& (!clr_overflows(grants@, b) && liberal_total(fundss_of(grants@)) == 0) ==> r
                    == Err::<(Vec<CalculatedGrant>, u128), ContractError>(
                    ContractError::CLRConstrainRequired,
                )
                &&& (!clr_overflows(grants@, b) && liberal_total(fundss_of(grants@)) > 0) ==> (
                r matches Ok(p) && clr_ok(grants@, b, p.0@, p.1))
                &&& r is Ok <==> (!clr_overflows(grants@, b) && liberal_total(fundss_of(grants@))
                    > 0)
            },
        },
{
    let b = match budget {
        Some(b) => b,
        None => {
            return Err(ContractError::CLRConstrainRequired);
        },
    };
    let ghost fundss = fundss_of(grants@);
    let matched = match calculate_matched_sum(&grants) {
        Ok(m) => m,
        Err(e) => {
            proof {
                let i = choose|i: int|
                    0 <= i < grants@.len() && liberal_match(#[trigger] grants@[i].funds@)
                        > u128::MAX;
                assert(fundss[i] == grants@[i].funds@);
                lemma_liberal_total_element_le(fundss, i);
            }
            return Err(e);
        },
    };
    let mut total: u128 = 0;
    let mut i: usize = 0;
    proof {
        assert(fundss.subrange(0, 0) =~= Seq::<Seq<u128>>::empty());
    }
    while i < matched.len()
        invariant
            budget == Some(b),
            i <= matched@.len(),
            matched@.len() == grants@.len(),
            fundss == fundss_of(grants@),
            total as int == liberal_total(fundss.subrange(0, i as int)),
            forall|j: int|
                0 <= j < grants@.len() ==> (#[trigger] matched@[j]).grant as int == liberal_match(
                    grants@[j].funds@,
                ),
        decreases matched@.len() - i,
    {
        proof {
            assert(fundss[i as int] == grants@[i as int].funds@);
            lemma_liberal_total_prefix(fundss, i as int);
        }
        total = match total.checked_add(matched[i].grant) {
            Some(t) => t,
            None => {
                proof {
                    lemma_liberal_total_prefix_le(fundss, i + 1);
                }
                return Err(ContractError::Overflow);
            },
        };
        i = i + 1;
    }
    proof {
        assert(fundss.subrange(0, matched@.len() as int) =~= fundss);
    }
    if total == 0 {
        proof {
            assert forall|j: int| 0 <= j < grants@.len() implies liberal_match(
                #[trigger] grants@[j].funds@,
            ) * b <= u128::MAX by {
                assert(fundss[j] == grants@[j].funds@);
                lemma_liberal_total_element_le(fundss, j);
                lemma_liberal_match_nonneg(grants@[j].funds@);
            }
        }
        return Err(ContractError::CLRConstrainRequired);
    }
    let ghost matched_view = matched@;
    let constrained = match constrain_by_budget(matched, total, b) {
        Ok(c) => c,
        Err(e) => {
            proof {
                let i = choose|i: int|
                    0 <= i < matched_view.len() && (#[trigger] matched_view[i]).grant as int * b
                        > u128::MAX;
                assert(liberal_match(grants@[i].funds@) * b > u128::MAX);
            }
            return Err(e);
        },
    };
    let mut csum: u128 = 0;
    let mut i2: usize = 0;
    proof {
        assert(fundss.subrange(0, 0) =~= Seq::<Seq<u128>>::empty());
    }
    while i2 < constrained.len()
        invariant
            budget == Some(b),
            i2 <= constrained@.len(),
            constrained@.len() == grants@.len(),
            fundss == fundss_of(grants@),
            total > 0,
            total as int == liberal_total(fundss),
            csum as int == scaled_sum(fundss.subrange(0, i2 as int), total as int, b as int),
            csum <= b,
            forall|j: int|
                0 <= j < grants@.len() ==> (#[trigger] constrained@[j]).grant as int
                    == scaled_match(liberal_match(grants@[j].funds@), total as int, b as int),
        decreases constrained@.len() - i2,
    {
        proof {
            assert(fundss[i2 as int] == grants@[i2 as int].funds@);
            lemma_scaled_sum_prefix(fundss, total as int, b as int, i2 as int);
            lemma_scaled_sum_le(fundss, total as int, b as int, i2 + 1);
            lemma_liberal_total_prefix_le(fundss, i2 + 1);
            lemma_liberal_total_nonneg(fundss.subrange(0, i2 + 1));
            lemma_mul_inequality(
                liberal_total(fundss.subrange(0, i2 + 1)),
                total as int,
                b as int,
            );
            lemma_div_is_ordered(
                liberal_total(fundss.subrange(0, i2 + 1)) * b,
                total as int * b,
                total as int,
            );
            lemma_div_multiples_vanish(b as int, total as int);
            lemma_scaled_sum_nonneg(fundss.subrange(0, i2 as int), total as int, b as int);
        }
        csum = csum + constrained[i2].grant;
        i2 = i2 + 1;
    }
    proof {
        assert(fundss.subrange(0, constrained@.len() as int) =~= fundss);
        lemma_sum_grants_is_scaled_sum(constrained@, fundss, total as int, b as int);
        assert forall|j: int| 0 <= j < grants@.len() implies liberal_match(
            #[trigger] grants@[j].funds@,
        ) * b <= u128::MAX by {
            assert(matched_view[j].grant as int == liberal_match(grants@[j].funds@));
            assert(matched_view[j].grant as int * b <= u128::MAX);
        }
        assert(!clr_overflows(grants@, b));
    }
    let leftover = b - csum;
    Ok((constrained, leftover))
}

/// Determinism: the engine's successful outcome is a function of its inputs
/// alone. Any two results that satisfy the engine's contract for the same
/// grants and the same budget agree on every match, every recipient, every
/// carried total, and the leftover.
pub proof fn lemma_clr_deterministic(
    grants: Seq<RawGrant>,
    budget: u128,
    m1: Seq<CalculatedGrant>,
    l1: u128,
    m2: Seq<CalculatedGrant>,
    l2: u128,
)
    requires
        clr_ok(grants, budget, m1, l1),
        clr_ok(grants, budget, m2, l2),
    ensures
        l1 == l2,
        m1.len() == m2.len(),
        forall|i: int|
            0 <= i < m1.len() ==> (#[trigger] m1[i]).addr@ == m2[i].addr@ && m1[i].grant
                == m2[i].grant && m1[i].collected_vote_funds == m2[i].collected_vote_funds,
{
    let total = liberal_total(fundss_of(grants));
    assert forall|i: int| 0 <= i < m1.len() implies (#[trigger] m1[i]).grant == m2[i].grant by {
        assert(m1[i].grant as int == scaled_match(liberal_match(grants[i].funds@), total, budget as int));
        assert(m2[i].grant as int == scaled_match(liberal_match(grants[i].funds@), total, budget as int));
    }
    lemma_sum_grants_pointwise_eq(m1, m2);
}

/// Two grant sequences with equal grants sum to the same value.
proof fn lemma_sum_grants_pointwise_eq(m1: Seq<CalculatedGrant>, m2: Seq<CalculatedGrant>)
    requires
        m1.len() == m2.len(),
        forall|i: int| 0 <= i < m1.len() ==> (#[trigger] m1[i]).grant == m2[i].grant,
    ensures
        sum_grants(m1) == sum_grants(m2),
    decreases m1.len(),
{
    if m1.len() > 0 {
        assert(forall|i: int|
            0 <= i < m1.drop_last().len() ==> (#[trigger] m1.drop_last()[i]) == m1[i]);
        assert(forall|i: int|
            0 <= i < m2.drop_last().len() ==> (#[trigger] m2.drop_last()[i]) == m2[i]);
        lemma_sum_grants_pointwise_eq(m1.drop_last(), m2.drop_last());
    }
}

/// Replacing one contribution changes the sum of roots by the difference of
/// the roots.
proof fn lemma_sum_sqrts_update(funds: Seq<u128>, i: int, v: u128)
    requires
        0 <= i < funds.len(),
    ensures
        sum_sqrts(funds.update(i, v)) == sum_sqrts(funds) - sqrt_floor(funds[i] as nat)
            + sqrt_floor(v as nat),
    decreases funds.len(),
{
    if i == funds.len() - 1 {
        assert(funds.update(i, v).drop_last() =~= funds.drop_last());
        assert(funds.update(i, v).last() == v);
    } else {
        assert(funds.update(i, v).drop_last() =~= funds.drop_last().update(i, v));
        lemma_sum_sqrts_update(funds.drop_last(), i, v);
        assert(funds.update(i, v).last() == funds.last());
        assert(funds.drop_last()[i] == funds[i]);
    }
}

/// Appending a contribution adds its root to the sum of roots.
proof fn lemma_sum_sqrts_push(funds: Seq<u128>, v: u128)
    ensures
        sum_sqrts(funds.push(v)) == sum_sqrts(funds) + sqrt_floor(v as nat),
{
    assert(funds.push(v).drop_last() =~= funds);
    assert(funds.push(v).last() == v);
}

/// Matching monotonicity: for the same total raised, broader support never
/// scores lower. Splitting one contribution into two contributions that sum
/// to it never decreases a proposal's liberal match.
pub proof fn lemma_split_never_decreases_match(funds: Seq<u128>, i: int, x: u128, y: u128)
    requires
        0 <= i < funds.len(),
        x as int + y as int == funds[i] as int,
    ensures
        liberal_match(funds.update(i, x).push(y)) >= liberal_match(funds),
{
    lemma_sum_sqrts_update(funds, i, x);
    lemma_sum_sqrts_push(funds.update(i, x), y);
    lemma_sqrt_floor_of_sum(x as nat, y as nat);
    lemma_sum_sqrts_nonneg(funds);
    lemma_square_monotone(sum_sqrts(funds), sum_sqrts(funds.update(i, x).push(y)));
}

} // verus!
