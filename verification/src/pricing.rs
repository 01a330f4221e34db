//! The pricing rule: a fixed table from rarity tier to dice formula, and
//! the roll that attaches a price in whole gold pieces to an offered item.

use vstd::prelude::*;
use vstd::string::*;

use crate::dice::{lemma_render_parses, render_expr, DiceExpr, PricingError};
use crate::gold::GoldAmount;
use crate::item::{ItemType, Rarity};
use crate::random::RandomSource;

verus! {

/// The price formula for each rarity tier; total over the closed tier set.
pub open spec fn cost_formula_of(r: Rarity) -> Seq<char> {
    match r {
        Rarity::Common => "(1d6 + 1) * 10"@,
        Rarity::Uncommon => "1d6 * 100"@,
        Rarity::Rare => "2d10 * 1000"@,
        Rarity::VeryRare => "(1d4 + 1) * 10000"@,
        Rarity::Legendary => "2d6 * 25000"@,
        Rarity::Artifact => "2d6 * 25000"@,
    }
}

/// The same table, as parsed expressions.
pub open spec fn spec_price_expr(r: Rarity) -> DiceExpr {
    match r {
        Rarity::Common => DiceExpr { count: 1, sides: 6, bonus: Some(1), multiplier: Some(10) },
        Rarity::Uncommon => DiceExpr { count: 1, sides: 6, bonus: None, multiplier: Some(100) },
        Rarity::Rare => DiceExpr { count: 2, sides: 10, bonus: None, multiplier: Some(1000) },
        Rarity::VeryRare => DiceExpr {
            count: 1,
            sides: 4,
            bonus: Some(1),
            multiplier: Some(10000),
        },
        Rarity::Legendary => DiceExpr { count: 2, sides: 6, bonus: None, multiplier: Some(25000) },
        Rarity::Artifact => DiceExpr { count: 2, sides: 6, bonus: None, multiplier: Some(25000) },
    }
}

/// Every tier's expression is well-formed and its range is small.
pub proof fn lemma_price_expr_bounds(r: Rarity)
    ensures
        spec_price_expr(r).wf(),
        spec_price_expr(r).spec_max_value() <= 300000,
        spec_price_expr(r).spec_min_value() >= 0,
{
    match r {
        Rarity::Common => {
            assert(spec_price_expr(r).spec_max_value() == (1 * 6 + 1) * 10);
            assert(spec_price_expr(r).spec_min_value() == (1 + 1) * 10);
        },
        Rarity::Uncommon => {
            assert(spec_price_expr(r).spec_max_value() == (1 * 6 + 0) * 100);
            assert(spec_price_expr(r).spec_min_value() == (1 + 0) * 100);
        },
        Rarity::Rare => {
            assert(spec_price_expr(r).spec_max_value() == (2 * 10 + 0) * 1000);
            assert(spec_price_expr(r).spec_min_value() == (2 + 0) * 1000);
        },
        Rarity::VeryRare => {
            assert(spec_price_expr(r).spec_max_value() == (1 * 4 + 1) * 10000);
            assert(spec_price_expr(r).spec_min_value() == (1 + 1) * 10000);
        },
        Rarity::Legendary => {
            assert(spec_price_expr(r).spec_max_value() == (2 * 6 + 0) * 25000);
            assert(spec_price_expr(r).spec_min_value() == (2 + 0) * 25000);
        },
        Rarity::Artifact => {
            assert(spec_price_expr(r).spec_max_value() == (2 * 6 + 0) * 25000);
            assert(spec_price_expr(r).spec_min_value() == (2 + 0) * 25000);
        },
    }
}

/// The two views of the price table agree: each tier's formula string is
/// exactly the rendering of its expression.
#[verifier::rlimit(50)]
pub proof fn lemma_price_table_consistent(r: Rarity)
    ensures
        cost_formula_of(r) == render_expr(spec_price_expr(r)),
        spec_price_expr(r).wf(),
{
    reveal_with_fuel(crate::decimal::dec_digits, 7);
    reveal_strlit("(1d6 + 1) * 10");
    reveal_strlit("1d6 * 100");
    reveal_strlit("2d10 * 1000");
    reveal_strlit("(1d4 + 1) * 10000");
    reveal_strlit("2d6 * 25000");
    reveal_strlit("d");
    reveal_strlit("(");
    reveal_strlit(" * ");
    reveal_strlit(" + ");
    reveal_strlit(") * ");
    match r {
        Rarity::Common => {
            assert(cost_formula_of(r) =~= render_expr(spec_price_expr(r)));
        },
        Rarity::Uncommon => {
            assert(cost_formula_of(r) =~= render_expr(spec_price_expr(r)));
        },
        Rarity::Rare => {
            assert(cost_formula_of(r) =~= render_expr(spec_price_expr(r)));
        },
        Rarity::VeryRare => {
            assert(cost_formula_of(r) =~= render_expr(spec_price_expr(r)));
        },
        Rarity::Legendary => {
            assert(cost_formula_of(r) =~= render_expr(spec_price_expr(r)));
        },
        Rarity::Artifact => {
            assert(cost_formula_of(r) =~= render_expr(spec_price_expr(r)));
        },
    }
}

/// The price formula for a rarity tier.
pub fn price_expression(rarity: Rarity) -> (r: String)
    ensures
        r@ == cost_formula_of(rarity),
{
    match rarity {
        Rarity::Common => String::from_str("(1d6 + 1) * 10"),
        Rarity::Uncommon => String::from_str("1d6 * 100"),
        Rarity::Rare => String::from_str("2d10 * 1000"),
        Rarity::VeryRare => String::from_str("(1d4 + 1) * 10000"),
        Rarity::Legendary => String::from_str("2d6 * 25000"),
        Rarity::Artifact => String::from_str("2d6 * 25000"),
    }
}

/// The price formula for an item, driven by its rarity tier.
pub fn xanathar_magic_item_cost(item: &ItemType) -> (r: String)
    ensures
        r@ == cost_formula_of(item.rarity),
{
    price_expression(item.rarity)
}

/// Rolls a price for a rarity tier: parses the tier's formula, evaluates
/// it, and converts the value into whole gold pieces. The result always
/// lies within the formula's theoretical min/max range, and rolling a
/// price for a table formula never fails.
pub fn roll_price(rarity: Rarity, rng: &mut RandomSource) -> (r: Result<GoldAmount, PricingError>)
    ensures
        r matches Ok(c) ==> spec_price_expr(rarity).spec_min_value() * 100 <= c.total_copper()
            <= spec_price_expr(rarity).spec_max_value() * 100,
        r is Ok,
{
    let formula = price_expression(rarity);
    proof {
        lemma_price_table_consistent(rarity);
        lemma_price_expr_bounds(rarity);
        lemma_render_parses(spec_price_expr(rarity));
    }
    let expr = match DiceExpr::parse(formula.as_str()) {
        Ok(e) => e,
        Err(_) => {
            proof {
                assert(false);
            }
            return Err(PricingError::Malformed);
        },
    };
    let value = match expr.eval(rng) {
        Ok(v) => v,
        Err(_) => {
            proof {
                assert(false);
            }
            return Err(PricingError::Unevaluable);
        },
    };
    Ok(GoldAmount::from_gold(value as i64))
}

} // verus!
