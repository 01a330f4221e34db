//! Exact, denomination-aware money values.
//!
//! A `GoldAmount` is a single integer count of the smallest unit (copper);
//! 1 gold = 100 copper, 1 electrum = 50 copper, 1 silver = 10 copper.
//! All arithmetic saturates at the `i64` boundaries instead of overflowing.

use vstd::prelude::*;
use vstd::string::*;
use vstd::arithmetic::div_mod::{lemma_fundamental_div_mod, lemma_mod_mod};

use crate::decimal::{dec_int, i64_string};

verus! {

pub type Gold = i64;
pub type Silver = i64;
pub type Copper = i64;

/// Clamps a mathematical integer into the range of `i64`.
pub open spec fn sat_i64(x: int) -> int {
    if x > i64::MAX as int {
        i64::MAX as int
    } else if x < i64::MIN as int {
        i64::MIN as int
    } else {
        x
    }
}

pub open spec fn abs_of(c: int) -> int {
    if c < 0 {
        -c
    } else {
        c
    }
}

pub open spec fn sign_of(c: int) -> int {
    if c < 0 {
        -1
    } else {
        1
    }
}

/// Whole gold pieces in a copper total, rounded towards zero.
pub open spec fn gold_part(c: int) -> int {
    sign_of(c) * (abs_of(c) / 100)
}

/// Whole silver pieces left after removing the gold pieces.
pub open spec fn silver_part(c: int) -> int {
    sign_of(c) * ((abs_of(c) % 100) / 10)
}

/// Copper pieces left after removing gold and silver pieces.
pub open spec fn copper_part(c: int) -> int {
    sign_of(c) * (abs_of(c) % 10)
}

/// Saturating addition of two copper totals.
pub open spec fn spec_add(a: int, b: int) -> int {
    sat_i64(a + b)
}

/// Saturating multiplication of a copper total by a scalar.
pub open spec fn spec_mul(a: int, b: int) -> int {
    sat_i64(a * b)
}

/// Saturating negation of a copper total.
pub open spec fn spec_neg(a: int) -> int {
    sat_i64(-a)
}

/// Subtraction is defined as addition of the negation.
pub open spec fn spec_sub(a: int, b: int) -> int {
    spec_add(a, spec_neg(b))
}

fn sat_narrow(x: i128) -> (r: i64)
    requires
        -0x8000_0000_0000_0000_0000_0000_0000_0000_i128 as int <= x as int,
    ensures
        r as int == sat_i64(x as int),
{
    if x > i64::MAX as i128 {
        i64::MAX
    } else if x < i64::MIN as i128 {
        i64::MIN
    } else {
        x as i64
    }
}

/// A quantity of money, held as a copper count.
#[derive(Debug, Clone, Copy, PartialEq, Eq, Structural)]
pub struct GoldAmount {
    copper: i64,
}

impl GoldAmount {
    /// The underlying copper count.
    pub closed spec fn total_copper(self) -> int {
        self.copper as int
    }

    pub fn from_copper(copper: i64) -> (r: Self)
        ensures
            r.total_copper() == copper as int,
    {
        Self { copper }
    }

    pub fn from_silver(silver: i64) -> (r: Self)
        ensures
            r.total_copper() == spec_mul(silver as int, 10),
    {
        Self { copper: sat_narrow(silver as i128 * 10) }
    }

    pub fn from_electrum(electrum: i64) -> (r: Self)
        ensures
            r.total_copper() == spec_mul(electrum as int, 50),
    {
        Self { copper: sat_narrow(electrum as i128 * 50) }
    }

    pub fn from_gold(gold: i64) -> (r: Self)
        ensures
            r.total_copper() == spec_mul(gold as int, 100),
    {
        Self { copper: sat_narrow(gold as i128 * 100) }
    }

    fn magnitude(&self) -> (m: u64)
        ensures
            m as int == abs_of(self.total_copper()),
    {
        if self.copper < 0 {
            (-(self.copper as i128)) as u64
        } else {
            self.copper as u64
        }
    }

    pub fn gold(&self) -> (g: Gold)
        ensures
            g as int == gold_part(self.total_copper()),
    {
        let q = self.magnitude() / 100;
        if self.copper < 0 {
            -(q as i64)
        } else {
            q as i64
        }
    }

    pub fn silver(&self) -> (s: Silver)
        ensures
            s as int == silver_part(self.total_copper()),
    {
        let q = (self.magnitude() % 100) / 10;
        if self.copper < 0 {
            -(q as i64)
        } else {
            q as i64
        }
    }

    pub fn copper(&self) -> (c: Copper)
        ensures
            c as int == copper_part(self.total_copper()),
    {
        let q = self.magnitude() % 10;
        if self.copper < 0 {
            -(q as i64)
        } else {
            q as i64
        }
    }

    /// The (gold, silver, copper) decomposition of this amount.
    pub fn as_tuple(&self) -> (t: (Gold, Silver, Copper))
        ensures
            t.0 as int == gold_part(self.total_copper()),
            t.1 as int == silver_part(self.total_copper()),
            t.2 as int == copper_part(self.total_copper()),
    {
        (self.gold(), self.silver(), self.copper())
    }

    pub fn gold_str(&self) -> (r: String)
        ensures
            r@ == gold_str_of(self.total_copper()),
    {
        i64_string(self.gold()).concat(" gp")
    }

    pub fn silver_str(&self) -> (r: String)
        ensures
            r@ == silver_str_of(self.total_copper()),
    {
        i64_string(self.silver()).concat(" sp")
    }

    pub fn copper_str(&self) -> (r: String)
        ensures
            r@ == copper_str_of(self.total_copper()),
    {
        i64_string(self.copper()).concat(" cp")
    }

    /// Renders the amount, suppressing zero-valued denominations but always
    /// showing at least the gold denomination ("0 gp" for a zero amount).
    pub fn display_string(&self) -> (r: String)
        ensures
            r@ == display_of(self.total_copper()),
    {
        let g = self.gold();
        let s = self.silver();
        let c = self.copper();
        let r = if s == 0 && c == 0 {
            self.gold_str()
        } else if g == 0 && s == 0 {
            self.copper_str()
        } else if g == 0 && c == 0 {
            self.silver_str()
        } else if g == 0 {
            self.silver_str().concat(" ").concat(self.copper_str().as_str())
        } else if c == 0 {
            self.gold_str().concat(" ").concat(self.silver_str().as_str())
        } else if s == 0 {
            self.gold_str().concat(" ").concat(self.copper_str().as_str())
        } else {
            self.gold_str().concat(", ").concat(self.silver_str().as_str()).concat(
                " ",
            ).concat(self.copper_str().as_str())
        };
        proof {
            assert(r@ =~= display_of(self.total_copper()));
        }
        r
    }

    /// Saturating addition of two amounts.
    pub fn add(self, rhs: Self) -> (r: Self)
        ensures
            r.total_copper() == spec_add(self.total_copper(), rhs.total_copper()),
    {
        Self { copper: sat_narrow(self.copper as i128 + rhs.copper as i128) }
    }

    /// Saturating multiplication by a scalar.
    pub fn mul(self, rhs: i64) -> (r: Self)
        ensures
            r.total_copper() == spec_mul(self.total_copper(), rhs as int),
    {
        proof {
            let a = self.copper as int;
            let b = rhs as int;
            assert((i128::MIN as int) <= a * b <= (i128::MAX as int)) by (nonlinear_arith)
                requires
                    -0x8000_0000_0000_0000 <= a <= 0x7fff_ffff_ffff_ffff,
                    -0x8000_0000_0000_0000 <= b <= 0x7fff_ffff_ffff_ffff,
            ;
        }
        Self { copper: sat_narrow(self.copper as i128 * rhs as i128) }
    }

    /// Saturating negation.
    pub fn neg(self) -> (r: Self)
        ensures
            r.total_copper() == spec_neg(self.total_copper()),
    {
        Self { copper: sat_narrow(-(self.copper as i128)) }
    }

    /// Subtraction, defined as addition of the negation.
    pub fn sub(self, rhs: Self) -> (r: Self)
        ensures
            r.total_copper() == spec_sub(self.total_copper(), rhs.total_copper()),
            rhs.total_copper() != i64::MIN as int ==> r.total_copper() == sat_i64(
                self.total_copper() - rhs.total_copper(),
            ),
    {
        self.add(rhs.neg())
    }
}

/// Conversion of plain integers into money of a fixed denomination.
pub trait AsGoldCurrency {
    spec fn spec_value(&self) -> int;

    fn gold(&self) -> (r: GoldAmount)
        ensures
            r.total_copper() == spec_mul(self.spec_value(), 100),
    ;

    fn silver(&self) -> (r: GoldAmount)
        ensures
            r.total_copper() == spec_mul(self.spec_value(), 10),
    ;

    fn copper(&self) -> (r: GoldAmount)
        ensures
            r.total_copper() == sat_i64(self.spec_value()),
    ;
}

impl AsGoldCurrency for i64 {
    open spec fn spec_value(&self) -> int {
        *self as int
    }

    fn gold(&self) -> (r: GoldAmount) {
        GoldAmount::from_gold(*self)
    }

    fn silver(&self) -> (r: GoldAmount) {
        GoldAmount::from_silver(*self)
    }

    fn copper(&self) -> (r: GoldAmount) {
        GoldAmount::from_copper(*self)
    }
}

pub open spec fn gold_str_of(c: int) -> Seq<char> {
    dec_int(gold_part(c)) + " gp"@
}

pub open spec fn silver_str_of(c: int) -> Seq<char> {
    dec_int(silver_part(c)) + " sp"@
}

pub open spec fn copper_str_of(c: int) -> Seq<char> {
    dec_int(copper_part(c)) + " cp"@
}

/// What `display_string` renders for a given copper total.
pub open spec fn display_of(c: int) -> Seq<char> {
    let g = gold_part(c);
    let s = silver_part(c);
    let cp = copper_part(c);
    if s == 0 && cp == 0 {
        gold_str_of(c)
    } else if g == 0 && s == 0 {
        copper_str_of(c)
    } else if g == 0 && cp == 0 {
        silver_str_of(c)
    } else if g == 0 {
        silver_str_of(c) + " "@ + copper_str_of(c)
    } else if cp == 0 {
        gold_str_of(c) + " "@ + silver_str_of(c)
    } else if s == 0 {
        gold_str_of(c) + " "@ + copper_str_of(c)
    } else {
        gold_str_of(c) + ", "@ + silver_str_of(c) + " "@ + copper_str_of(c)
    }
}

/// Decomposing a copper total into (gold, silver, copper) and recombining
/// through the denomination ratios is exact: no value is lost or invented.
pub proof fn lemma_decompose_recombine(c: int)
    ensures
        gold_part(c) * 100 + silver_part(c) * 10 + copper_part(c) == c,
{
    let m = abs_of(c);
    lemma_fundamental_div_mod(m, 100);
    lemma_fundamental_div_mod(m % 100, 10);
    lemma_mod_mod(m, 10, 10);
}

/// Adding the negation of a value yields the zero amount, for every copper
/// total whose negation does not saturate.
pub proof fn lemma_add_neg_zero(c: int)
    requires
        (i64::MIN as int) < c,
        c <= (i64::MAX as int),
    ensures
        spec_add(c, spec_neg(c)) == 0,
{
}

/// Subtraction agrees with addition of the negation, for all copper totals.
pub proof fn lemma_sub_is_add_neg(a: int, b: int)
    ensures
        spec_sub(a, b) == spec_add(a, spec_neg(b)),
{
}

/// Saturating addition of copper totals is commutative.
pub proof fn lemma_add_commutes(a: int, b: int)
    ensures
        spec_add(a, b) == spec_add(b, a),
{
}

} // verus!
