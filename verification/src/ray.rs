//! Exact ray parameters: fractions of grid steps, and the two infinities
//! that stand for a ray running parallel to a pair of faces.

use vstd::prelude::*;

verus! {

/// The ray parameter `num / den` at which a ray meets a face.
#[derive(Clone, Copy, Debug, PartialEq, Eq, Structural)]
pub struct HitTime {
    pub num: i64,
    pub den: i64,
}

/// A ray parameter, or one of the two infinities.
#[derive(Clone, Copy, Debug, PartialEq, Eq, Structural)]
pub enum Bound {
    NegInf,
    Finite(HitTime),
    PosInf,
}

proof fn lemma_product_fits(a: i64, b: i64)
    by (nonlinear_arith)
    ensures
        -0x4000_0000_0000_0000_0000_0000_0000_0000 <= a * b
            <= 0x4000_0000_0000_0000_0000_0000_0000_0000,
{
}

/// The sign of a product with a positive factor is the sign of the other factor.
pub proof fn lemma_product_sign(a: int, b: int)
    by (nonlinear_arith)
    requires
        b > 0,
    ensures
        a > 0 ==> a * b > 0,
        a < 0 ==> a * b < 0,
        a == 0 ==> a * b == 0,
{
}

proof fn lemma_cross_order(an: int, ad: int, bn: int, bd: int, cn: int, cd: int)
    by (nonlinear_arith)
    requires
        ad > 0,
        bd > 0,
        cd > 0,
        an * bd < bn * ad,
        bn * cd < cn * bd,
    ensures
        an * cd < cn * ad,
{
    assert((an * bd) * cd < (bn * ad) * cd);
    assert((bn * cd) * ad < (cn * bd) * ad);
    assert((an * cd) * bd < (cn * ad) * bd);
}

/// Of three fractions with positive denominators, the first is earlier
/// than the third where it is earlier than the second and the second
/// earlier than the third.
pub proof fn lemma_earlier_transitive(a: HitTime, b: HitTime, c: HitTime)
    requires
        a.wf(),
        b.wf(),
        c.wf(),
        a.earlier(b),
        b.earlier(c),
    ensures
        a.earlier(c),
{
    lemma_cross_order(
        a.num as int,
        a.den as int,
        b.num as int,
        b.den as int,
        c.num as int,
        c.den as int,
    );
}

impl HitTime {
    /// The denominator is positive.
    pub open spec fn wf(self) -> bool {
        self.den > 0
    }

    /// `self` is the smaller fraction.
    pub open spec fn earlier(self, other: HitTime) -> bool {
        self.num * other.den < other.num * self.den
    }

    /// Whether `self` is strictly the smaller fraction, compared exactly.
    pub fn before(&self, other: &HitTime) -> (yes: bool)
        ensures
            yes == self.earlier(*other),
    {
        proof {
            lemma_product_fits(self.num, other.den);
            lemma_product_fits(other.num, self.den);
        }
        let left: i128 = (self.num as i128) * (other.den as i128);
        let right: i128 = (other.num as i128) * (self.den as i128);
        left < right
    }
}

impl Bound {
    /// Every fraction has a positive denominator.
    pub open spec fn wf(self) -> bool {
        match self {
            Bound::Finite(t) => t.wf(),
            _ => true,
        }
    }

    /// `self` is strictly less than `other`; an infinity is not below itself.
    pub open spec fn below(self, other: Bound) -> bool {
        match (self, other) {
            (Bound::Finite(a), Bound::Finite(b)) => a.earlier(b),
            (Bound::NegInf, Bound::NegInf) => false,
            (Bound::NegInf, _) => true,
            (Bound::Finite(_), Bound::PosInf) => true,
            _ => false,
        }
    }

    /// `self` is greater than zero.
    pub open spec fn positive(self) -> bool {
        match self {
            Bound::NegInf => false,
            Bound::Finite(t) => t.num > 0,
            Bound::PosInf => true,
        }
    }

    /// `self` is less than zero.
    pub open spec fn negative(self) -> bool {
        match self {
            Bound::NegInf => true,
            Bound::Finite(t) => t.num < 0,
            Bound::PosInf => false,
        }
    }

    /// The smaller of two bounds; the first where neither is smaller.
    pub open spec fn sooner(self, other: Bound) -> Bound {
        if other.below(self) {
            other
        } else {
            self
        }
    }

    /// The greater of two bounds; the first where neither is greater.
    pub open spec fn later(self, other: Bound) -> Bound {
        if self.below(other) {
            other
        } else {
            self
        }
    }

    /// Whether `self` is strictly less than `other`.
    pub fn lt(&self, other: &Bound) -> (yes: bool)
        ensures
            yes == self.below(*other),
    {
        match (self, other) {
            (Bound::Finite(a), Bound::Finite(b)) => a.before(b),
            (Bound::NegInf, Bound::NegInf) => false,
            (Bound::NegInf, _) => true,
            (Bound::Finite(_), Bound::PosInf) => true,
            _ => false,
        }
    }

    /// The smaller of two bounds.
    pub fn min_with(self, other: Bound) -> (least: Bound)
        ensures
            least == self.sooner(other),
    {
        if other.lt(&self) {
            other
        } else {
            self
        }
    }

    /// The greater of two bounds.
    pub fn max_with(self, other: Bound) -> (most: Bound)
        ensures
            most == self.later(other),
    {
        if self.lt(&other) {
            other
        } else {
            self
        }
    }
}

/// The smaller of two bounds is not positive where one of them is not.
pub proof fn lemma_sooner_not_positive(a: Bound, b: Bound)
    requires
        a.wf(),
        b.wf(),
        !a.positive() || !b.positive(),
    ensures
        !a.sooner(b).positive(),
{
    match (a, b) {
        (Bound::Finite(s), Bound::Finite(t)) => {
            lemma_product_sign(s.num as int, t.den as int);
            lemma_product_sign(t.num as int, s.den as int);
        },
        _ => {},
    }
}

/// The greater of two negative bounds is negative.
pub proof fn lemma_later_negative(a: Bound, b: Bound)
    requires
        a.negative(),
        b.negative(),
    ensures
        a.later(b).negative(),
{
}

/// Nothing that lies below a bound that is not positive is positive.
pub proof fn lemma_below_not_positive(a: Bound, b: Bound)
    requires
        a.wf(),
        b.wf(),
        a.below(b),
        !b.positive(),
    ensures
        !a.positive(),
{
    match (a, b) {
        (Bound::Finite(s), Bound::Finite(t)) => {
            lemma_product_sign(s.num as int, t.den as int);
            lemma_product_sign(t.num as int, s.den as int);
        },
        _ => {},
    }
}

proof fn lemma_cross_order_weak(an: int, ad: int, bn: int, bd: int, cn: int, cd: int)
    by (nonlinear_arith)
    requires
        ad > 0,
        bd > 0,
        cd > 0,
        an * bd < bn * ad,
        bn * cd <= cn * bd,
    ensures
        an * cd < cn * ad,
{
    assert((an * bd) * cd < (bn * ad) * cd);
    assert((bn * cd) * ad <= (cn * bd) * ad);
    assert((an * cd) * bd < (cn * ad) * bd);
}

proof fn lemma_cross_order_weak_first(an: int, ad: int, bn: int, bd: int, cn: int, cd: int)
    by (nonlinear_arith)
    requires
        ad > 0,
        bd > 0,
        cd > 0,
        an * bd <= bn * ad,
        bn * cd < cn * bd,
    ensures
        an * cd < cn * ad,
{
    assert((an * bd) * cd <= (bn * ad) * cd);
    assert((bn * cd) * ad < (cn * bd) * ad);
    assert((an * cd) * bd < (cn * ad) * bd);
}

/// What lies below a bound lies below everything that the bound is not above.
pub proof fn lemma_below_then_not_above(a: Bound, b: Bound, c: Bound)
    requires
        a.wf(),
        b.wf(),
        c.wf(),
        a.below(b),
        !c.below(b),
    ensures
        a.below(c),
{
    match (a, b, c) {
        (Bound::Finite(s), Bound::Finite(t), Bound::Finite(u)) => {
            lemma_cross_order_weak(
                s.num as int,
                s.den as int,
                t.num as int,
                t.den as int,
                u.num as int,
                u.den as int,
            );
        },
        _ => {},
    }
}

/// What is not above a bound lies below everything that the bound lies below.
pub proof fn lemma_not_above_then_below(a: Bound, b: Bound, c: Bound)
    requires
        a.wf(),
        b.wf(),
        c.wf(),
        !b.below(a),
        b.below(c),
    ensures
        a.below(c),
{
    match (a, b, c) {
        (Bound::Finite(s), Bound::Finite(t), Bound::Finite(u)) => {
            lemma_cross_order_weak_first(
                s.num as int,
                s.den as int,
                t.num as int,
                t.den as int,
                u.num as int,
                u.den as int,
            );
        },
        _ => {},
    }
}

/// The greatest of three bounds is one of them, and none of them is above it.
pub proof fn lemma_latest(a: Bound, b: Bound, c: Bound)
    requires
        a.wf(),
        b.wf(),
        c.wf(),
    ensures
        ({
            let most = a.later(b).later(c);
            &&& most == a || most == b || most == c
            &&& !most.below(a)
            &&& !most.below(b)
            &&& !most.below(c)
        }),
{
    let first = a.later(b);
    let most = first.later(c);
    if first.below(c) {
        if c.below(a) {
            lemma_below_then_not_above(c, a, first);
        }
        if c.below(b) {
            lemma_below_then_not_above(c, b, first);
        }
    }
}

/// The least of three bounds is one of them, and none of them is below it.
pub proof fn lemma_soonest(a: Bound, b: Bound, c: Bound)
    requires
        a.wf(),
        b.wf(),
        c.wf(),
    ensures
        ({
            let least = a.sooner(b).sooner(c);
            &&& least == a || least == b || least == c
            &&& !a.below(least)
            &&& !b.below(least)
            &&& !c.below(least)
        }),
{
    let first = a.sooner(b);
    let least = first.sooner(c);
    if c.below(first) {
        if a.below(c) {
            lemma_not_above_then_below(first, a, c);
        }
        if b.below(c) {
            lemma_not_above_then_below(first, b, c);
        }
    }
}

} // verus!
