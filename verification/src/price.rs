//! USD amounts held as IEEE 754 binary64 bit patterns.
use vstd::arithmetic::power2::{
    lemma_pow2_pos, lemma_pow2_strictly_increases, lemma_pow2_unfold, pow2,
};
use vstd::prelude::*;

verus! {

/// The bit pattern of positive infinity: the first one above every finite positive amount.
pub const INFINITY_BITS: u64 = 0x7ff0_0000_0000_0000;

/// The number of patterns that share one exponent.
pub const MANTISSA_SPAN: u64 = 0x0010_0000_0000_0000;

/// A USD amount, as the bit pattern of a binary64 number.
///
/// Sign, exponent and mantissa stand in this order from the highest bit down, so the finite
/// positive amounts are the patterns between zero and infinity, and a greater amount has a
/// greater pattern.
#[derive(Clone, Copy, Debug, PartialEq, Eq, Structural)]
pub struct Price {
    pub bits: u64,
}

impl Price {
    /// Whether the amount is finite and positive.
    pub open spec fn usable(self) -> bool {
        0 < self.bits < INFINITY_BITS
    }

    /// A usable amount, counted in units of the smallest positive one.
    pub open spec fn units(self) -> nat {
        let exponent = self.bits as nat / MANTISSA_SPAN as nat;
        let mantissa = self.bits as nat % MANTISSA_SPAN as nat;
        if exponent == 0 {
            mantissa
        } else {
            (MANTISSA_SPAN as nat + mantissa) * pow2((exponent - 1) as nat)
        }
    }

    /// Whether the amount is finite and positive.
    pub fn is_usable(&self) -> (usable: bool)
        ensures
            usable == self.usable(),
    {
        0 < self.bits && self.bits < INFINITY_BITS
    }
}

/// Usable amounts compare as their bit patterns do.
pub proof fn law_patterns_order_amounts(a: Price, b: Price)
    requires
        a.usable(),
        b.usable(),
    ensures
        a.bits < b.bits <==> a.units() < b.units(),
        a.bits == b.bits <==> a.units() == b.units(),
{
    if a.bits < b.bits {
        lemma_units_increase(a, b);
    }
    if b.bits < a.bits {
        lemma_units_increase(b, a);
    }
}

proof fn lemma_units_increase(a: Price, b: Price)
    requires
        a.bits < b.bits,
    ensures
        a.units() < b.units(),
{
    let span = MANTISSA_SPAN as nat;
    let ea = a.bits as nat / span;
    let eb = b.bits as nat / span;
    let ma = a.bits as nat % span;
    let mb = b.bits as nat % span;
    if ea == eb {
        assert(ma < mb);
        if ea > 0 {
            let scale = pow2((ea - 1) as nat);
            lemma_pow2_pos((ea - 1) as nat);
            assert((span + ma) * scale < (span + mb) * scale) by (nonlinear_arith)
                requires
                    ma < mb,
                    scale > 0,
            ;
        }
    } else {
        assert(ea < eb);
        let low = pow2((eb - 1) as nat);
        lemma_pow2_pos((eb - 1) as nat);
        assert((span + mb) * low >= span * low) by (nonlinear_arith)
            requires
                mb >= 0,
        ;
        if ea == 0 {
            assert(span * low >= span) by (nonlinear_arith)
                requires
                    low > 0,
            ;
        } else {
            let scale = pow2((ea - 1) as nat);
            lemma_pow2_pos((ea - 1) as nat);
            lemma_pow2_unfold(ea);
            assert(pow2(ea) == 2 * scale);
            assert((span + ma) * scale < span * (2 * scale)) by (nonlinear_arith)
                requires
                    ma < span,
                    scale > 0,
            ;
            if ea < eb - 1 {
                lemma_pow2_strictly_increases(ea, (eb - 1) as nat);
            }
            assert(span * pow2(ea) <= span * low) by (nonlinear_arith)
                requires
                    pow2(ea) <= low,
            ;
        }
    }
}

/// An amount is usable where its pattern is neither zero nor negative and its exponent is not the
/// greatest one, which stands for infinities and for what is no number.
pub proof fn law_usable_amounts_are_finite_and_positive(price: Price)
    ensures
        price.usable() <==> {
            &&& price.bits != 0
            &&& price.bits < 0x8000_0000_0000_0000
            &&& price.bits / 0x10_0000_0000_0000 < 0x7ff
        },
{
}

} // verus!
