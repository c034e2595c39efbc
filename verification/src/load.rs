//! CPU loads, compared without being computed with.

use vstd::prelude::*;
use vstd::arithmetic::power2::{lemma_pow2_adds, lemma_pow2_pos, lemma_pow2_strictly_increases, pow2};

verus! {

/// The sign bit of an IEEE 754 double.
pub const SIGN_BIT: u64 = 0x8000_0000_0000_0000;

/// The bits of the infinite double; larger magnitudes are no numbers.
pub const INFINITE_BITS: u64 = 0x7ff0_0000_0000_0000;

/// The bits of the double nearest to one fifth.
pub const IDLE_BITS: u64 = 0x3fc9_9999_9999_999a;

/// The bits of the double one.
pub const FULL_BITS: u64 = 0x3ff0_0000_0000_0000;

/// A load, known by an integer that is ordered as the loads are; what is no number compares with
/// nothing.
#[derive(Clone, Copy, Debug, PartialEq, Eq, Structural)]
pub enum Load {
    At(u64),
    Undefined,
}

/// The bits without the sign.
pub open spec fn magnitude_bits(bits: u64) -> u64 {
    if bits >= SIGN_BIT {
        (bits - SIGN_BIT) as u64
    } else {
        bits
    }
}

/// The bits write a number or an infinity.
pub open spec fn is_number(bits: u64) -> bool {
    magnitude_bits(bits) <= INFINITE_BITS
}

/// The size of the number that the bits without sign write, in units of the smallest positive
/// double; the infinity counts as the power of two that follows the largest finite double.
pub open spec fn magnitude(bits: u64) -> nat {
    let exponent = bits as nat / 0x10_0000_0000_0000;
    let fraction = bits as nat % 0x10_0000_0000_0000;
    if exponent == 0 {
        fraction
    } else {
        (0x10_0000_0000_0000 + fraction) * pow2((exponent - 1) as nat)
    }
}

/// The number that the bits write, in units of the smallest positive double.
pub open spec fn number(bits: u64) -> int {
    if bits >= SIGN_BIT {
        -(magnitude(magnitude_bits(bits)) as int)
    } else {
        magnitude(bits) as int
    }
}

/// The load that the bits of a double stand for.
pub open spec fn load_of(bits: u64) -> Load {
    if !is_number(bits) {
        Load::Undefined
    } else if bits >= SIGN_BIT {
        Load::At((SIGN_BIT - magnitude_bits(bits)) as u64)
    } else {
        Load::At((SIGN_BIT + bits) as u64)
    }
}

impl Load {
    /// `self` is at most `other`.
    pub open spec fn le(self, other: Load) -> bool {
        match (self, other) {
            (Load::At(a), Load::At(b)) => a <= b,
            _ => false,
        }
    }

    /// `self` is below `other`.
    pub open spec fn lt(self, other: Load) -> bool {
        match (self, other) {
            (Load::At(a), Load::At(b)) => a < b,
            _ => false,
        }
    }

    /// The load that the bits of a double stand for.
    pub fn from_bits(bits: u64) -> (r: Load)
        ensures
            r == load_of(bits),
    {
        let negative: bool = bits >= SIGN_BIT;
        let size: u64 = if negative {
            bits - SIGN_BIT
        } else {
            bits
        };
        if size > INFINITE_BITS {
            Load::Undefined
        } else if negative {
            Load::At(SIGN_BIT - size)
        } else {
            Load::At(SIGN_BIT + size)
        }
    }

    /// Tells whether `self` is at most `other`.
    pub fn at_most(self, other: Load) -> (r: bool)
        ensures
            r == self.le(other),
    {
        match (self, other) {
            (Load::At(a), Load::At(b)) => a <= b,
            _ => false,
        }
    }

    /// Tells whether `self` is below `other`.
    pub fn below(self, other: Load) -> (r: bool)
        ensures
            r == self.lt(other),
    {
        match (self, other) {
            (Load::At(a), Load::At(b)) => a < b,
            _ => false,
        }
    }
}

proof fn lemma_magnitude_increases(a: u64, b: u64)
    requires
        a < b,
    ensures
        magnitude(a) < magnitude(b),
{
    let unit: nat = 0x10_0000_0000_0000;
    let ea = a as nat / unit;
    let eb = b as nat / unit;
    let fa = a as nat % unit;
    let fb = b as nat % unit;
    assert(a == ea * unit + fa);
    assert(b == eb * unit + fb);
    if ea == eb {
        if ea > 0 {
            let p = pow2((ea - 1) as nat);
            lemma_pow2_pos((ea - 1) as nat);
            assert((unit + fa) * p < (unit + fb) * p) by (nonlinear_arith)
                requires
                    fa < fb,
                    p > 0,
            ;
        }
    } else {
        assert(ea < eb);
        let q = pow2((eb - 1) as nat);
        lemma_pow2_pos((eb - 1) as nat);
        assert(unit * q <= (unit + fb) * q) by (nonlinear_arith)
            requires
                q > 0,
        ;
        if ea == 0 {
            assert(unit <= unit * q) by (nonlinear_arith)
                requires
                    q >= 1,
            ;
        } else {
            let p = pow2((ea - 1) as nat);
            lemma_pow2_pos((ea - 1) as nat);
            lemma_pow2_adds(1, (ea - 1) as nat);
            assert(pow2(1) == 2) by {
                vstd::arithmetic::power2::lemma2_to64();
            }
            if ea < eb - 1 {
                lemma_pow2_strictly_increases(ea, (eb - 1) as nat);
            }
            assert(pow2(ea) == 2 * p);
            assert(2 * p <= q);
            assert((unit + fa) * p < unit * q) by (nonlinear_arith)
                requires
                    fa < unit,
                    2 * p <= q,
                    p > 0,
            ;
        }
    }
}

/// Loads compare as the numbers do whose bits they were made from.
pub proof fn law_loads_compare_as_numbers(a: u64, b: u64)
    requires
        is_number(a),
        is_number(b),
    ensures
        load_of(a).le(load_of(b)) <==> number(a) <= number(b),
        load_of(a).lt(load_of(b)) <==> number(a) < number(b),
{
    let x = magnitude_bits(a);
    let y = magnitude_bits(b);
    if x < y {
        lemma_magnitude_increases(x, y);
    }
    if y < x {
        lemma_magnitude_increases(y, x);
    }
    if 0 < x {
        lemma_magnitude_increases(0, x);
    }
    if 0 < y {
        lemma_magnitude_increases(0, y);
    }
    assert(magnitude(0) == 0);
}

/// What is no number compares with nothing.
pub proof fn law_undefined_compares_with_nothing(a: u64, b: u64)
    requires
        !is_number(a) || !is_number(b),
    ensures
        !load_of(a).le(load_of(b)),
        !load_of(a).lt(load_of(b)),
{
}

/// The bits of the double one write one: as many of the smallest positive double as there are
/// in one.
pub proof fn law_full_is_one()
    ensures
        is_number(FULL_BITS),
        number(FULL_BITS) == pow2(1074),
{
    lemma_pow2_adds(52, 1022);
    assert(pow2(52) == 0x10_0000_0000_0000) by {
        vstd::arithmetic::power2::lemma2_to64();
        vstd::arithmetic::power2::lemma2_to64_rest();
    }
    assert(FULL_BITS as nat / 0x10_0000_0000_0000 == 1023);
    assert(FULL_BITS as nat % 0x10_0000_0000_0000 == 0);
}

/// No double is nearer to one fifth than the one under which a VM is idle: five times it misses one
/// by less than five times half the step to the next double.
pub proof fn law_idle_is_a_fifth()
    ensures
        is_number(IDLE_BITS),
        ({
            let step = number((IDLE_BITS + 1) as u64) - number(IDLE_BITS);
            let miss = 5 * number(IDLE_BITS) - number(FULL_BITS);
            -5 * step < 2 * miss < 5 * step
        }),
{
    let p = pow2(1019);
    lemma_pow2_pos(1019);
    lemma_pow2_adds(3, 1019);
    assert(pow2(3) == 8) by {
        vstd::arithmetic::power2::lemma2_to64();
    }
    assert(IDLE_BITS as nat / 0x10_0000_0000_0000 == 1020);
    assert(IDLE_BITS as nat % 0x10_0000_0000_0000 == 0x9_9999_9999_999a);
    assert((IDLE_BITS + 1) as nat / 0x10_0000_0000_0000 == 1020);
    assert((IDLE_BITS + 1) as nat % 0x10_0000_0000_0000 == 0x9_9999_9999_999b);
    assert(FULL_BITS as nat / 0x10_0000_0000_0000 == 1023);
    assert(FULL_BITS as nat % 0x10_0000_0000_0000 == 0);
    assert(number(IDLE_BITS) == 0x19_9999_9999_999a * p);
    assert(number((IDLE_BITS + 1) as u64) == 0x19_9999_9999_999b * p);
    assert(number(FULL_BITS) == 0x10_0000_0000_0000 * (8 * p));
}

} // verus!
