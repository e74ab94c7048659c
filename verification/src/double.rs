//! Rounding to double precision, without floating-point arithmetic.
//!
//! The bits of the doubles from zero up are numbers in the order of the values.
//! In units of the smallest double all of them are whole, so which one is nearest
//! to a fraction is a question about whole numbers.
use vstd::prelude::*;

verus! {

/// `b` to the power of `e`.
pub open spec fn power(b: nat, e: nat) -> nat
    decreases e,
{
    if e == 0 {
        1
    } else {
        b * power(b, (e - 1) as nat)
    }
}

/// The bits of infinity.
pub const INFINITY: u64 = 0x7ff0_0000_0000_0000;

/// How many doubles share an exponent.
pub const BINADE: u64 = 0x0010_0000_0000_0000;

/// The smallest double is one over two to the power of this.
pub const SMALLEST: u64 = 1074;

/// The double with these bits, in units of the smallest one. For infinity it is
/// where the next double would be.
pub open spec fn units(bits: nat) -> nat {
    let exponent = bits / BINADE as nat;
    let fraction = bits % BINADE as nat;
    if exponent == 0 {
        fraction
    } else {
        (BINADE as nat + fraction) * power(2, (exponent - 1) as nat)
    }
}

/// No double is nearer to `top / bottom` than the one with these bits; of two that
/// are equally near it is the even one.
pub open spec fn is_nearest(bits: nat, top: nat, bottom: nat) -> bool {
    &&& bits <= INFINITY
    &&& bits > 0 ==> reaches(bits, top, bottom)
    &&& bits < INFINITY ==> !reaches(bits + 1, top, bottom)
}

/// `top / bottom` is at least halfway from the double before to the one with
/// these bits; just halfway is enough only for an even one.
pub open spec fn reaches(bits: nat, top: nat, bottom: nat) -> bool {
    let middle = (units((bits - 1) as nat) + units(bits)) * bottom;
    let twice = 2 * (top * power(2, SMALLEST as nat));
    middle < twice || (middle == twice && bits % 2 == 0)
}

/// Powers of a positive number are positive.
pub proof fn lemma_power_positive(b: nat, e: nat)
    requires
        b > 0,
    ensures
        power(b, e) > 0,
    decreases e,
{
    if e > 0 {
        lemma_power_positive(b, (e - 1) as nat);
        assert(b * power(b, (e - 1) as nat) > 0) by (nonlinear_arith)
            requires
                b > 0,
                power(b, (e - 1) as nat) > 0,
        ;
    }
}

/// Exponents add up.
proof fn lemma_power_adds(b: nat, x: nat, y: nat)
    ensures
        power(b, x + y) == power(b, x) * power(b, y),
    decreases x,
{
    if x == 0 {
        assert(power(b, 0) == 1);
        assert(1 * power(b, y) == power(b, y));
    } else {
        lemma_power_adds(b, (x - 1) as nat, y);
        assert((x - 1) as nat + y == (x + y - 1) as nat);
        assert(b * (power(b, (x - 1) as nat) * power(b, y)) == (b * power(b, (x - 1) as nat))
            * power(b, y)) by (nonlinear_arith);
    }
}

/// A power of ten is no less than that power of two.
proof fn lemma_ten_beats_two(e: nat)
    ensures
        power(2, e) <= power(10, e),
    decreases e,
{
    if e > 0 {
        lemma_ten_beats_two((e - 1) as nat);
    }
}

/// Up to twice that many, doubles are as many units as their bits say.
proof fn lemma_first_units(bits: nat)
    requires
        bits < 2 * BINADE,
    ensures
        units(bits) == bits,
{
    if bits >= BINADE {
        let fraction = bits % BINADE as nat;
        assert(bits / BINADE as nat == 1);
        assert(power(2, 0) == 1);
        assert((BINADE as nat + fraction) * power(2, 0) == BINADE + fraction) by (nonlinear_arith)
            requires
                power(2, 0) == 1,
        ;
    }
}

/// Every double is less than the next.
proof fn lemma_units_step(x: nat)
    ensures
        units(x) < units(x + 1),
{
    let exponent = x / BINADE as nat;
    let fraction = x % BINADE as nat;
    if fraction == BINADE - 1 {
        assert((x + 1) / BINADE as nat == exponent + 1);
        assert((x + 1) % BINADE as nat == 0);
        if exponent == 0 {
            lemma_first_units(x + 1);
        } else {
            let p = power(2, (exponent - 1) as nat);
            lemma_power_positive(2, (exponent - 1) as nat);
            assert(power(2, exponent) == 2 * p);
            assert((BINADE as nat + fraction) * p < (BINADE as nat + 0) * (2 * p))
                by (nonlinear_arith)
                requires
                    fraction == BINADE - 1,
                    p > 0,
            ;
        }
    } else {
        assert((x + 1) / BINADE as nat == exponent);
        assert((x + 1) % BINADE as nat == fraction + 1);
        if exponent > 0 {
            let p = power(2, (exponent - 1) as nat);
            lemma_power_positive(2, (exponent - 1) as nat);
            assert((BINADE as nat + fraction) * p < (BINADE as nat + (fraction + 1)) * p)
                by (nonlinear_arith)
                requires
                    p > 0,
            ;
        }
    }
}

/// The doubles are in the order of their bits.
proof fn lemma_units_grow(x: nat, y: nat)
    requires
        x <= y,
    ensures
        units(x) <= units(y),
        x < y ==> units(x) < units(y),
    decreases y - x,
{
    if x < y {
        lemma_units_grow(x, (y - 1) as nat);
        lemma_units_step((y - 1) as nat);
    }
}

/// Only one double is nearest.
pub proof fn lemma_nearest_is_unique(x: nat, y: nat, top: nat, bottom: nat)
    requires
        bottom > 0,
        is_nearest(x, top, bottom),
        is_nearest(y, top, bottom),
    ensures
        x == y,
{
    if x < y {
        lemma_not_below(x, y, top, bottom);
    } else if y < x {
        lemma_not_below(y, x, top, bottom);
    }
}

proof fn lemma_not_below(x: nat, y: nat, top: nat, bottom: nat)
    requires
        bottom > 0,
        x < y,
        is_nearest(x, top, bottom),
    ensures
        !is_nearest(y, top, bottom),
{
    let low = units(x) + units(x + 1);
    let high = units((y - 1) as nat) + units(y);
    lemma_units_grow(x, (y - 1) as nat);
    lemma_units_grow(x + 1, y);
    if y == x + 1 {
        assert(low == high);
    } else {
        assert(low < high);
        assert(low * bottom < high * bottom) by (nonlinear_arith)
            requires
                low < high,
                bottom > 0,
        ;
    }
}

/// Whatever is that large is infinite.
pub proof fn lemma_infinite(top: nat, e: nat)
    requires
        top > 0,
        e >= 1100,
    ensures
        is_nearest(INFINITY as nat, top * power(10, e), 1),
{
    let all = top * power(10, e);
    lemma_ten_beats_two(e);
    lemma_power_adds(2, 1100, (e - 1100) as nat);
    lemma_power_positive(2, (e - 1100) as nat);
    let p = power(2, 1100);
    lemma_power_positive(2, 1100);
    assert(all >= p) by (nonlinear_arith)
        requires
            all == top * power(10, e),
            top > 0,
            power(10, e) >= power(2, e),
            power(2, e) == p * power(2, (e - 1100) as nat),
            power(2, (e - 1100) as nat) > 0,
    ;
    lemma_power_adds(2, 52, 2046);
    lemma_binade();
    lemma_power_adds(2, 1024, 1074);
    lemma_power_adds(2, 76, 1024);
    let s = power(2, 1074);
    lemma_power_positive(2, 1074);
    lemma_power_positive(2, 1024);
    lemma_power_grows(76);
    assert(p > power(2, 1024)) by (nonlinear_arith)
        requires
            p == power(2, 76) * power(2, 1024),
            power(2, 76) > 76,
            power(2, 1024) > 0,
    ;
    assert(all * s > power(2, 1024) * s) by (nonlinear_arith)
        requires
            all > power(2, 1024),
            s > 0,
    ;
    assert(units(INFINITY as nat) == power(2, 2098));
    lemma_units_grow((INFINITY - 1) as nat, INFINITY as nat);
}

proof fn lemma_power_grows(e: nat)
    ensures
        power(2, e) > e,
    decreases e,
{
    if e > 0 {
        lemma_power_grows((e - 1) as nat);
    }
}

proof fn lemma_binade()
    ensures
        power(2, 52) == BINADE,
        power(2, 32) == 0x1_0000_0000,
{
    reveal_with_fuel(power, 14);
    assert(power(2, 13) == 8192);
    lemma_power_adds(2, 13, 13);
    lemma_power_adds(2, 26, 26);
    lemma_power_adds(2, 26, 6);
    assert(power(2, 6) == 64);
    let p = power(2, 13);
    let q = power(2, 26);
    assert(q == 67108864) by (nonlinear_arith)
        requires
            q == p * p,
            p == 8192,
    ;
    assert(q * q == BINADE) by (nonlinear_arith)
        requires
            q == 67108864,
    ;
}

/// Whatever is that small is zero.
pub proof fn lemma_negligible(top: nat, len: nat, k: nat)
    requires
        top < power(10, len),
        k >= len + 1100,
    ensures
        is_nearest(0, top, power(10, k)),
{
    let s = power(2, 1074);
    let rest = (k - len) as nat;
    lemma_power_adds(10, len, rest);
    lemma_ten_beats_two(rest);
    lemma_power_adds(2, 1074, (rest - 1074) as nat);
    lemma_power_positive(2, 1074);
    lemma_power_grows((rest - 1074) as nat);
    let bottom = power(10, k);
    assert(2 * (top * s) < bottom) by (nonlinear_arith)
        requires
            top < power(10, len),
            bottom == power(10, len) * power(10, rest),
            power(10, rest) >= power(2, rest),
            power(2, rest) == s * power(2, (rest - 1074) as nat),
            power(2, (rest - 1074) as nat) > 2,
            s > 0,
    ;
    assert(units(0) == 0 && units(1) == 1);
    assert((units(0) + units(1)) * bottom == bottom) by (nonlinear_arith)
        requires
            units(0) + units(1) == 1,
    ;
}

/// Zero is the double nearest to zero.
pub proof fn lemma_zero(bottom: nat)
    requires
        bottom > 0,
    ensures
        is_nearest(0, 0, bottom),
{
    assert(units(0) == 0 && units(1) == 1);
    assert((units(0) + units(1)) * bottom == bottom) by (nonlinear_arith)
        requires
            units(0) + units(1) == 1,
    ;
    assert(0 * power(2, SMALLEST as nat) == 0);
}

/// The base of large numbers.
const LIMB: u128 = 0x1_0000_0000_0000_0000;

/// Digit `i` of a large number, the lowest first.
spec fn limb(s: Seq<u64>, i: int) -> nat {
    if 0 <= i < s.len() {
        s[i] as nat
    } else {
        0
    }
}

/// The number that the lowest `n` digits make.
spec fn lowest(s: Seq<u64>, n: nat) -> nat
    decreases n,
{
    if n == 0 {
        0
    } else {
        lowest(s, (n - 1) as nat) + limb(s, n - 1) * power(LIMB as nat, (n - 1) as nat)
    }
}

/// A number of any size.
pub(crate) struct Large {
    limbs: Vec<u64>,
}

impl View for Large {
    type V = nat;

    closed spec fn view(&self) -> nat {
        lowest(self.limbs@, self.limbs@.len())
    }
}

/// Digits that are not there count for nothing.
proof fn lemma_lowest_beyond(s: Seq<u64>, n: nat)
    requires
        n >= s.len(),
    ensures
        lowest(s, n) == lowest(s, s.len()),
    decreases n,
{
    if n > s.len() {
        lemma_lowest_beyond(s, (n - 1) as nat);
        assert(0 * power(LIMB as nat, (n - 1) as nat) == 0);
    }
}

/// A digit on top does not change what is below.
proof fn lemma_lowest_push(s: Seq<u64>, x: u64, n: nat)
    requires
        n <= s.len(),
    ensures
        lowest(s.push(x), n) == lowest(s, n),
    decreases n,
{
    if n > 0 {
        lemma_lowest_push(s, x, (n - 1) as nat);
    }
}

/// Some digits make less than one in the next place.
proof fn lemma_lowest_bound(s: Seq<u64>, n: nat)
    ensures
        lowest(s, n) < power(LIMB as nat, n),
    decreases n,
{
    if n > 0 {
        lemma_lowest_bound(s, (n - 1) as nat);
        let p = power(LIMB as nat, (n - 1) as nat);
        let d = limb(s, n - 1);
        assert(d <= LIMB - 1);
        assert(lowest(s, (n - 1) as nat) + d * p < LIMB * p) by (nonlinear_arith)
            requires
                lowest(s, (n - 1) as nat) < p,
                d <= LIMB - 1,
        ;
    }
}

/// How two numbers compare.
#[derive(Debug, Clone, Copy, PartialEq, Eq, Structural)]
pub(crate) enum Measure {
    Less,
    Same,
    More,
}

impl Large {
    /// A small number.
    pub(crate) fn new(n: u64) -> (r: Self)
        ensures
            r@ == n,
    {
        let mut limbs: Vec<u64> = Vec::new();
        limbs.push(n);
        proof {
            reveal_with_fuel(lowest, 2);
            assert(power(LIMB as nat, 0) == 1);
            assert(limbs@[0] * 1 == n);
        }
        Large { limbs }
    }

    /// `factor` times the number, and `more`.
    pub(crate) fn scaled(&self, factor: u64, more: u64) -> (r: Self)
        ensures
            r@ == self@ * factor + more,
    {
        let mut out: Vec<u64> = Vec::new();
        let mut carry: u64 = more;
        let mut i: usize = 0;
        proof {
            assert(power(LIMB as nat, 0) == 1);
            assert(0 * factor == 0);
        }
        while i < self.limbs.len()
            invariant
                i <= self.limbs@.len(),
                out@.len() == i,
                lowest(out@, i as nat) + carry * power(LIMB as nat, i as nat) == lowest(
                    self.limbs@,
                    i as nat,
                ) * factor + more,
            decreases self.limbs@.len() - i,
        {
            let x: u64 = self.limbs[i];
            assert(x * factor + carry <= (LIMB - 1) * (LIMB - 1) + (LIMB - 1)) by (nonlinear_arith)
                requires
                    x <= LIMB - 1,
                    factor <= LIMB - 1,
                    carry <= LIMB - 1,
            ;
            assert(0 <= x * factor) by (nonlinear_arith);
            let t: u128 = x as u128 * factor as u128 + carry as u128;
            let low: u64 = (t % LIMB) as u64;
            let high: u64 = (t / LIMB) as u64;
            proof {
                let p = power(LIMB as nat, i as nat);
                let before = lowest(self.limbs@, i as nat);
                let done = lowest(out@, i as nat);
                lemma_lowest_push(out@, low, i as nat);
                assert(limb(out@.push(low), i as int) == low);
                assert(t == low + LIMB * high);
                assert((done + low * p) + high * (LIMB * p) == (before + x * p) * factor + more)
                    by (nonlinear_arith)
                    requires
                        done + carry * p == before * factor + more,
                        x * factor + carry == low + LIMB * high,
                ;
            }
            out.push(low);
            carry = high;
            i += 1;
        }
        proof {
            lemma_lowest_push(out@, carry, i as nat);
            assert(limb(out@.push(carry), i as int) == carry);
        }
        out.push(carry);
        Large { limbs: out }
    }

    /// The number times ten to the power of `e`.
    pub(crate) fn times_ten_to(self, e: u64) -> (r: Self)
        ensures
            r@ == self@ * power(10, e as nat),
    {
        let ghost start = self@;
        let mut out: Large = self;
        let mut i: u64 = 0;
        assert(start * 1 == start);
        while i < e
            invariant
                i <= e,
                out@ == start * power(10, i as nat),
            decreases e - i,
        {
            out = out.scaled(10, 0);
            assert((start * power(10, i as nat)) * 10 == start * (10 * power(10, i as nat)))
                by (nonlinear_arith);
            i += 1;
        }
        out
    }

    /// The number times two to the power of `e`.
    pub(crate) fn times_two_to(self, e: u64) -> (r: Self)
        ensures
            r@ == self@ * power(2, e as nat),
    {
        let ghost start = self@;
        let mut out: Large = self;
        let mut left: u64 = e;
        while left > 0
            invariant
                left <= e,
                out@ * power(2, left as nat) == start * power(2, e as nat),
            decreases left,
        {
            let ghost now = out@;
            if left >= 32 {
                proof {
                    lemma_binade();
                    lemma_power_adds(2, 32, (left - 32) as nat);
                    let p = power(2, (left - 32) as nat);
                    assert((now * 0x1_0000_0000) * p == now * (0x1_0000_0000 * p))
                        by (nonlinear_arith);
                }
                out = out.scaled(0x1_0000_0000, 0);
                left = left - 32;
            } else {
                proof {
                    let p = power(2, (left - 1) as nat);
                    assert((now * 2) * p == now * (2 * p)) by (nonlinear_arith);
                }
                out = out.scaled(2, 0);
                left = left - 1;
            }
        }
        assert(out@ * 1 == out@);
        out
    }

    /// How the number compares with another.
    pub(crate) fn against(&self, other: &Large) -> (r: Measure)
        ensures
            r == if self@ < other@ {
                Measure::Less
            } else if self@ == other@ {
                Measure::Same
            } else {
                Measure::More
            },
    {
        let mut i: usize = if self.limbs.len() < other.limbs.len() {
            other.limbs.len()
        } else {
            self.limbs.len()
        };
        proof {
            lemma_lowest_beyond(self.limbs@, i as nat);
            lemma_lowest_beyond(other.limbs@, i as nat);
        }
        while i > 0
            invariant
                self@ - lowest(self.limbs@, i as nat) == other@ - lowest(other.limbs@, i as nat),
            decreases i,
        {
            let x: u64 = if i <= self.limbs.len() {
                self.limbs[i - 1]
            } else {
                0
            };
            let y: u64 = if i <= other.limbs.len() {
                other.limbs[i - 1]
            } else {
                0
            };
            proof {
                let p = power(LIMB as nat, (i - 1) as nat);
                let a = lowest(self.limbs@, (i - 1) as nat);
                let b = lowest(other.limbs@, (i - 1) as nat);
                assert(limb(self.limbs@, i - 1) == x);
                assert(limb(other.limbs@, i - 1) == y);
                lemma_lowest_bound(self.limbs@, (i - 1) as nat);
                lemma_lowest_bound(other.limbs@, (i - 1) as nat);
                if x < y {
                    assert(a + x * p < b + y * p) by (nonlinear_arith)
                        requires
                            a < p,
                            x + 1 <= y,
                            b >= 0,
                    ;
                }
                if y < x {
                    assert(b + y * p < a + x * p) by (nonlinear_arith)
                        requires
                            b < p,
                            y + 1 <= x,
                            a >= 0,
                    ;
                }
            }
            if x < y {
                return Measure::Less;
            }
            if x > y {
                return Measure::More;
            }
            i -= 1;
        }
        Measure::Same
    }
}

/// A double and the one before it, added up: a number, times two to the power of
/// another.
fn neighbours(bits: u64) -> (r: (u64, u64))
    requires
        0 < bits <= INFINITY,
    ensures
        r.0 * power(2, r.1 as nat) == units((bits - 1) as nat) + units(bits as nat),
{
    let exponent: u64 = bits / BINADE;
    let fraction: u64 = bits % BINADE;
    assert(power(2, 0) == 1);
    if exponent <= 1 {
        proof {
            lemma_first_units(bits as nat);
            lemma_first_units((bits - 1) as nat);
            assert((bits + (bits - 1)) * power(2, 0) == bits + (bits - 1)) by (nonlinear_arith)
                requires
                    power(2, 0) == 1,
            ;
        }
        (bits + (bits - 1), 0)
    } else if fraction > 0 {
        proof {
            let p = power(2, (exponent - 1) as nat);
            assert((bits - 1) / BINADE as int == exponent);
            assert((bits - 1) % BINADE as int == fraction - 1);
            assert((BINADE + (fraction - 1)) * p + (BINADE + fraction) * p == (2 * (BINADE
                + fraction) - 1) * p) by (nonlinear_arith);
        }
        (2 * (BINADE + fraction) - 1, exponent - 1)
    } else {
        proof {
            let p = power(2, (exponent - 2) as nat);
            assert((bits - 1) / BINADE as int == exponent - 1);
            assert((bits - 1) % BINADE as int == BINADE - 1);
            assert(power(2, (exponent - 1) as nat) == 2 * p);
            assert((BINADE + (BINADE - 1)) * p + (BINADE + 0) * (2 * p) == (4 * BINADE - 1) * p)
                by (nonlinear_arith);
        }
        (4 * BINADE - 1, exponent - 2)
    }
}

/// The bits of the double nearest to `top / bottom`.
pub(crate) fn nearest(top: Large, bottom: &Large) -> (r: u64)
    requires
        bottom@ > 0,
    ensures
        is_nearest(r as nat, top@, bottom@),
{
    let ghost t = top@;
    let ghost b = bottom@;
    let twice = top.times_two_to(SMALLEST).scaled(2, 0);
    assert(twice@ == 2 * (t * power(2, SMALLEST as nat)));
    let mut low: u64 = 0;
    let mut high: u64 = INFINITY + 1;
    while high - low > 1
        invariant
            low < high <= INFINITY + 1,
            b == bottom@,
            twice@ == 2 * (t * power(2, SMALLEST as nat)),
            low > 0 ==> reaches(low as nat, t, b),
            high <= INFINITY ==> !reaches(high as nat, t, b),
        decreases high - low,
    {
        let bits: u64 = low + (high - low) / 2;
        let (factor, shift) = neighbours(bits);
        let middle = bottom.scaled(factor, 0).times_two_to(shift);
        assert(middle@ == (units((bits - 1) as nat) + units(bits as nat)) * b) by {
            let p = power(2, shift as nat);
            assert((b * factor) * p == (factor * p) * b) by (nonlinear_arith);
        }
        let reached: bool = match middle.against(&twice) {
            Measure::Less => true,
            Measure::Same => bits % 2 == 0,
            Measure::More => false,
        };
        if reached {
            low = bits;
        } else {
            high = bits;
        }
    }
    low
}

/// Powers are repeated products.
pub proof fn law_powers(b: nat, e: nat)
    ensures
        power(b, 0) == 1,
        power(b, e + 1) == b * power(b, e),
{
    assert(b * power(b, e) == power(b, e) * b) by (nonlinear_arith);
}

/// The format: eleven bits of exponent above fifty-two of fraction, the smallest
/// number two to the minus thousand and seventy-fourth, and below the first
/// binade one unit per step.
pub proof fn law_double_format(bits: nat)
    ensures
        BINADE == 4503599627370496,
        INFINITY == 2047 * 4503599627370496,
        SMALLEST == 1074,
        bits < 9007199254740992 ==> units(bits) == bits,
{
    if bits >= 4503599627370496 && bits < 9007199254740992 {
        assert(power(2, 0) == 1);
        assert(bits / 4503599627370496 == 1);
        assert(bits % 4503599627370496 == bits - 4503599627370496);
        let f = bits % 4503599627370496;
        assert((4503599627370496 + f) * power(2, 0) == 4503599627370496 + f) by (nonlinear_arith)
            requires
                power(2, 0) == 1,
        ;
    }
}

/// How far apart two numbers are.
pub open spec fn apart(x: int, y: int) -> int {
    if x < y {
        y - x
    } else {
        x - y
    }
}

/// Between two doubles the middle decides: what is not below it is at least as
/// near to the upper one, and what is not above it to the lower one.
proof fn lemma_middle(low: int, high: int, x: int)
    requires
        low <= high,
    ensures
        low + high <= 2 * x ==> apart(x, high) <= apart(x, low),
        2 * x <= low + high ==> apart(x, low) <= apart(x, high),
{
}

/// The double that a fraction is rounded to is nearest: no other is nearer. All
/// is measured in the smallest double, and over the fraction's lower part.
pub proof fn law_no_double_is_nearer(bits: nat, other: nat, top: nat, bottom: nat)
    requires
        bottom > 0,
        is_nearest(bits, top, bottom),
        bits < INFINITY,
        other < INFINITY,
    ensures
        apart((top * power(2, 1074)) as int, (units(bits) * bottom) as int) <= apart(
            (top * power(2, 1074)) as int,
            (units(other) * bottom) as int,
        ),
{
    let x = (top * power(2, SMALLEST as nat)) as int;
    let u = (units(bits) * bottom) as int;
    let v = (units(other) * bottom) as int;
    if other < bits {
        let below = (bits - 1) as nat;
        lemma_units_grow(other, below);
        lemma_units_grow(below, bits);
        let w = (units(below) * bottom) as int;
        assert((units(below) + units(bits)) * bottom == w + u) by (nonlinear_arith)
            requires
                w == units(below) * bottom,
                u == units(bits) * bottom,
        ;
        assert(v <= w) by (nonlinear_arith)
            requires
                v == units(other) * bottom,
                w == units(below) * bottom,
                units(other) <= units(below),
        ;
        assert(w <= u) by (nonlinear_arith)
            requires
                w == units(below) * bottom,
                u == units(bits) * bottom,
                units(below) <= units(bits),
        ;
        assert(reaches(bits, top, bottom));
        lemma_middle(w, u, x);
    } else if other > bits {
        let above = bits + 1;
        lemma_units_grow(above, other);
        lemma_units_grow(bits, above);
        let w = (units(above) * bottom) as int;
        assert((units(bits) + units(above)) * bottom == u + w) by (nonlinear_arith)
            requires
                w == units(above) * bottom,
                u == units(bits) * bottom,
        ;
        assert(w <= v) by (nonlinear_arith)
            requires
                v == units(other) * bottom,
                w == units(above) * bottom,
                units(above) <= units(other),
        ;
        assert(u <= w) by (nonlinear_arith)
            requires
                w == units(above) * bottom,
                u == units(bits) * bottom,
                units(bits) <= units(above),
        ;
        assert(!reaches(above, top, bottom));
        assert((above - 1) as nat == bits);
        lemma_middle(u, w, x);
    }
}

/// Equal fractions are rounded to the same double, however they are written.
pub proof fn law_equal_fractions_are_rounded_alike(
    bits: nat,
    top: nat,
    bottom: nat,
    top2: nat,
    bottom2: nat,
)
    requires
        bottom > 0,
        bottom2 > 0,
        top * bottom2 == top2 * bottom,
    ensures
        is_nearest(bits, top, bottom) <==> is_nearest(bits, top2, bottom2),
{
    lemma_reaches_alike(bits, top, bottom, top2, bottom2);
    lemma_reaches_alike(bits + 1, top, bottom, top2, bottom2);
}

proof fn lemma_reaches_alike(bits: nat, top: nat, bottom: nat, top2: nat, bottom2: nat)
    requires
        bottom > 0,
        bottom2 > 0,
        top * bottom2 == top2 * bottom,
    ensures
        reaches(bits, top, bottom) <==> reaches(bits, top2, bottom2),
{
    let u: int = (units((bits - 1) as nat) + units(bits)) as int;
    let p: int = power(2, SMALLEST as nat) as int;
    let (t, b, t2, b2) = (top as int, bottom as int, top2 as int, bottom2 as int);
    let (m, w, m2, w2) = (u * b, 2 * (t * p), u * b2, 2 * (t2 * p));
    assert(m * b2 == m2 * b) by (nonlinear_arith)
        requires
            m == u * b,
            m2 == u * b2,
    ;
    assert(w * b2 == w2 * b) by (nonlinear_arith)
        requires
            w == 2 * (t * p),
            w2 == 2 * (t2 * p),
            t * b2 == t2 * b,
    ;
    assert((m < w) == (m2 < w2)) by (nonlinear_arith)
        requires
            m * b2 == m2 * b,
            w * b2 == w2 * b,
            b > 0,
            b2 > 0,
    ;
    assert((m == w) == (m2 == w2)) by (nonlinear_arith)
        requires
            m * b2 == m2 * b,
            w * b2 == w2 * b,
            b > 0,
            b2 > 0,
    ;
}

} // verus!
