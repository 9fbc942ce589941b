//! Double-precision numbers as integers: their order, and the two operations
//! that turn a normalized rectangle into pixels, computed exactly as the
//! machine's own arithmetic rounds them.

use vstd::arithmetic::div_mod::*;
use vstd::arithmetic::mul::*;
use vstd::arithmetic::power2::*;
use vstd::prelude::*;

use crate::plain::Plain;

verus! {

/// A double-precision number: the bits that encode it, and what it is written
/// as in a message or on a command line.
#[derive(Debug)]
pub struct Number {
    pub bits: u64,
    pub text: String,
}

#[verifier::ext_equal]
pub struct NumberView {
    pub bits: u64,
    pub text: Seq<char>,
}

impl View for Number {
    type V = NumberView;

    open spec fn view(&self) -> NumberView {
        NumberView { bits: self.bits, text: self.text@ }
    }
}

impl DeepView for Number {
    type V = NumberView;

    open spec fn deep_view(&self) -> NumberView {
        self@
    }
}

impl Plain for Number {
    fn same(&self, other: &Self) -> bool {
        self.bits == other.bits && self.text.same(&other.text)
    }

    fn copy(&self) -> Self {
        Number { bits: self.bits, text: self.text.copy() }
    }
}

pub const SIGN: u64 = 0x8000_0000_0000_0000;

pub const FRACTION: u64 = 0x10_0000_0000_0000;

/// The bits of 1.
pub const ONE: u64 = 0x3ff0_0000_0000_0000;

// ---------------------------------------------------------------------------
// Order

/// The bits without the sign.
pub open spec fn magnitude(bits: u64) -> nat {
    (bits % SIGN) as nat
}

/// The place of a number in the order of numbers. The two zeros share one.
pub open spec fn rank(bits: u64) -> int {
    if bits < SIGN {
        bits as int
    } else {
        -(bits - SIGN)
    }
}

/// The bits of infinity.
pub const INFINITY: u64 = 0x7ff0_0000_0000_0000;

/// Whether a place in the order is a number's, rather than an infinity's or
/// that of what is no number.
pub open spec fn finite(rank: int) -> bool {
    -INFINITY < rank < INFINITY
}

/// Whether a place in the order is a number's or an infinity's, rather than
/// that of what is no number.
pub open spec fn ordered(rank: int) -> bool {
    -INFINITY <= rank <= INFINITY
}

pub fn is_ordered(bits: u64) -> (r: bool)
    ensures
        r == ordered(rank(bits)),
{
    bits % SIGN <= INFINITY
}

pub fn is_finite(bits: u64) -> (r: bool)
    ensures
        r == finite(rank(bits)),
{
    bits % SIGN < INFINITY
}

/// `a < b` for numbers.
pub fn less(a: u64, b: u64) -> (r: bool)
    ensures
        r == (rank(a) < rank(b)),
{
    if a < SIGN {
        b < SIGN && a < b
    } else if b < SIGN {
        a != SIGN || b != 0
    } else {
        a > b
    }
}

/// `a == b` for numbers.
pub fn equal(a: u64, b: u64) -> (r: bool)
    ensures
        r == (rank(a) == rank(b)),
{
    !less(a, b) && !less(b, a)
}

/// The number nearest to `n` between `low` and `high`. What is no number stays
/// what it is.
pub open spec fn clamped(n: NumberView, low: NumberView, high: NumberView) -> NumberView {
    if !ordered(rank(n.bits)) {
        n
    } else if rank(n.bits) < rank(low.bits) {
        low
    } else if rank(high.bits) < rank(n.bits) {
        high
    } else {
        n
    }
}

pub fn clamp(n: &Number, low: &Number, high: &Number) -> (r: Number)
    ensures
        r@ == clamped(n@, low@, high@),
{
    if !is_ordered(n.bits) {
        n.copy()
    } else if less(n.bits, low.bits) {
        low.copy()
    } else if less(high.bits, n.bits) {
        high.copy()
    } else {
        n.copy()
    }
}

// ---------------------------------------------------------------------------
// Value, in units of the smallest positive number

/// One, in units of the smallest positive number.
pub open spec fn unit() -> nat {
    pow2(1074)
}

/// The digits of a number, from its bits without the sign.
pub open spec fn mantissa(m: nat) -> nat {
    if m < FRACTION {
        m
    } else {
        (FRACTION + m % (FRACTION as nat)) as nat
    }
}

/// The power of two that the digits count.
pub open spec fn scale(m: nat) -> nat {
    if m < FRACTION {
        0
    } else {
        (m / (FRACTION as nat) - 1) as nat
    }
}

/// The absolute value of a number; that of an infinity is the power of two
/// that comes after every finite number.
pub open spec fn units(m: nat) -> nat {
    mantissa(m) * pow2(scale(m))
}

/// The value of the number at a place in the order.
pub open spec fn value(rank: int) -> int {
    if rank >= 0 {
        units(rank as nat) as int
    } else {
        -(units((-rank) as nat) as int)
    }
}

/// How many binary digits a number has.
pub open spec fn bit_len(u: nat) -> nat
    decreases u,
{
    if u == 0 {
        0
    } else {
        1 + bit_len(u / 2)
    }
}

/// The multiple of `2^s` nearest to `u`, the even one of two equally near.
pub open spec fn half_even(u: nat, s: nat) -> nat {
    let d = pow2(s);
    let q = u / d;
    let r = u % d;
    if 2 * r < d || (2 * r == d && q % 2 == 0) {
        q * d
    } else {
        (q + 1) * d
    }
}

/// The number nearest to `u` that 53 binary digits can write.
pub open spec fn rounded(u: nat) -> nat {
    if bit_len(u) <= 53 {
        u
    } else {
        half_even(u, (bit_len(u) - 53) as nat)
    }
}

/// A number held between zero and one. What is no number counts as zero, as it
/// does when it is made a whole number.
pub open spec fn normalized(rank: int) -> nat {
    if rank <= 0 || !ordered(rank) {
        0
    } else if rank >= ONE {
        unit()
    } else {
        units(rank as nat)
    }
}

/// The sum of two numbers, rounded, held between zero and one. An infinity is
/// beyond every number, opposite infinities make no number, and what is no
/// number counts as zero.
pub open spec fn normalized_sum(a: int, b: int) -> nat {
    let s = value(a) + value(b);
    if s <= 0 || !ordered(a) || !ordered(b) {
        0
    } else if rounded(s as nat) >= unit() {
        unit()
    } else {
        rounded(s as nat)
    }
}

/// The largest `u32` no larger than `n`.
pub open spec fn saturated(n: nat) -> u32 {
    if n > u32::MAX {
        u32::MAX
    } else {
        n as u32
    }
}

/// `(v * n).floor()`.
pub open spec fn floor_scaled(v: nat, n: u32) -> u32 {
    saturated(rounded(v * n as nat) / unit())
}

/// `(v * n).round()`, a half rounded up.
pub open spec fn round_scaled(v: nat, n: u32) -> u32 {
    saturated((2 * rounded(v * n as nat) + unit()) / (2 * unit()))
}

// ---------------------------------------------------------------------------
// Lemmas

proof fn lemma_bit_len(u: nat, n: nat)
    requires
        n > 0,
        pow2((n - 1) as nat) <= u < pow2(n),
    ensures
        bit_len(u) == n,
    decreases n,
{
    lemma_pow2_unfold(n);
    lemma_pow2_pos((n - 1) as nat);
    if n == 1 {
        lemma2_to64();
        assert(u == 1);
        assert(bit_len(0) == 0);
        assert(bit_len(1) == 1 + bit_len(1nat / 2));
    } else {
        lemma_pow2_unfold((n - 1) as nat);
        lemma_bit_len(u / 2, (n - 1) as nat);
    }
}

proof fn lemma_bit_len_bounds(u: nat)
    requires
        u > 0,
    ensures
        bit_len(u) > 0,
        pow2((bit_len(u) - 1) as nat) <= u < pow2(bit_len(u)),
    decreases u,
{
    lemma_pow2_unfold(bit_len(u));
    if u == 1 {
        lemma2_to64();
        assert(bit_len(0) == 0);
        assert(bit_len(1) == 1 + bit_len(1nat / 2));
    } else {
        lemma_bit_len_bounds(u / 2);
        lemma_pow2_unfold(bit_len(u / 2));
    }
}

proof fn lemma_bit_len_small(u: nat, n: nat)
    requires
        u < pow2(n),
    ensures
        bit_len(u) <= n,
{
    if u > 0 {
        lemma_bit_len_bounds(u);
        if bit_len(u) > n {
            if bit_len(u) - 1 > n {
                lemma_pow2_strictly_increases(n, (bit_len(u) - 1) as nat);
            }
        }
    }
}

proof fn lemma_scaled_division(u: nat, d: nat, c: nat)
    requires
        d > 0,
        c > 0,
    ensures
        (u * c) / (d * c) == u / d,
        (u * c) % (d * c) == (u % d) * c,
{
    let q = u / d;
    let r = u % d;
    lemma_fundamental_div_mod(u as int, d as int);
    lemma_mul_is_distributive_add_other_way(c as int, (d * q) as int, r as int);
    lemma_mul_is_associative(d as int, q as int, c as int);
    lemma_mul_is_commutative(q as int, c as int);
    lemma_mul_is_associative(d as int, c as int, q as int);
    assert(u * c == q * (d * c) + r * c) by (nonlinear_arith)
        requires
            u == d * q + r,
    ;
    assert(0 <= r * c < d * c) by (nonlinear_arith)
        requires
            0 <= r < d,
            c > 0,
    ;
    lemma_fundamental_div_mod_converse((u * c) as int, (d * c) as int, q as int, (r * c) as int);
}

/// Rounding does not depend on the scale.
proof fn lemma_rounded_scales(u: nat, k: nat)
    ensures
        rounded(u * pow2(k)) == rounded(u) * pow2(k),
{
    let c = pow2(k);
    lemma_pow2_pos(k);
    if u == 0 {
        assert(u * c == 0);
        assert(bit_len(0) == 0);
    } else {
        let n = bit_len(u);
        lemma_bit_len_bounds(u);
        lemma_pow2_adds((n - 1) as nat, k);
        lemma_pow2_adds(n, k);
        assert(pow2((n - 1) as nat) * c <= u * c < pow2(n) * c) by (nonlinear_arith)
            requires
                pow2((n - 1) as nat) <= u < pow2(n),
                c > 0,
        ;
        assert(((n - 1) as nat) + k == (n + k - 1) as nat);
        lemma_bit_len(u * c, n + k);
        if n + k > 53 {
            let t = (n + k - 53) as nat;
            if n <= 53 {
                // 2^t divides 2^k, and so the product.
                let e = (k - t) as nat;
                lemma_pow2_adds(e, t);
                lemma_pow2_pos(t);
                let d = pow2(t);
                assert(u * c == (u * pow2(e)) * d) by (nonlinear_arith)
                    requires
                        c == pow2(e) * d,
                ;
                lemma_fundamental_div_mod_converse(
                    (u * c) as int,
                    d as int,
                    (u * pow2(e)) as int,
                    0,
                );
            } else {
                let s = (n - 53) as nat;
                lemma_pow2_pos(s);
                lemma_pow2_adds(s, k);
                let d = pow2(s);
                lemma_scaled_division(u, d, c);
                let q = u / d;
                let r = u % d;
                assert(2 * (r * c) < d * c <==> 2 * r < d) by (nonlinear_arith)
                    requires
                        c > 0,
                ;
                assert(2 * (r * c) == d * c <==> 2 * r == d) by (nonlinear_arith)
                    requires
                        c > 0,
                ;
                lemma_mul_is_associative(q as int, d as int, c as int);
                lemma_mul_is_associative((q + 1) as int, d as int, c as int);
            }
        }
    }
}

// ---------------------------------------------------------------------------
// Arithmetic

/// `2^n`.
fn power(n: u32) -> (r: u128)
    requires
        n <= 120,
    ensures
        r == pow2(n as nat),
        r <= 0x100_0000_0000_0000_0000_0000_0000_0000,
{
    let mut r: u128 = 1;
    let mut i: u32 = 0;
    proof {
        lemma2_to64();
    }
    while i < n
        invariant
            i <= n <= 120,
            r == pow2(i as nat),
        decreases n - i,
    {
        proof {
            lemma_power_bound(i as nat);
            lemma_pow2_unfold((i + 1) as nat);
        }
        r = r * 2;
        i = i + 1;
    }
    proof {
        lemma_power_bound(n as nat);
    }
    r
}

proof fn lemma_power_bound(n: nat)
    requires
        n <= 120,
    ensures
        pow2(n) <= 0x100_0000_0000_0000_0000_0000_0000_0000,
{
    lemma2_to64();
    lemma2_to64_rest();
    lemma_pow2_adds(60, 60);
    assert(pow2(60) == 0x1000_0000_0000_0000);
    assert(pow2(120) == 0x1000_0000_0000_0000nat * 0x1000_0000_0000_0000nat);
    if n < 120 {
        lemma_pow2_strictly_increases(n, 120);
    }
}

/// Rounds to 53 binary digits: the digits, and how many zeros follow them.
fn round53(p: u128) -> (r: (u64, u32))
    requires
        p < 0x100_0000_0000_0000_0000_0000_0000_0000,
    ensures
        r.0 * pow2(r.1 as nat) == rounded(p as nat),
        r.0 <= 2 * FRACTION,
        r.1 <= 70,
        p > 0 ==> r.0 > 0,
{
    let mut d: u128 = 1;
    let mut t: u32 = 0;
    proof {
        lemma2_to64();
        lemma2_to64_rest();
        lemma_power_bound(120);
        lemma_pow2_adds(60, 60);
    }
    while p / d >= 2 * FRACTION as u128
        invariant
            p < pow2(120),
            d == pow2(t as nat),
            d > 0,
            t <= 68,
            t > 0 ==> p >= pow2((52 + t) as nat),
            pow2(53) == 2 * FRACTION,
            pow2(120) == 0x100_0000_0000_0000_0000_0000_0000_0000,
        decreases 70 - t,
    {
        proof {
            // p >= 2^53 * 2^t, so t is below 67.
            lemma_pow2_adds(53, t as nat);
            assert(p >= (2 * FRACTION) * d) by (nonlinear_arith)
                requires
                    p / d >= 2 * FRACTION,
                    d > 0,
            ;
            if 53 + t >= 120 {
                if 53 + t > 120 {
                    lemma_pow2_strictly_increases(120, (53 + t) as nat);
                }
                assert(false);
            }
            lemma_pow2_unfold((t + 1) as nat);
            lemma_power_bound((t + 1) as nat);
        }
        d = d * 2;
        t = t + 1;
    }
    let q: u128 = p / d;
    let rest: u128 = p % d;
    proof {
        lemma_pow2_pos(t as nat);
        lemma_power_bound(t as nat);
        lemma_fundamental_div_mod(p as int, d as int);
        lemma_pow2_adds(53, t as nat);
        assert(p < (2 * FRACTION) * d) by (nonlinear_arith)
            requires
                p / d < 2 * FRACTION,
                p == d * (p / d) + p % d,
                p % d < d,
                d > 0,
        ;
        if t == 0 {
            lemma_bit_len_small(p as nat, 53);
            assert(p / 1 == p && p % 1 == 0);
        } else {
            assert((53 + t - 1) as nat == (52 + t) as nat);
            lemma_bit_len(p as nat, (53 + t) as nat);
        }
        assert(half_even(p as nat, t as nat) == (if 2 * rest < d || (2 * rest == d && q % 2 == 0) {
            q * d
        } else {
            (q + 1) * d
        }));
        if t > 0 && q == 0 {
            lemma_pow2_adds(52, t as nat);
            assert(p < d) by (nonlinear_arith)
                requires
                    p == d * (p / d) + p % d,
                    p / d == 0,
                    p % d < d,
            ;
            lemma_pow2_strictly_increases(t as nat, (52 + t) as nat);
            assert(false);
        }
    }
    if rest * 2 < d || (rest * 2 == d && q % 2 == 0) {
        (q as u64, t)
    } else {
        ((q + 1) as u64, t)
    }
}

/// How often two goes into a number, `n` times over.
fn halved(p: u128, n: u32) -> (r: u128)
    ensures
        r == p as nat / pow2(n as nat),
{
    let mut r: u128 = p;
    let mut i: u32 = 0;
    proof {
        lemma2_to64();
        assert(p as nat / 1 == p);
    }
    while i < n && r > 0
        invariant
            i <= n,
            r == p as nat / pow2(i as nat),
        decreases n - i,
    {
        proof {
            lemma_pow2_unfold((i + 1) as nat);
            lemma_pow2_pos(i as nat);
            lemma_div_denominator(p as int, pow2(i as nat) as int, 2);
            lemma_mul_is_commutative(2, pow2(i as nat) as int);
        }
        r = r / 2;
        i = i + 1;
    }
    proof {
        if i < n {
            lemma_pow2_pos(i as nat);
            lemma_pow2_pos(n as nat);
            lemma_pow2_strictly_increases(i as nat, n as nat);
            lemma_div_is_ordered_by_denominator(
                p as int,
                pow2(i as nat) as int,
                pow2(n as nat) as int,
            );
            lemma_div_pos_is_pos(p as int, pow2(n as nat) as int);
        }
    }
    r
}

/// A number between zero and one: `digits / 2^places`.
#[derive(Clone, Copy)]
pub struct Part {
    pub digits: u64,
    pub places: u32,
}

impl Part {
    pub open spec fn wf(self) -> bool {
        &&& self.digits <= 2 * FRACTION
        &&& 1 <= self.places <= 1074
    }

    /// The number in units of the smallest positive one.
    pub open spec fn units(self) -> nat {
        self.digits as nat * pow2((1074 - self.places) as nat)
    }
}

fn decoded(bits: u64) -> (r: (u64, u32))
    ensures
        r.0 == mantissa(magnitude(bits)),
        r.1 == scale(magnitude(bits)),
        r.0 < 2 * FRACTION,
        r.1 <= 2046,
        r.1 > 0 ==> r.0 >= FRACTION,
{
    let m: u64 = bits % SIGN;
    if m < FRACTION {
        (m, 0)
    } else {
        assert(m / FRACTION <= 2047) by (nonlinear_arith)
            requires
                m < SIGN,
                SIGN == 2048 * FRACTION,
                FRACTION > 0,
        ;
        assert(m / FRACTION >= 1) by (nonlinear_arith)
            requires
                m >= FRACTION,
                FRACTION > 0,
        ;
        (FRACTION + m % FRACTION, (m / FRACTION - 1) as u32)
    }
}

/// A number held between zero and one.
pub fn part(bits: u64) -> (r: Part)
    ensures
        r.wf(),
        r.units() == normalized(rank(bits)),
{
    proof {
        lemma2_to64();
    }
    if !less(0, bits) || !is_ordered(bits) {
        assert(0 * pow2(1073) == 0);
        Part { digits: 0, places: 1 }
    } else if !less(bits, ONE) {
        proof {
            lemma_pow2_unfold(1074);
        }
        Part { digits: 2, places: 1 }
    } else {
        let (digits, scale) = decoded(bits);
        assert(scale <= 1021) by {
            assert(ONE == 1023 * FRACTION);
            assert(bits < ONE);
            assert(bits / FRACTION < 1023) by (nonlinear_arith)
                requires
                    bits < ONE,
                    ONE == 1023 * FRACTION,
                    FRACTION > 0,
            ;
        }
        let r = Part { digits, places: 1074 - scale };
        assert((1074 - r.places) as nat == scale);
        r
    }
}

/// The far smaller of two numbers vanishes in their rounded sum.
proof fn lemma_vanishes(m: nat, k: nat, small: nat, subtract: bool)
    requires
        FRACTION <= m < 2 * FRACTION,
        k >= 65,
        small < pow2((k - 12) as nat),
    ensures
        rounded(
            if subtract {
                (m * pow2(k) - small) as nat
            } else {
                m * pow2(k) + small
            },
        ) == m * pow2(k),
{
    let d = pow2(k);
    lemma2_to64();
    lemma2_to64_rest();
    assert(pow2(52) == FRACTION);
    assert(pow2(53) == 2 * FRACTION);
    lemma_pow2_adds(52, k);
    lemma_pow2_adds(53, k);
    lemma_pow2_adds((k - 12) as nat, 12);
    lemma_pow2_unfold(k);
    lemma_pow2_unfold((k - 1) as nat);
    let tiny = pow2((k - 12) as nat);
    assert(d == tiny * 4096);
    assert(FRACTION * d <= m * d) by (nonlinear_arith)
        requires
            FRACTION <= m,
    ;
    assert((m + 1) * d <= (2 * FRACTION) * d) by (nonlinear_arith)
        requires
            m + 1 <= 2 * FRACTION,
    ;
    assert((m + 1) * d == m * d + d) by (nonlinear_arith);
    if !subtract || small == 0 {
        let s = m * d + small;
        lemma_bit_len(s, (53 + k) as nat);
        lemma_fundamental_div_mod_converse(s as int, d as int, m as int, small as int);
    } else if m > FRACTION {
        let s = (m * d - small) as nat;
        assert((m - 1) * d == m * d - d) by (nonlinear_arith);
        assert(FRACTION * d <= (m - 1) * d) by (nonlinear_arith)
            requires
                FRACTION <= m - 1,
        ;
        lemma_bit_len(s, (53 + k) as nat);
        lemma_fundamental_div_mod_converse(s as int, d as int, m - 1, d - small);
    } else {
        let s = (m * d - small) as nat;
        let h = pow2((k - 1) as nat);
        lemma_pow2_adds(52, (k - 1) as nat);
        lemma_pow2_adds(51, k);
        assert(d == 2 * h);
        assert(m * d == (2 * FRACTION) * h) by (nonlinear_arith)
            requires
                m == FRACTION,
                d == 2 * h,
        ;
        assert((2 * FRACTION - 1) * h == (2 * FRACTION) * h - h) by (nonlinear_arith);
        lemma_pow2_unfold(52);
        assert(pow2((51 + k) as nat) == pow2(51) * d);
        assert(pow2(51) * 2 == FRACTION);
        assert(pow2(51) * d + pow2(51) * d == FRACTION * d) by (nonlinear_arith)
            requires
                pow2(51) * 2 == FRACTION,
        ;
        assert(pow2(51) * d >= d) by (nonlinear_arith)
            requires
                pow2(51) >= 1,
        ;
        lemma_bit_len(s, (52 + k) as nat);
        lemma_fundamental_div_mod_converse(
            s as int,
            h as int,
            2 * FRACTION - 1,
            h - small,
        );
        assert(((52 + k) - 53) as nat == (k - 1) as nat);
        assert((2 * FRACTION - 1 + 1) * h == m * d) by (nonlinear_arith)
            requires
                m * d == (2 * FRACTION) * h,
        ;
    }
}

/// The sum, or the difference, of two magnitudes, the first at least the
/// second, rounded and held to one.
fn combined(p: u64, q: u64, subtract: bool) -> (r: Part)
    requires
        magnitude(q) <= magnitude(p),
        subtract ==> units(magnitude(q)) < units(magnitude(p)),
        !subtract ==> units(magnitude(p)) > 0,
    ensures
        r.wf(),
        r.units() == {
            let s = if subtract {
                (units(magnitude(p)) - units(magnitude(q))) as nat
            } else {
                units(magnitude(p)) + units(magnitude(q))
            };
            if rounded(s) >= unit() {
                unit()
            } else {
                rounded(s)
            }
        },
{
    let (mp, kp) = decoded(p);
    let (mq, kq) = decoded(q);
    proof {
        lemma2_to64();
        lemma_pow2_unfold(1074);
        assert(kq <= kp) by {
            assert(magnitude(q) / (FRACTION as nat) <= magnitude(p) / (FRACTION as nat)) by {
                lemma_div_is_ordered(magnitude(q) as int, magnitude(p) as int, FRACTION as int);
            }
        }
    }
    let ghost s = if subtract {
        (units(magnitude(p)) - units(magnitude(q))) as nat
    } else {
        units(magnitude(p)) + units(magnitude(q))
    };
    let d: u32 = kp - kq;
    let digits: u64;
    let zeros: u32;
    if d > 64 {
        digits = mp;
        zeros = kp;
        proof {
            lemma_pow2_adds(kq as nat, d as nat);
            lemma_pow2_pos(kq as nat);
            lemma_pow2_adds(53, kq as nat);
            assert(pow2(53) == 2 * FRACTION) by {
                lemma2_to64_rest();
            }
            assert(mq * pow2(kq as nat) < (2 * FRACTION) * pow2(kq as nat)) by (nonlinear_arith)
                requires
                    mq < 2 * FRACTION,
                    pow2(kq as nat) > 0,
            {
            }
            if 53 + kq < kp - 12 {
                lemma_pow2_strictly_increases((53 + kq) as nat, (kp - 12) as nat);
            }
            lemma_vanishes(mp as nat, kp as nat, units(magnitude(q)), subtract);
        }
    } else {
        let shift = power(d);
        proof {
            lemma_pow2_adds(kq as nat, d as nat);
            lemma_pow2_pos(kq as nat);
            lemma_power_bound(64);
            lemma2_to64();
            if d < 64 {
                lemma_pow2_strictly_increases(d as nat, 64);
            }
            assert(shift <= 0x1_0000_0000_0000_0000);
            assert(mp * shift <= (2 * FRACTION) * 0x1_0000_0000_0000_0000) by (nonlinear_arith)
                requires
                    mp <= 2 * FRACTION,
                    shift <= 0x1_0000_0000_0000_0000,
            ;
            assert(units(magnitude(p)) == (mp * shift) * pow2(kq as nat)) by (nonlinear_arith)
                requires
                    units(magnitude(p)) == mp * pow2(kp as nat),
                    pow2(kp as nat) == pow2(kq as nat) * shift,
            ;
        }
        let wide: u128 = mp as u128 * shift;
        if subtract {
            assert(mq < wide) by (nonlinear_arith)
                requires
                    mq * pow2(kq as nat) < wide * pow2(kq as nat),
                    pow2(kq as nat) > 0,
            ;
        }
        let sum: u128 = if subtract {
            wide - mq as u128
        } else {
            wide + mq as u128
        };
        proof {
            if subtract {
                lemma_mul_is_distributive_sub_other_way(
                    pow2(kq as nat) as int,
                    wide as int,
                    mq as int,
                );
            } else {
                lemma_mul_is_distributive_add_other_way(
                    pow2(kq as nat) as int,
                    wide as int,
                    mq as int,
                );
            }
            assert(s == sum as nat * pow2(kq as nat));
            assert(sum > 0) by (nonlinear_arith)
                requires
                    s > 0,
                    s == sum as nat * pow2(kq as nat),
            ;
            lemma_rounded_scales(sum as nat, kq as nat);
        }
        let (q53, t) = round53(sum);
        digits = q53;
        zeros = t + kq;
        proof {
            lemma_pow2_adds(t as nat, kq as nat);
            lemma_mul_is_associative(q53 as int, pow2(t as nat) as int, pow2(kq as nat) as int);
        }
    }
    assert(rounded(s) == digits as nat * pow2(zeros as nat));
    assert(digits > 0);
    if zeros >= 1074 {
        proof {
            if zeros > 1074 {
                lemma_pow2_strictly_increases(1074, zeros as nat);
            }
            assert(digits as nat * pow2(zeros as nat) >= pow2(zeros as nat)) by (nonlinear_arith)
                requires
                    digits >= 1,
            ;
        }
        return Part { digits: 2, places: 1 };
    }
    let places: u32 = 1074 - zeros;
    proof {
        lemma_pow2_adds(places as nat, zeros as nat);
        lemma_pow2_pos(places as nat);
        lemma_pow2_pos(zeros as nat);
    }
    if halved(digits as u128, places) > 0 {
        proof {
            assert(digits >= pow2(places as nat)) by {
                if digits < pow2(places as nat) {
                    lemma_basic_div(digits as int, pow2(places as nat) as int);
                }
            }
            assert(digits as nat * pow2(zeros as nat) >= pow2(places as nat) * pow2(zeros as nat))
                by (nonlinear_arith)
                requires
                    digits >= pow2(places as nat),
            ;
        }
        Part { digits: 2, places: 1 }
    } else {
        proof {
            assert(digits < pow2(places as nat)) by {
                if digits >= pow2(places as nat) {
                    lemma_div_non_zero(digits as int, pow2(places as nat) as int);
                }
            }
            assert(digits as nat * pow2(zeros as nat) < pow2(places as nat) * pow2(zeros as nat))
                by (nonlinear_arith)
                requires
                    digits < pow2(places as nat),
                    pow2(zeros as nat) > 0,
            ;
        }
        Part { digits, places }
    }
}

/// Magnitudes order as the values do.
proof fn lemma_units_ordered(a: nat, b: nat)
    requires
        b < a,
    ensures
        units(b) < units(a),
{
    let f = FRACTION as nat;
    lemma2_to64();
    lemma_fundamental_div_mod(a as int, f as int);
    lemma_fundamental_div_mod(b as int, f as int);
    lemma_pow2_pos(scale(a));
    lemma_pow2_pos(scale(b));
    assert(mantissa(a) * 1 == mantissa(a) && mantissa(b) * 1 == mantissa(b));
    if a < f {
    } else if b < f {
        assert(mantissa(a) * pow2(scale(a)) >= mantissa(a)) by (nonlinear_arith)
            requires
                pow2(scale(a)) >= 1,
        ;
    } else {
        lemma_div_is_ordered(b as int, a as int, f as int);
        assert(b / f >= 1) by (nonlinear_arith)
            requires
                b >= f,
                f > 0,
        ;
        if scale(a) == scale(b) {
            assert(a / f == b / f);
            assert(f * (a / f) == f * (b / f));
            assert(mantissa(b) * pow2(scale(b)) < mantissa(a) * pow2(scale(a))) by (nonlinear_arith)
                requires
                    mantissa(b) < mantissa(a),
                    scale(a) == scale(b),
                    pow2(scale(a)) > 0,
            ;
        } else {
            let e = (scale(b) + 1) as nat;
            lemma_pow2_unfold(e);
            if e < scale(a) {
                lemma_pow2_strictly_increases(e, scale(a));
            }
            assert(mantissa(b) * pow2(scale(b)) < mantissa(a) * pow2(scale(a))) by (nonlinear_arith)
                requires
                    mantissa(b) < 2 * f,
                    mantissa(a) >= f,
                    pow2(scale(a)) >= 2 * pow2(scale(b)),
                    pow2(scale(b)) > 0,
            ;
        }
    }
}

/// The sum of two numbers held between zero and one.
pub fn part_of_sum(a: u64, b: u64) -> (r: Part)
    ensures
        r.wf(),
        r.units() == normalized_sum(rank(a), rank(b)),
{
    let ma: u64 = a % SIGN;
    let mb: u64 = b % SIGN;
    proof {
        let x = magnitude(a);
        let y = magnitude(b);
        lemma2_to64();
        assert(units(0) == 0 * pow2(0));
        if x > y {
            lemma_units_ordered(x, y);
        }
        if y > x {
            lemma_units_ordered(y, x);
        }
        if x > 0 {
            lemma_units_ordered(x, 0);
        }
        if y > 0 {
            lemma_units_ordered(y, 0);
        }
    }
    let nothing = Part { digits: 0, places: 1 };
    assert(nothing.units() == 0 * pow2(1073));
    if !is_ordered(a) || !is_ordered(b) {
        nothing
    } else if a < SIGN && b < SIGN {
        if ma == 0 && mb == 0 {
            nothing
        } else if ma >= mb {
            combined(a, b, false)
        } else {
            combined(b, a, false)
        }
    } else if a < SIGN {
        if ma > mb {
            combined(a, b, true)
        } else {
            nothing
        }
    } else if b < SIGN {
        if mb > ma {
            combined(b, a, true)
        } else {
            nothing
        }
    } else {
        nothing
    }
}

fn saturate(n: u128) -> (r: u32)
    ensures
        r == saturated(n as nat),
{
    if n > u32::MAX as u128 {
        u32::MAX
    } else {
        n as u32
    }
}

/// The rounded product with a whole number, as `r / 2^v.places`.
fn product(v: Part, n: u32) -> (r: u128)
    requires
        v.wf(),
    ensures
        rounded(v.units() * n as nat) == r as nat * pow2((1074 - v.places) as nat),
        r < 0x1000_0000_0000_0000_0000_0000_0000_0000,
{
    let ghost k = (1074 - v.places) as nat;
    assert(v.digits * n <= (2 * FRACTION) * 0xffff_ffff) by (nonlinear_arith)
        requires
            v.digits <= 2 * FRACTION,
            n <= 0xffff_ffff,
    ;
    let p: u128 = v.digits as u128 * n as u128;
    let (digits, zeros) = round53(p);
    proof {
        assert(v.units() * n as nat == p as nat * pow2(k)) by (nonlinear_arith)
            requires
                v.units() == v.digits as nat * pow2(k),
                p == v.digits * n,
        ;
        lemma_rounded_scales(p as nat, k);
        lemma2_to64();
        lemma2_to64_rest();
        lemma_power_bound(70);
        lemma_pow2_adds(35, 35);
        if zeros < 70 {
            lemma_pow2_strictly_increases(zeros as nat, 70);
        }
        assert(pow2(70) == 0x8_0000_0000nat * 0x8_0000_0000nat);
        assert(digits * pow2(zeros as nat) < 0x1000_0000_0000_0000_0000_0000_0000_0000)
            by (nonlinear_arith)
            requires
                digits <= 0x20_0000_0000_0000,
                pow2(zeros as nat) <= 0x40_0000_0000_0000_0000nat,
        ;
    }
    digits as u128 * power(zeros)
}

/// `(v * n).floor()`.
pub fn floor_part(v: Part, n: u32) -> (r: u32)
    requires
        v.wf(),
    ensures
        r == floor_scaled(v.units(), n),
{
    let p = product(v, n);
    proof {
        let k = (1074 - v.places) as nat;
        lemma_pow2_adds(v.places as nat, k);
        lemma_pow2_pos(k);
        lemma_pow2_pos(v.places as nat);
        lemma_scaled_division(p as nat, pow2(v.places as nat), pow2(k));
    }
    saturate(halved(p, v.places))
}

/// `(v * n).round()`.
pub fn round_part(v: Part, n: u32) -> (r: u32)
    requires
        v.wf(),
    ensures
        r == round_scaled(v.units(), n),
{
    let p = product(v, n);
    let half: u128 = halved(p, v.places - 1);
    proof {
        let k = (1074 - v.places) as nat;
        let b = pow2((v.places - 1) as nat);
        let c = pow2(k);
        lemma_pow2_adds(v.places as nat, k);
        lemma_pow2_unfold(v.places as nat);
        lemma_pow2_pos(k);
        lemma_pow2_pos((v.places - 1) as nat);
        // The numerator and the denominator share 2^k.
        let x = p as nat;
        assert(2 * (x * c) + unit() == (2 * x + 2 * b) * c) by (nonlinear_arith)
            requires
                unit() == (2 * b) * c,
        ;
        assert(2 * unit() == (4 * b) * c) by (nonlinear_arith)
            requires
                unit() == (2 * b) * c,
        ;
        lemma_scaled_division(2 * x + 2 * b, 4 * b, c);
        // And what is left shares two.
        assert((x + b) * 2 == 2 * x + 2 * b && (2 * b) * 2 == 4 * b);
        lemma_scaled_division(x + b, 2 * b, 2);
        let h = x / b;
        let r = x % b;
        lemma_fundamental_div_mod(x as int, b as int);
        let y = (h + 1) / 2;
        let z = (h + 1) % 2;
        assert(x + b == y * (2 * b) + (z * b + r)) by (nonlinear_arith)
            requires
                x == b * h + r,
                h + 1 == 2 * y + z,
        ;
        assert(0 <= z * b + r < 2 * b) by (nonlinear_arith)
            requires
                0 <= z <= 1,
                0 <= r < b,
        ;
        lemma_fundamental_div_mod_converse(
            (x + b) as int,
            (2 * b) as int,
            y as int,
            (z * b + r) as int,
        );
        assert(half <= p) by {
            lemma_div_decreases_or_equal(p as nat, b);
        }
    }
    saturate((half + 1) / 2)
}

proof fn lemma_div_decreases_or_equal(x: nat, d: nat)
    requires
        d > 0,
    ensures
        x / d <= x,
{
    lemma_div_nonincreasing(x as int, d as int);
}

} // verus!
