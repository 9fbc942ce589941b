//! The divisors of natural numbers, and the greatest that two numbers share.

use vstd::arithmetic::div_mod::*;
use vstd::arithmetic::mul::*;
use vstd::prelude::*;

verus! {

/// Whether `n` is a multiple of `d`.
pub open spec fn divides(d: nat, n: nat) -> bool {
    if d == 0 {
        n == 0
    } else {
        n % d == 0
    }
}

/// Whether `r` divides two numbers, and is a multiple of whatever does.
pub open spec fn greatest_common(a: nat, b: nat, r: nat) -> bool {
    &&& divides(r, a)
    &&& divides(r, b)
    &&& forall|d: nat| divides(d, a) && divides(d, b) ==> #[trigger] divides(d, r)
}

/// The greatest common divisor.
pub open spec fn common(a: nat, b: nat) -> nat {
    choose|r: nat| greatest_common(a, b, r)
}

/// A number and a remainder share the divisors that the two numbers share.
pub proof fn lemma_divides_rest(d: nat, a: nat, b: nat)
    requires
        b > 0,
        divides(d, b),
    ensures
        divides(d, a) == divides(d, a % b),
{
    let k = b / d;
    lemma_fundamental_div_mod(a as int, b as int);
    lemma_fundamental_div_mod(b as int, d as int);
    assert(a == d * (k * (a / b)) + a % b) by (nonlinear_arith)
        requires
            a == b * (a / b) + a % b,
            b == d * k,
    ;
    lemma_mod_multiples_vanish((k * (a / b)) as int, (a % b) as int, d as int);
}

proof fn lemma_divides_itself(n: nat)
    ensures
        divides(n, n),
        divides(n, 0),
{
    if n > 0 {
        lemma_mod_self_0(n as int);
        lemma_small_mod(0, n);
    }
}

proof fn lemma_greatest_common_exists(a: nat, b: nat) -> (r: nat)
    ensures
        greatest_common(a, b, r),
    decreases b,
{
    if b == 0 {
        lemma_divides_itself(a);
        a
    } else {
        let r = lemma_greatest_common_exists(b, a % b);
        lemma_divides_rest(r, a, b);
        assert forall|d: nat| divides(d, a) && divides(d, b) implies #[trigger] divides(d, r) by {
            lemma_divides_rest(d, a, b);
        }
        r
    }
}

proof fn lemma_divisors_are_no_larger(d: nat, n: nat)
    requires
        divides(d, n),
        n > 0,
    ensures
        0 < d <= n,
{
    if d > n {
        lemma_small_mod(n, d);
    }
}

/// What divides two numbers, and is a multiple of whatever does, is their
/// greatest common divisor.
pub proof fn lemma_common(a: nat, b: nat, r: nat)
    requires
        greatest_common(a, b, r),
    ensures
        common(a, b) == r,
{
    let s = common(a, b);
    assert(greatest_common(a, b, s));
    assert(divides(r, s) && divides(s, r));
    if r > 0 && s > 0 {
        lemma_divisors_are_no_larger(r, s);
        lemma_divisors_are_no_larger(s, r);
    }
}

/// The greatest common divisor divides both numbers; whatever divides both
/// divides it, and so is no larger; and the order of the two does not matter.
pub proof fn the_common_divisor_is_the_greatest(a: nat, b: nat)
    ensures
        greatest_common(a, b, common(a, b)),
        common(b, a) == common(a, b),
        a > 0 || b > 0 ==> {
            &&& common(a, b) > 0
            &&& a % common(a, b) == 0
            &&& b % common(a, b) == 0
            &&& forall|d: nat|
                d > 0 && a % d == 0 && b % d == 0 ==> #[trigger] (common(a, b) % d) == 0 && d
                    <= common(a, b)
        },
{
    let r = lemma_greatest_common_exists(a, b);
    lemma_common(a, b, r);
    assert(greatest_common(b, a, r));
    lemma_common(b, a, r);
    if a > 0 || b > 0 {
        if a > 0 {
            lemma_divisors_are_no_larger(r, a);
        } else {
            lemma_divisors_are_no_larger(r, b);
        }
        assert forall|d: nat| d > 0 && a % d == 0 && b % d == 0 implies #[trigger] (r % d) == 0 && d
            <= r by {
            assert(divides(d, a) && divides(d, b));
            assert(divides(d, r));
            lemma_divisors_are_no_larger(d, r);
        }
    }
}

/// The greatest common divisor is found by taking remainders.
pub proof fn remainders_keep_the_common_divisor(a: nat, b: nat)
    ensures
        common(a, 0) == a,
        b > 0 ==> common(a, b) == common(b, a % b),
{
    lemma_divides_itself(a);
    lemma_common(a, 0, a);
    if b > 0 {
        let r = common(b, a % b);
        the_common_divisor_is_the_greatest(b, a % b);
        lemma_divides_rest(r, a, b);
        assert forall|d: nat| divides(d, a) && divides(d, b) implies #[trigger] divides(d, r) by {
            lemma_divides_rest(d, a, b);
        }
        lemma_common(a, b, r);
    }
}

/// Multiplying both numbers multiplies their greatest common divisor.
pub proof fn lemma_common_scales(a: nat, b: nat, k: nat)
    requires
        k > 0,
    ensures
        common(k * a, k * b) == k * common(a, b),
    decreases b,
{
    remainders_keep_the_common_divisor(a, b);
    remainders_keep_the_common_divisor(k * a, k * b);
    if b == 0 {
        assert(k * b == 0);
    } else {
        lemma_common_scales(b, a % b, k);
        lemma_truncate_middle(a as int, k as int, b as int);
    }
}

/// Two numbers without their greatest common divisor share none above one.
pub proof fn lemma_lowest(a: nat, b: nat)
    requires
        a > 0,
        b > 0,
    ensures
        common(a, b) > 0,
        a == common(a, b) * (a / common(a, b)),
        b == common(a, b) * (b / common(a, b)),
        a / common(a, b) > 0,
        b / common(a, b) > 0,
        common(a / common(a, b), b / common(a, b)) == 1,
{
    let r = common(a, b);
    the_common_divisor_is_the_greatest(a, b);
    let p = a / r;
    let q = b / r;
    lemma_fundamental_div_mod(a as int, r as int);
    lemma_fundamental_div_mod(b as int, r as int);
    assert(p > 0) by (nonlinear_arith)
        requires
            a == r * p,
            a > 0,
    ;
    assert(q > 0) by (nonlinear_arith)
        requires
            b == r * q,
            b > 0,
    ;
    lemma_common_scales(p, q, r);
    assert(common(p, q) == 1) by (nonlinear_arith)
        requires
            r == r * common(p, q),
            r > 0,
    ;
}

/// Two pairs of numbers in the same proportion have the same lowest terms.
pub proof fn lemma_one_proportion(a: nat, b: nat, c: nat, d: nat)
    requires
        a > 0,
        b > 0,
        c > 0,
        d > 0,
    ensures
        a * d == c * b <==> a / common(a, b) == c / common(c, d) && b / common(a, b) == d / common(
            c,
            d,
        ),
{
    let r = common(a, b);
    let s = common(c, d);
    let (p, q) = (a / r, b / r);
    let (x, y) = (c / s, d / s);
    lemma_lowest(a, b);
    lemma_lowest(c, d);
    if a * d == c * b {
        lemma_common_scales(a, b, d);
        lemma_common_scales(c, d, b);
        lemma_mul_is_commutative(a as int, d as int);
        lemma_mul_is_commutative(c as int, b as int);
        lemma_mul_is_commutative(b as int, d as int);
        assert(d * r == b * s);
        assert((s * r) * y == (s * r) * q) by (nonlinear_arith)
            requires
                d * r == b * s,
                d == s * y,
                b == r * q,
        ;
        assert(s * r > 0) by (nonlinear_arith)
            requires
                s > 0,
                r > 0,
        ;
        lemma_mul_equality_converse((s * r) as int, y as int, q as int);
        assert(((s * r) * y) * p == ((s * r) * y) * x) by (nonlinear_arith)
            requires
                a * d == c * b,
                a == r * p,
                b == r * q,
                c == s * x,
                d == s * y,
                y == q,
        ;
        assert((s * r) * y > 0) by (nonlinear_arith)
            requires
                s * r > 0,
                y > 0,
        ;
        lemma_mul_equality_converse(((s * r) * y) as int, p as int, x as int);
    }
    if p == x && q == y {
        assert(a * d == c * b) by (nonlinear_arith)
            requires
                a == r * p,
                b == r * q,
                c == s * p,
                d == s * q,
        ;
    }
}

} // verus!
