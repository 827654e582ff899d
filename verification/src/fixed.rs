//! Fixed-point scalar arithmetic.
//!
//! A scalar is an `i64` counting millionths of a world unit. Multiplication
//! and division rescale by [`SCALE`] and truncate toward zero, so that
//! negating an operand negates the result exactly.

use vstd::prelude::*;

verus! {

/// Number of raw steps in one world unit.
pub const SCALE: i64 = 1_000_000;

/// Truncating (round-toward-zero) integer division; `0` when `b == 0`.
pub open spec fn div_trunc(a: int, b: int) -> int {
    if b == 0 {
        0
    } else {
        let q = abs_int(a) / abs_int(b);
        if (a < 0) == (b < 0) {
            q
        } else {
            -q
        }
    }
}

/// Absolute value of a mathematical integer.
pub open spec fn abs_int(a: int) -> int {
    if a < 0 {
        -a
    } else {
        a
    }
}

/// Product of two fixed-point scalars: `a * b / SCALE`, truncated toward zero.
pub open spec fn fmul(a: int, b: int) -> int {
    div_trunc(a * b, SCALE as int)
}

/// Quotient of two fixed-point scalars: `a * SCALE / b`, truncated toward zero.
pub open spec fn fdiv(a: int, b: int) -> int {
    div_trunc(a * SCALE, b)
}

/// Floor square root of a natural number.
pub open spec fn isqrt_spec(n: nat) -> nat
    decreases n,
{
    if n == 0 {
        0
    } else {
        let r = isqrt_spec((n - 1) as nat);
        if (r + 1) * (r + 1) <= n {
            r + 1
        } else {
            r
        }
    }
}

/// Square root of a non-negative fixed-point scalar, as a fixed-point scalar:
/// the floor square root of `a * SCALE`.
pub open spec fn fsqrt(a: int) -> int
    recommends 0 <= a,
{
    isqrt_spec((a * SCALE) as nat) as int
}

/// `isqrt_spec` is the floor square root.
pub proof fn lemma_isqrt_spec_bounds(n: nat)
    ensures
        isqrt_spec(n) * isqrt_spec(n) <= n,
        n < (isqrt_spec(n) + 1) * (isqrt_spec(n) + 1),
    decreases n,
{
    if n == 0 {
        assert(isqrt_spec(n) == 0);
        assert(isqrt_spec(n) * isqrt_spec(n) <= n) by (nonlinear_arith)
            requires isqrt_spec(n) == 0, n == 0nat,
        ;
        assert(n < (isqrt_spec(n) + 1) * (isqrt_spec(n) + 1)) by (nonlinear_arith)
            requires isqrt_spec(n) == 0, n == 0nat,
        ;
    } else {
        let r = isqrt_spec((n - 1) as nat);
        lemma_isqrt_spec_bounds((n - 1) as nat);
        assert(r * r <= n - 1);
        assert(n - 1 < (r + 1) * (r + 1));
        if (r + 1) * (r + 1) <= n {
            assert(isqrt_spec(n) == r + 1);
            assert(n <= (r + 1) * (r + 1));
            assert((r + 1) * (r + 1) < (r + 1 + 1) * (r + 1 + 1)) by (nonlinear_arith)
                requires r >= 0,
            ;
            assert(isqrt_spec(n) * isqrt_spec(n) <= n);
            assert(n < (isqrt_spec(n) + 1) * (isqrt_spec(n) + 1));
        } else {
            assert(isqrt_spec(n) == r);
            assert(isqrt_spec(n) * isqrt_spec(n) <= n);
            assert(n < (isqrt_spec(n) + 1) * (isqrt_spec(n) + 1));
        }
    }
}

/// Any `r` with `r * r <= n < (r + 1) * (r + 1)` is `isqrt_spec(n)`.
pub proof fn lemma_isqrt_unique(n: nat, r: nat)
    requires
        r * r <= n,
        n < (r + 1) * (r + 1),
    ensures
        r == isqrt_spec(n),
{
    let s = isqrt_spec(n);
    lemma_isqrt_spec_bounds(n);
    if r < s {
        assert((r + 1) * (r + 1) <= s * s) by (nonlinear_arith)
            requires r + 1 <= s,
        ;
    }
    if s < r {
        assert((s + 1) * (s + 1) <= r * r) by (nonlinear_arith)
            requires s + 1 <= r,
        ;
    }
}

/// On non-negative dividends, truncating division is Euclidean division.
pub proof fn lemma_div_trunc_nonneg(p: int, s: int)
    requires
        0 <= p,
        0 < s,
    ensures
        div_trunc(p, s) == p / s,
        0 <= div_trunc(p, s),
{
    vstd::arithmetic::div_mod::lemma_div_pos_is_pos(p, s);
}

/// Negating the dividend negates the truncated quotient.
pub proof fn lemma_div_trunc_neg(p: int, s: int)
    ensures
        div_trunc(-p, s) == -div_trunc(p, s),
{
}

/// The magnitude of a truncated quotient by a positive divisor.
pub proof fn lemma_div_trunc_abs(p: int, s: int)
    requires
        0 < s,
    ensures
        abs_int(div_trunc(p, s)) == abs_int(p) / s,
{
    vstd::arithmetic::div_mod::lemma_div_pos_is_pos(abs_int(p), s);
}

/// Negating a factor negates a fixed-point product.
pub proof fn lemma_fmul_neg(a: int, b: int)
    ensures
        fmul(-a, b) == -fmul(a, b),
        fmul(a, -b) == -fmul(a, b),
{
    assert((-a) * b == -(a * b) && a * (-b) == -(a * b)) by (nonlinear_arith);
    lemma_div_trunc_neg(a * b, SCALE as int);
}

/// One and zero behave as expected under the fixed-point product: `SCALE`
/// (the scalar one) is its identity and zero annihilates it.
pub proof fn lemma_fmul_identity(a: int)
    ensures
        fmul(a, SCALE as int) == a,
        fmul(SCALE as int, a) == a,
        fmul(a, 0) == 0,
        fmul(0, a) == 0,
{
    let s = SCALE as int;
    assert(a * s == s * a && a * 0 == 0 && 0 * a == 0) by (nonlinear_arith);
    assert(a * 0 == 0);
    if a >= 0 {
        lemma_div_trunc_nonneg(a * s, s);
        vstd::arithmetic::div_mod::lemma_div_by_multiple(a, s);
        assert(a * s == s * a) by (nonlinear_arith);
    } else {
        lemma_div_trunc_neg(-(a * s), s);
        assert(-(a * s) == (-a) * s) by (nonlinear_arith);
        lemma_div_trunc_nonneg((-a) * s, s);
        vstd::arithmetic::div_mod::lemma_div_by_multiple(-a, s);
    }
}

/// Two-sided bounds on a truncated quotient, stated over the product with
/// the divisor so that linear reasoning can chain them.
pub proof fn lemma_div_trunc_product_bounds(p: int, s: int)
    requires
        0 < s,
    ensures
        p >= 0 ==> 0 <= div_trunc(p, s) && s * div_trunc(p, s) <= p && s * div_trunc(p, s) > p
            - s,
        p <= 0 ==> div_trunc(p, s) <= 0 && s * div_trunc(p, s) >= p && s * div_trunc(p, s) < p
            + s,
{
    let a = abs_int(p);
    let q = a / s;
    vstd::arithmetic::div_mod::lemma_fundamental_div_mod(a, s);
    vstd::arithmetic::div_mod::lemma_mod_division_less_than_divisor(a, s);
    vstd::arithmetic::div_mod::lemma_div_pos_is_pos(a, s);
    assert(a == s * q + a % s);
    if p >= 0 {
        assert(div_trunc(p, s) == q);
    } else {
        assert(div_trunc(p, s) == -q);
        assert(s * (-q) == -(s * q)) by (nonlinear_arith);
    }
}

/// A factor in the unit range shrinks a non-negative scalar.
pub proof fn lemma_fmul_unit_interval(a: int, b: int)
    requires
        0 <= a <= SCALE,
        0 <= b,
    ensures
        0 <= fmul(a, b) <= b,
{
    assert(0 <= a * b <= SCALE * b) by (nonlinear_arith)
        requires 0 <= a <= SCALE, 0 <= b,
    ;
    lemma_div_trunc_nonneg(a * b, SCALE as int);
    vstd::arithmetic::div_mod::lemma_div_is_ordered(a * b, SCALE * b, SCALE as int);
    vstd::arithmetic::div_mod::lemma_div_by_multiple(b, SCALE as int);
    assert(SCALE * b == b * SCALE) by (nonlinear_arith);
}

/// A factor of magnitude at most `q` units scales a bounded scalar by at
/// most `q`.
pub proof fn lemma_fmul_linear_bound(a: int, b: int, q: int, m: int)
    requires
        abs_int(a) <= q * SCALE,
        abs_int(b) <= m,
        0 <= q,
        0 <= m,
    ensures
        abs_int(fmul(a, b)) <= q * m,
{
    assert(abs_int(a * b) == abs_int(a) * abs_int(b)) by (nonlinear_arith);
    assert(abs_int(a) * abs_int(b) <= (q * m) * SCALE) by (nonlinear_arith)
        requires
            0 <= abs_int(a) <= q * SCALE,
            0 <= abs_int(b) <= m,
            0 <= q,
            0 <= m,
            SCALE == 1_000_000,
    ;
    lemma_div_trunc_abs(a * b, SCALE as int);
    vstd::arithmetic::div_mod::lemma_div_is_ordered(abs_int(a * b), (q * m) * SCALE,
        SCALE as int);
    vstd::arithmetic::div_mod::lemma_div_by_multiple(q * m, SCALE as int);
}

/// Absolute values pass through products with a positive scalar, and a
/// square is its own absolute square.
pub proof fn lemma_abs_mul_pos(x: int, s: int)
    requires
        0 < s,
    ensures
        abs_int(x * s) == abs_int(x) * s,
        0 <= x * x,
        abs_int(x) * abs_int(x) == x * x,
{
    if x >= 0 {
        assert(x * s >= 0 && x * x >= 0) by (nonlinear_arith)
            requires x >= 0, s > 0,
        ;
    } else {
        assert(x * s < 0 && (-x) * s == -(x * s) && (-x) * (-x) == x * x && x * x >= 0)
            by (nonlinear_arith)
            requires x < 0, s > 0,
        ;
    }
}

/// A fixed-point square is non-negative.
pub proof fn lemma_fmul_self_nonneg(a: int)
    ensures
        0 <= fmul(a, a),
{
    assert(0 <= a * a) by (nonlinear_arith);
    lemma_div_trunc_nonneg(a * a, SCALE as int);
}

/// Magnitude bound on a fixed-point product from bounds on its factors.
pub proof fn lemma_fmul_range(a: int, b: int, ba: int, bb: int)
    requires
        abs_int(a) <= ba,
        abs_int(b) <= bb,
    ensures
        abs_int(fmul(a, b)) <= (ba * bb) / (SCALE as int),
{
    assert(abs_int(a * b) == abs_int(a) * abs_int(b)) by (nonlinear_arith);
    assert(abs_int(a) * abs_int(b) <= ba * bb) by (nonlinear_arith)
        requires 0 <= abs_int(a) <= ba, 0 <= abs_int(b) <= bb,
    ;
    lemma_div_trunc_abs(a * b, SCALE as int);
    vstd::arithmetic::div_mod::lemma_div_is_ordered(abs_int(a * b), ba * bb, SCALE as int);
}

/// A fixed-point product of a non-negative scalar with a scalar below one
/// stays below the first factor.
pub proof fn lemma_fmul_scale_range(d: int, u: int)
    requires
        1 <= d,
        0 <= u < SCALE,
    ensures
        0 <= fmul(d, u) < d,
{
    let s = SCALE as int;
    assert(0 <= d * u && d * u < d * s) by (nonlinear_arith)
        requires 1 <= d, 0 <= u < s,
    ;
    lemma_div_trunc_nonneg(d * u, s);
    vstd::arithmetic::div_mod::lemma_multiply_divide_lt(d * u, s, d);
}

/// Magnitude of a fixed-point quotient by a positive divisor.
pub proof fn lemma_fdiv_abs(a: int, b: int)
    requires
        b != 0,
    ensures
        abs_int(fdiv(a, b)) == (abs_int(a) * SCALE) / abs_int(b),
{
    assert(abs_int(a * SCALE) == abs_int(a) * SCALE) by (nonlinear_arith)
        requires SCALE == 1_000_000,
    ;
    if b > 0 {
        lemma_div_trunc_abs(a * SCALE, b);
    } else {
        lemma_div_trunc_abs(a * SCALE, -b);
        assert(abs_int(div_trunc(a * SCALE, b)) == abs_int(div_trunc(a * SCALE, -b)));
    }
}

/// A fixed-point quotient has magnitude at most the dividend's magnitude
/// times the scale.
pub proof fn lemma_div_abs_shrinks(a: int, s: int, ba: int)
    requires
        s != 0,
        abs_int(a) <= ba,
    ensures
        abs_int(fdiv(a, s)) <= ba * (SCALE as int),
{
    lemma_fdiv_abs(a, s);
    assert(0 <= abs_int(a) * SCALE) by (nonlinear_arith)
        requires 0 <= abs_int(a), SCALE == 1_000_000,
    ;
    vstd::arithmetic::div_mod::lemma_div_nonincreasing(abs_int(a) * SCALE, abs_int(s));
    assert(abs_int(a) * SCALE <= ba * (SCALE as int)) by (nonlinear_arith)
        requires abs_int(a) <= ba, SCALE == 1_000_000,
    ;
}

/// Magnitude bound on a fixed-point quotient from a bound on the dividend and
/// a lower bound on the divisor's magnitude.
pub proof fn lemma_fdiv_range(a: int, b: int, ba: int, bmin: int)
    requires
        abs_int(a) <= ba,
        abs_int(b) >= bmin,
        bmin >= 1,
    ensures
        abs_int(fdiv(a, b)) <= (ba * SCALE) / bmin,
{
    lemma_fdiv_abs(a, b);
    assert(0 <= abs_int(a) * SCALE <= ba * SCALE) by (nonlinear_arith)
        requires 0 <= abs_int(a) <= ba, SCALE == 1_000_000,
    ;
    vstd::arithmetic::div_mod::lemma_div_is_ordered_by_denominator(
        abs_int(a) * SCALE, bmin, abs_int(b));
    vstd::arithmetic::div_mod::lemma_div_is_ordered(abs_int(a) * SCALE, ba * SCALE, bmin);
}

/// Lower bound on a fixed-point quotient of positive scalars from an upper
/// bound on the divisor.
pub proof fn lemma_fdiv_pos_lower(a: int, b: int, bmax: int)
    requires
        0 < a,
        0 < b <= bmax,
    ensures
        fdiv(a, b) >= (a * SCALE) / bmax,
        fdiv(a, b) >= 0,
{
    assert(0 < a * SCALE) by (nonlinear_arith)
        requires 0 < a, SCALE == 1_000_000,
    ;
    lemma_div_trunc_nonneg(a * SCALE, b);
    vstd::arithmetic::div_mod::lemma_div_is_ordered_by_denominator(a * SCALE, b, bmax);
    vstd::arithmetic::div_mod::lemma_div_pos_is_pos(a * SCALE, b);
}

/// Upper bound on a fixed-point square root: if `a * SCALE < m * m` then the
/// root is below `m`.
pub proof fn lemma_fsqrt_upper(a: int, m: int)
    requires
        0 <= a,
        0 <= m,
        a * SCALE < m * m,
    ensures
        fsqrt(a) < m,
{
    let n = (a * SCALE) as nat;
    assert(0 <= a * SCALE) by (nonlinear_arith)
        requires 0 <= a, SCALE == 1_000_000,
    ;
    lemma_isqrt_spec_bounds(n);
    let r = isqrt_spec(n);
    if r >= m {
        assert(m * m <= r * r) by (nonlinear_arith)
            requires 0 <= m <= r,
        ;
    }
}

/// Multiplying and then dividing by the same scalar is the identity when the
/// product incurs no truncation.
pub proof fn lemma_fixed_mul_div_cancel(x: int, s: int)
    requires
        s != 0,
        (x * s) % (SCALE as int) == 0,
    ensures
        fdiv(fmul(x, s), s) == x,
{
    let sc = SCALE as int;
    let p = x * s;
    let k = p / sc;
    vstd::arithmetic::div_mod::lemma_fundamental_div_mod(p, sc);
    assert(p == sc * k);
    // truncating division agrees with Euclidean division on exact multiples
    if p >= 0 {
        lemma_div_trunc_nonneg(p, sc);
    } else {
        lemma_div_trunc_neg(-p, sc);
        vstd::arithmetic::div_mod::lemma_fundamental_div_mod(-p, sc);
        assert((-p) % sc == 0) by {
            vstd::arithmetic::div_mod::lemma_mod_neg_neg(p, sc);
            assert((-p) % sc == (sc - p % sc) % sc);
            vstd::arithmetic::div_mod::lemma_mod_self_0(sc);
            vstd::arithmetic::div_mod::lemma_mod_multiples_basic(1, sc);
        }
        lemma_div_trunc_nonneg(-p, sc);
        assert((-p) / sc == -k) by {
            assert(-p == sc * (-k));
            vstd::arithmetic::div_mod::lemma_fundamental_div_mod_converse_div(-p, sc, -k, 0);
        }
        assert(div_trunc(p, sc) == k);
    }
    assert(fmul(x, s) == k);
    assert(k * sc == p);
    // now fdiv(k, s) == div_trunc(x * s, s) == x
    let q = abs_int(x * s) / abs_int(s);
    assert(abs_int(x * s) == abs_int(x) * abs_int(s)) by (nonlinear_arith);
    vstd::arithmetic::div_mod::lemma_div_by_multiple(abs_int(x), abs_int(s));
    assert(q == abs_int(x));
    if x == 0 {
        assert(p == 0) by (nonlinear_arith)
            requires p == x * s, x == 0,
        ;
        assert(div_trunc(p, s) == 0);
    } else {
        assert((x * s < 0) == ((x < 0) != (s < 0))) by (nonlinear_arith)
            requires x != 0, s != 0,
        ;
        assert(div_trunc(x * s, s) == x);
    }
    assert(fdiv(k, s) == div_trunc(k * sc, s));
}

/// Truncating division agrees with Euclidean division on exact multiples,
/// whatever the signs.
proof fn lemma_div_trunc_exact(p: int, s: int, k: int)
    requires
        s != 0,
        p == s * k,
    ensures
        div_trunc(p, s) == k,
{
    if p == 0 {
        assert(k == 0) by (nonlinear_arith)
            requires s != 0, s * k == 0,
        ;
    } else {
        assert(abs_int(p) == abs_int(s) * abs_int(k)) by (nonlinear_arith)
            requires p == s * k,
        ;
        vstd::arithmetic::div_mod::lemma_div_by_multiple(abs_int(k), abs_int(s));
        assert(abs_int(k) * abs_int(s) == abs_int(s) * abs_int(k)) by (nonlinear_arith);
        assert(k != 0) by (nonlinear_arith)
            requires p == s * k, p != 0,
        ;
        assert(((p < 0) == (s < 0)) == (k > 0)) by (nonlinear_arith)
            requires p == s * k, p != 0, s != 0, k != 0,
        ;
    }
}

/// Dividing and then multiplying by the same scalar is the identity when the
/// scaled dividend is an exact multiple of the divisor.
pub proof fn lemma_fixed_div_mul_cancel(x: int, s: int)
    requires
        s != 0,
        (x * SCALE) % s == 0,
    ensures
        fmul(fdiv(x, s), s) == x,
{
    let sc = SCALE as int;
    let p = x * sc;
    let k = p / s;
    vstd::arithmetic::div_mod::lemma_fundamental_div_mod(p, s);
    lemma_div_trunc_exact(p, s, k);
    assert(fdiv(x, s) == k);
    assert(k * s == p) by (nonlinear_arith)
        requires p == s * k,
    ;
    lemma_fmul_identity(x);
    assert(x * sc == sc * x) by (nonlinear_arith);
}

/// Floor square root by binary search; the domain bound keeps the squared
/// midpoint within `u128`.
pub fn isqrt(n: u128) -> (r: u128)
    requires
        n < 1267650600228229401496703205376u128,  // 2^100
    ensures
        r == isqrt_spec(n as nat),
        r < 1125899906842624u128,  // 2^50
{
    let mut lo: u128 = 0;
    let mut hi: u128 = 1125899906842624u128;  // 2^50
    while lo + 1 < hi
        invariant
            lo < hi,
            hi <= 1125899906842624u128,
            lo * lo <= n,
            n < hi * hi,
        decreases hi - lo,
    {
        let mid = lo + (hi - lo) / 2;
        assert(lo < mid < hi);
        assert(mid * mid < 1267650600228229401496703205376u128) by (nonlinear_arith)
            requires 0 <= mid < 1125899906842624u128,
        ;
        if mid * mid <= n {
            lo = mid;
        } else {
            hi = mid;
        }
    }
    proof {
        lemma_isqrt_unique(n as nat, lo as nat);
    }
    lo
}

/// Wide truncating division with an exact contract; truncates toward zero.
pub fn div_trunc_wide(n: i128, d: i128) -> (r: i128)
    requires
        0 < d,
        i128::MIN < n,
    ensures
        r == div_trunc(n as int, d as int),
{
    if n >= 0 {
        let q = (n as u128) / (d as u128);
        proof {
            vstd::arithmetic::div_mod::lemma_div_is_ordered(n as int, i128::MAX as int, d as int);
            vstd::arithmetic::div_mod::lemma_div_pos_is_pos(n as int, d as int);
        }
        q as i128
    } else {
        let q = ((-n) as u128) / (d as u128);
        proof {
            vstd::arithmetic::div_mod::lemma_div_is_ordered(-n as int, i128::MAX as int, d as int);
            vstd::arithmetic::div_mod::lemma_div_pos_is_pos(-n as int, d as int);
        }
        -(q as i128)
    }
}

/// Fixed-point product with an exact contract; truncates toward zero.
pub fn mul_fixed(a: i64, b: i64) -> (r: i64)
    requires
        i64::MIN <= fmul(a as int, b as int) <= i64::MAX,
    ensures
        r == fmul(a as int, b as int),
{
    proof {
        assert((a as int) * (b as int) <= 85070591730234615865843651857942052864int
            && -85070591730234615865843651857942052864int <= (a as int) * (b as int))
            by (nonlinear_arith)
            requires
                -9223372036854775808 <= a as int <= 9223372036854775807,
                -9223372036854775808 <= b as int <= 9223372036854775807,
        ;
    }
    let p: i128 = (a as i128) * (b as i128);
    let q: i128 = if p >= 0 {
        ((p as u128) / (SCALE as u128)) as i128
    } else {
        -((((-p) as u128) / (SCALE as u128)) as i128)
    };
    assert(q == fmul(a as int, b as int));
    q as i64
}

/// Fixed-point quotient with an exact contract; truncates toward zero.
pub fn div_fixed(a: i64, b: i64) -> (r: i64)
    requires
        b != 0,
        i64::MIN <= fdiv(a as int, b as int) <= i64::MAX,
    ensures
        r == fdiv(a as int, b as int),
{
    let n: i128 = (a as i128) * (SCALE as i128);
    let d: i128 = b as i128;
    let na: u128 = if n >= 0 { n as u128 } else { (-n) as u128 };
    let da: u128 = if d >= 0 { d as u128 } else { (-d) as u128 };
    let qa: u128 = na / da;
    assert(qa <= na) by (nonlinear_arith)
        requires da >= 1, qa == na / da,
    ;
    let q: i128 = if (n < 0) == (d < 0) {
        qa as i128
    } else {
        -(qa as i128)
    };
    assert(q == fdiv(a as int, b as int));
    q as i64
}

/// Fixed-point square root of a non-negative scalar.
pub fn sqrt_fixed(a: i64) -> (r: i64)
    requires
        0 <= a,
    ensures
        r == fsqrt(a as int),
        0 <= r,
{
    let n: u128 = (a as u128) * (SCALE as u128);
    assert(n < 1267650600228229401496703205376u128) by (nonlinear_arith)
        requires n == (a as u128) * (SCALE as u128), 0 <= a <= i64::MAX, SCALE == 1_000_000,
    ;
    let r = isqrt(n);
    r as i64
}

/// Clamps `x` into `[min, max]`.
pub fn clamp(x: i64, min: i64, max: i64) -> (r: i64)
    ensures
        x < min ==> r == min,
        x > max && x >= min ==> r == max,
        min <= x <= max ==> r == x,
{
    if x < min {
        return min;
    }
    if x > max {
        return max;
    }
    x
}

} // verus!
