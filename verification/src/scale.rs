//! Mapping of pointer positions from a viewer's rendered viewport to host
//! display pixels.

use vstd::prelude::*;

verus! {

/// `n / d` rounded to the nearest integer, halves away from zero.
pub open spec fn round_div(n: int, d: int) -> int
    recommends
        d > 0,
{
    if n >= 0 {
        (2 * n + d) / (2 * d)
    } else {
        -((2 * (-n) + d) / (2 * d))
    }
}

/// One viewport coordinate `v` in host pixels: `v * host / viewport`, rounded.
pub open spec fn scaled(v: int, host: int, viewport: int) -> int
    recommends
        viewport > 0,
{
    round_div(v * host, viewport)
}

/// The host display's native pixel height, resolved once at startup and only
/// read afterwards.
#[derive(Clone, Copy, Debug, PartialEq, Eq, Structural)]
pub struct HostDisplayMetrics {
    pub height: u32,
}

impl HostDisplayMetrics {
    pub fn new(height: u32) -> (metrics: HostDisplayMetrics)
        ensures
            metrics.height == height,
    {
        HostDisplayMetrics { height }
    }

    /// Maps a position reported relative to a viewport of height
    /// `viewport_height` to host pixels. Both coordinates are scaled by the one
    /// ratio of the host height to the viewport height. A viewport of height
    /// zero has no ratio, and gives `None`.
    pub fn scale(&self, position: (i32, i32), viewport_height: u32) -> (host_position: Option<
        (i64, i64),
    >)
        ensures
            viewport_height == 0 ==> host_position is None,
            viewport_height > 0 ==> host_position == Some(
                (
                    scaled(position.0 as int, self.height as int, viewport_height as int) as i64,
                    scaled(position.1 as int, self.height as int, viewport_height as int) as i64,
                ),
            ),
    {
        if viewport_height == 0 {
            return None;
        }
        let x = scale_coordinate(position.0, self.height, viewport_height);
        let y = scale_coordinate(position.1, self.height, viewport_height);
        Some((x, y))
    }
}

/// Scales one coordinate; the result always fits in an `i64`.
pub fn scale_coordinate(v: i32, host: u32, viewport: u32) -> (r: i64)
    requires
        viewport > 0,
    ensures
        r == scaled(v as int, host as int, viewport as int),
{
    proof {
        lemma_product_bound(v as int, host as int);
        lemma_round_div_bound(v as int * host as int, viewport as int);
    }
    let n: i128 = (v as i128) * (host as i128);
    let d: i128 = viewport as i128;
    if n >= 0 {
        let q: i128 = (2 * n + d) / (2 * d);
        assert(q == round_div(n as int, d as int));
        q as i64
    } else {
        let q: i128 = (2 * (-n) + d) / (2 * d);
        assert(-q == round_div(n as int, d as int));
        (-q) as i64
    }
}

proof fn lemma_product_bound(v: int, host: int)
    requires
        -0x8000_0000 <= v < 0x8000_0000,
        0 <= host < 0x1_0000_0000,
    ensures
        -0x8000_0000 * 0xFFFF_FFFF <= v * host <= 0x7FFF_FFFF * 0xFFFF_FFFF,
{
    assert(-0x8000_0000 * 0xFFFF_FFFF <= v * host <= 0x7FFF_FFFF * 0xFFFF_FFFF)
        by (nonlinear_arith)
        requires
            -0x8000_0000 <= v < 0x8000_0000,
            0 <= host < 0x1_0000_0000,
    ;
}

/// Rounding never moves a quotient past its numerator.
pub proof fn lemma_round_div_bound(n: int, d: int)
    requires
        d > 0,
    ensures
        n >= 0 ==> 0 <= round_div(n, d) <= n,
        n < 0 ==> n <= round_div(n, d) <= 0,
{
    if n >= 0 {
        assert(0 <= (2 * n + d) / (2 * d) <= n) by (nonlinear_arith)
            requires
                n >= 0,
                d > 0,
        ;
    } else {
        let m = -n;
        assert(0 <= (2 * m + d) / (2 * d) <= m) by (nonlinear_arith)
            requires
                m >= 0,
                d > 0,
        ;
    }
}

/// The scaled coordinate is the exact quotient wherever the division leaves
/// no remainder.
pub proof fn lemma_scaled_exact(v: int, host: int, viewport: int)
    requires
        viewport > 0,
        (v * host) % viewport == 0,
    ensures
        scaled(v, host, viewport) * viewport == v * host,
{
    lemma_round_div_exact(v * host, viewport);
}

/// The scaled coordinate lies within half a pixel of the exact quotient.
pub proof fn lemma_scaled_nearest(v: int, host: int, viewport: int)
    requires
        viewport > 0,
    ensures
        -viewport <= 2 * (scaled(v, host, viewport) * viewport - v * host) <= viewport,
{
    lemma_round_div_nearest(v * host, viewport);
}

/// Scaling does not change when the host height and the viewport height grow
/// by one common factor, such as when both double.
pub proof fn lemma_scale_invariant(v: int, host: int, viewport: int, factor: int)
    requires
        viewport > 0,
        factor > 0,
    ensures
        scaled(v, factor * host, factor * viewport) == scaled(v, host, viewport),
{
    let n = v * host;
    let d = viewport;
    assert(v * (factor * host) == factor * n) by (nonlinear_arith)
        requires
            n == v * host,
    ;
    lemma_round_div_common_factor(n, d, factor);
}

/// Scaling is additive over positions that scale without a remainder.
pub proof fn lemma_scale_additive(a: int, b: int, host: int, viewport: int)
    requires
        viewport > 0,
        (a * host) % viewport == 0,
        (b * host) % viewport == 0,
    ensures
        scaled(a + b, host, viewport) == scaled(a, host, viewport) + scaled(b, host, viewport),
{
    let p = scaled(a, host, viewport);
    let q = scaled(b, host, viewport);
    lemma_scaled_exact(a, host, viewport);
    lemma_scaled_exact(b, host, viewport);
    assert((a + b) * host == (p + q) * viewport) by (nonlinear_arith)
        requires
            p * viewport == a * host,
            q * viewport == b * host,
    ;
    lemma_round_div_multiple(p + q, viewport);
}

/// Scaling is homogeneous over a position that scales without a remainder:
/// a position `times` as far from the origin maps `times` as far.
pub proof fn lemma_scale_homogeneous(times: int, v: int, host: int, viewport: int)
    requires
        viewport > 0,
        (v * host) % viewport == 0,
    ensures
        scaled(times * v, host, viewport) == times * scaled(v, host, viewport),
{
    let p = scaled(v, host, viewport);
    lemma_scaled_exact(v, host, viewport);
    assert((times * v) * host == (times * p) * viewport) by (nonlinear_arith)
        requires
            p * viewport == v * host,
    ;
    lemma_round_div_multiple(times * p, viewport);
}

/// The sum of two scaled positions is within one pixel of the scaled sum,
/// whatever the remainders.
pub proof fn lemma_scale_additive_within_one(a: int, b: int, host: int, viewport: int)
    requires
        viewport > 0,
    ensures
        -1 <= scaled(a + b, host, viewport) - scaled(a, host, viewport) - scaled(
            b,
            host,
            viewport,
        ) <= 1,
{
    let p = scaled(a, host, viewport);
    let q = scaled(b, host, viewport);
    let r = scaled(a + b, host, viewport);
    lemma_scaled_nearest(a, host, viewport);
    lemma_scaled_nearest(b, host, viewport);
    lemma_scaled_nearest(a + b, host, viewport);
    assert((a + b) * host == a * host + b * host) by (nonlinear_arith);
    let e = r - p - q;
    assert(e * viewport == r * viewport - p * viewport - q * viewport) by (nonlinear_arith)
        requires
            e == r - p - q,
    ;
    assert(-3 * viewport <= 2 * (e * viewport) <= 3 * viewport);
    assert(-1 <= e <= 1) by (nonlinear_arith)
        requires
            viewport > 0,
            -3 * viewport <= 2 * (e * viewport) <= 3 * viewport,
    ;
}

/// A multiple of the divisor divides without rounding.
pub proof fn lemma_round_div_multiple(q: int, d: int)
    requires
        d > 0,
    ensures
        round_div(q * d, d) == q,
{
    if q * d >= 0 {
        assert(q >= 0) by (nonlinear_arith)
            requires
                q * d >= 0,
                d > 0,
        ;
        assert((2 * (q * d) + d) / (2 * d) == q) by (nonlinear_arith)
            requires
                d > 0,
        ;
    } else {
        let m = -q;
        assert(-(q * d) == m * d) by (nonlinear_arith)
            requires
                m == -q,
        ;
        assert((2 * (m * d) + d) / (2 * d) == m) by (nonlinear_arith)
            requires
                d > 0,
        ;
    }
}

proof fn lemma_round_div_exact(n: int, d: int)
    requires
        d > 0,
        n % d == 0,
    ensures
        round_div(n, d) * d == n,
{
    let q = n / d;
    assert(n == q * d) by (nonlinear_arith)
        requires
            d > 0,
            n % d == 0,
            q == n / d,
    ;
    lemma_round_div_multiple(q, d);
}

proof fn lemma_round_div_nearest(n: int, d: int)
    requires
        d > 0,
    ensures
        -d <= 2 * (round_div(n, d) * d - n) <= d,
{
    if n >= 0 {
        let q = (2 * n + d) / (2 * d);
        assert(q * (2 * d) <= 2 * n + d < q * (2 * d) + 2 * d) by (nonlinear_arith)
            requires
                d > 0,
                q == (2 * n + d) / (2 * d),
        ;
        assert(q * (2 * d) == 2 * (q * d)) by (nonlinear_arith);
    } else {
        let m = -n;
        let q = (2 * m + d) / (2 * d);
        assert(q * (2 * d) <= 2 * m + d < q * (2 * d) + 2 * d) by (nonlinear_arith)
            requires
                d > 0,
                q == (2 * m + d) / (2 * d),
        ;
        assert(q * (2 * d) == 2 * (q * d)) by (nonlinear_arith);
        assert((-q) * d == -(q * d)) by (nonlinear_arith);
    }
}

proof fn lemma_round_div_common_factor(n: int, d: int, k: int)
    requires
        d > 0,
        k > 0,
    ensures
        round_div(k * n, k * d) == round_div(n, d),
{
    assert(k * d > 0) by (nonlinear_arith)
        requires
            d > 0,
            k > 0,
    ;
    if n >= 0 {
        assert(k * n >= 0) by (nonlinear_arith)
            requires
                n >= 0,
                k > 0,
        ;
        lemma_quotient_common_factor(2 * n + d, 2 * d, k);
        assert(2 * (k * n) + k * d == k * (2 * n + d)) by (nonlinear_arith);
        assert(2 * (k * d) == k * (2 * d)) by (nonlinear_arith);
    } else {
        let m = -n;
        assert(k * n < 0) by (nonlinear_arith)
            requires
                n < 0,
                k > 0,
        ;
        assert(-(k * n) == k * m) by (nonlinear_arith)
            requires
                m == -n,
        ;
        lemma_quotient_common_factor(2 * m + d, 2 * d, k);
        assert(2 * (k * m) + k * d == k * (2 * m + d)) by (nonlinear_arith);
        assert(2 * (k * d) == k * (2 * d)) by (nonlinear_arith);
    }
}

/// A common factor of a dividend and a divisor cancels.
proof fn lemma_quotient_common_factor(x: int, y: int, k: int)
    requires
        x >= 0,
        y > 0,
        k > 0,
    ensures
        (k * x) / (k * y) == x / y,
{
    let q = x / y;
    let r = x % y;
    assert(x == q * y + r && 0 <= r < y) by (nonlinear_arith)
        requires
            y > 0,
            q == x / y,
            r == x % y,
    ;
    assert(k * x == q * (k * y) + k * r) by (nonlinear_arith)
        requires
            x == q * y + r,
    ;
    assert(0 <= k * r < k * y) by (nonlinear_arith)
        requires
            0 <= r < y,
            k > 0,
    ;
    vstd::arithmetic::div_mod::lemma_fundamental_div_mod_converse(k * x, k * y, q, k * r);
}

} // verus!
