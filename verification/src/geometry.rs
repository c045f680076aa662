//! Points, distances and unit vectors in fixed-point arithmetic.

use vstd::prelude::*;
use crate::units::{in_world, MICRO};

verus! {

/// A position in sub-units.
#[derive(Clone, Copy, Debug, PartialEq, Eq)]
pub struct Point {
    pub x: i64,
    pub y: i64,
}

/// The mathematical position that a `Point` stands for.
pub struct Pos {
    pub x: int,
    pub y: int,
}

impl View for Point {
    type V = Pos;

    open spec fn view(&self) -> Pos {
        Pos { x: self.x as int, y: self.y as int }
    }
}

/// The views of the items of a sequence, in order.
pub open spec fn views_of<T: View>(s: Seq<T>) -> Seq<T::V> {
    Seq::new(s.len(), |i: int| s[i]@)
}

/// Squared Euclidean distance between two positions.
pub open spec fn dist2(a: Pos, b: Pos) -> int {
    (a.x - b.x) * (a.x - b.x) + (a.y - b.y) * (a.y - b.y)
}

/// Whether two positions are strictly closer than `range`.
pub open spec fn within(a: Pos, b: Pos, range: int) -> bool {
    dist2(a, b) < range * range
}

/// `c` brought into the interval from `lo` to `hi`.
pub open spec fn clamped(c: int, lo: int, hi: int) -> int {
    if c < lo {
        lo
    } else if c > hi {
        hi
    } else {
        c
    }
}

/// Whether `p` millionths is the ratio `a / sqrt(n)` rounded to the nearest
/// millionth, a half going up: that is
/// `p - 1/2 <= 1_000_000 * a / sqrt(n) < p + 1/2`, written without the root.
pub open spec fn rounds_to(a: int, n: int, p: int) -> bool {
    &&& 0 <= p
    &&& p > 0 ==> (2 * p - 1) * (2 * p - 1) * n <= 4 * MICRO * MICRO * (a * a)
    &&& 4 * MICRO * MICRO * (a * a) < (2 * p + 1) * (2 * p + 1) * n
}

/// The ratio `a / sqrt(n)` in millionths, rounded to the nearest, a half
/// going up.
pub open spec fn nearest(a: int, n: int) -> int {
    choose|p: int| rounds_to(a, n, p)
}

/// The ratio `c / sqrt(n)` in millionths, rounded to the nearest, a half
/// going away from zero.
pub open spec fn component(c: int, n: int) -> int {
    if c >= 0 {
        nearest(c, n)
    } else {
        -nearest(-c, n)
    }
}

/// The unit vector from `from` toward `to`, each component rounded to the
/// nearest millionth; `None` where the two positions coincide.
pub open spec fn unit_toward(from: Pos, to: Pos) -> Option<(int, int)> {
    if from == to {
        None
    } else {
        Some((component(to.x - from.x, dist2(to, from)), component(to.y - from.y, dist2(to, from))))
    }
}

/// A ratio rounds to at most one number of millionths.
pub proof fn lemma_rounds_to_unique(a: int, n: int, p: int, q: int)
    requires
        0 < n,
        rounds_to(a, n, p),
        rounds_to(a, n, q),
    ensures
        p == q,
{
    if p < q {
        lemma_rounds_apart(a, n, p, q);
    } else if q < p {
        lemma_rounds_apart(a, n, q, p);
    }
}

/// A ratio below `p + 1/2` millionths is below `q - 1/2` for every larger
/// `q`.
proof fn lemma_rounds_apart(a: int, n: int, p: int, q: int)
    requires
        0 < n,
        0 <= p < q,
        4 * MICRO * MICRO * (a * a) < (2 * p + 1) * (2 * p + 1) * n,
    ensures
        4 * MICRO * MICRO * (a * a) < (2 * q - 1) * (2 * q - 1) * n,
{
    let u = (2 * p + 1) * (2 * p + 1);
    let v = (2 * q - 1) * (2 * q - 1);
    assert(u <= v) by (nonlinear_arith)
        requires
            u == (2 * p + 1) * (2 * p + 1),
            v == (2 * q - 1) * (2 * q - 1),
            0 <= 2 * p + 1 <= 2 * q - 1,
    ;
    assert(u * n <= v * n) by (nonlinear_arith)
        requires
            u <= v,
            0 < n,
    ;
}

/// Among the numbers of millionths up to `k`, one is the nearest to a ratio
/// that lies below `k + 1/2`.
proof fn lemma_rounds_to_below(a: int, n: int, k: int)
    requires
        0 <= k,
        4 * MICRO * MICRO * (a * a) < (2 * k + 1) * (2 * k + 1) * n,
    ensures
        rounds_to(a, n, nearest(a, n)),
    decreases k,
{
    if k == 0 {
        assert(rounds_to(a, n, 0));
    } else if 4 * MICRO * MICRO * (a * a) < (2 * k - 1) * (2 * k - 1) * n {
        lemma_rounds_to_below(a, n, k - 1);
    } else {
        assert(rounds_to(a, n, k));
    }
}

/// Every ratio of a side to a hypotenuse has a nearest number of millionths,
/// and it is at most a whole.
pub proof fn lemma_nearest(a: int, n: int)
    requires
        0 < n,
        0 <= a,
        a * a <= n,
    ensures
        rounds_to(a, n, nearest(a, n)),
        0 <= nearest(a, n) <= MICRO,
        a == 0 ==> nearest(a, n) == 0,
{
    let c = 4 * MICRO * MICRO;
    assert(c * (a * a) <= c * n) by (nonlinear_arith)
        requires
            a * a <= n,
            c >= 0,
    ;
    assert(c * n < (2 * MICRO + 1) * (2 * MICRO + 1) * n) by (nonlinear_arith)
        requires
            c == 4 * MICRO * MICRO,
            MICRO == 1_000_000,
            0 < n,
    ;
    lemma_rounds_to_below(a, n, MICRO as int);
    let p = nearest(a, n);
    if p > MICRO {
        lemma_rounds_apart(a, n, MICRO as int, p);
    }
    if a == 0 {
        assert(rounds_to(a, n, 0)) by (nonlinear_arith)
            requires
                a == 0,
                0 < n,
                MICRO == 1_000_000,
        ;
        lemma_rounds_to_unique(a, n, p, 0);
    }
}

/// Whoever exhibits the nearest number of millionths has found `nearest`.
pub proof fn lemma_nearest_is(a: int, n: int, p: int)
    requires
        0 < n,
        rounds_to(a, n, p),
    ensures
        nearest(a, n) == p,
{
    lemma_rounds_to_unique(a, n, nearest(a, n), p);
}

/// The unit vector between two distinct positions is a unit long up to
/// rounding: no component is longer than a unit, each points the way the
/// positions lie, and the squared length is within two millionths of one.
pub proof fn lemma_unit_toward_length(from: Pos, to: Pos)
    requires
        from != to,
    ensures
        unit_toward(from, to) matches Some((p, q)) && {
            &&& -MICRO <= p <= MICRO
            &&& -MICRO <= q <= MICRO
            &&& to.x >= from.x ==> p >= 0
            &&& to.x <= from.x ==> p <= 0
            &&& to.y >= from.y ==> q >= 0
            &&& to.y <= from.y ==> q <= 0
            &&& MICRO * MICRO - 2 * MICRO <= p * p + q * q <= MICRO * MICRO + 2 * MICRO
        },
{
    let dx = to.x - from.x;
    let dy = to.y - from.y;
    let n = dist2(to, from);
    let a = if dx >= 0 { dx } else { -dx };
    let b = if dy >= 0 { dy } else { -dy };
    assert(a * a == dx * dx) by (nonlinear_arith)
        requires
            a == dx || a == -dx,
    ;
    assert(b * b == dy * dy) by (nonlinear_arith)
        requires
            b == dy || b == -dy,
    ;
    assert(a * a >= 0 && b * b >= 0) by (nonlinear_arith);
    assert(n >= 1) by (nonlinear_arith)
        requires
            n == dx * dx + dy * dy,
            dx != 0 || dy != 0,
    ;
    lemma_nearest(a, n);
    lemma_nearest(b, n);
    let p = nearest(a, n);
    let q = nearest(b, n);
    let sp = component(dx, n);
    let sq = component(dy, n);
    assert(sp == p || sp == -p);
    assert(sq == q || sq == -q);
    assert(sp * sp == p * p) by (nonlinear_arith)
        requires
            sp == p || sp == -p,
    ;
    assert(sq * sq == q * q) by (nonlinear_arith)
        requires
            sq == q || sq == -q,
    ;
    lemma_length(a, b, n, p, q);
}

/// The squared length of a vector whose components are the nearest
/// millionths of the components of a unit vector.
proof fn lemma_length(a: int, b: int, n: int, p: int, q: int)
    requires
        0 < n,
        n == a * a + b * b,
        rounds_to(a, n, p),
        rounds_to(b, n, q),
        p <= MICRO,
        q <= MICRO,
    ensures
        MICRO * MICRO - 2 * MICRO <= p * p + q * q <= MICRO * MICRO + 2 * MICRO,
{
    let c = 4 * MICRO * MICRO;
    let up = (2 * p + 1) * (2 * p + 1);
    let uq = (2 * q + 1) * (2 * q + 1);
    assert(up + uq > c) by (nonlinear_arith)
        requires
            c * (a * a) < up * n,
            c * (b * b) < uq * n,
            n == a * a + b * b,
            0 < n,
    ;
    assert(up + uq == 4 * (p * p + q * q) + 4 * (p + q) + 2) by (nonlinear_arith)
        requires
            up == (2 * p + 1) * (2 * p + 1),
            uq == (2 * q + 1) * (2 * q + 1),
    ;
    assert(p * p <= MICRO * MICRO && q * q <= MICRO * MICRO) by (nonlinear_arith)
        requires
            0 <= p <= MICRO,
            0 <= q <= MICRO,
    ;
    if p > 0 && q > 0 {
        let lp = (2 * p - 1) * (2 * p - 1);
        let lq = (2 * q - 1) * (2 * q - 1);
        assert(lp + lq <= c) by (nonlinear_arith)
            requires
                lp * n <= c * (a * a),
                lq * n <= c * (b * b),
                n == a * a + b * b,
                0 < n,
        ;
        assert(lp + lq == 4 * (p * p + q * q) - 4 * (p + q) + 2) by (nonlinear_arith)
            requires
                lp == (2 * p - 1) * (2 * p - 1),
                lq == (2 * q - 1) * (2 * q - 1),
        ;
    } else if p == 0 {
        assert(p * p == 0);
    } else {
        assert(q * q == 0);
    }
}

/// `c` brought into the interval from `lo` to `hi`.
pub fn clamp(c: i64, lo: i64, hi: i64) -> (r: i64)
    requires
        lo <= hi,
    ensures
        r == clamped(c as int, lo as int, hi as int),
{
    if c < lo {
        lo
    } else if c > hi {
        hi
    } else {
        c
    }
}

/// Whether two points of the world are strictly closer than `range`.
pub fn closer_than(a: Point, b: Point, range: i64) -> (r: bool)
    requires
        in_world(a.x as int),
        in_world(a.y as int),
        in_world(b.x as int),
        in_world(b.y as int),
        0 <= range,
    ensures
        r == within(a@, b@, range as int),
{
    let dx: i128 = a.x as i128 - b.x as i128;
    let dy: i128 = a.y as i128 - b.y as i128;
    let reach: i128 = range as i128;
    assert(0 <= dx * dx <= 0x1000_0000_0000_0000_0000_0000_0000_0000) by (nonlinear_arith)
        requires
            -0x4000_0000_0000_0000 <= dx <= 0x4000_0000_0000_0000,
    ;
    assert(0 <= dy * dy <= 0x1000_0000_0000_0000_0000_0000_0000_0000) by (nonlinear_arith)
        requires
            -0x4000_0000_0000_0000 <= dy <= 0x4000_0000_0000_0000,
    ;
    assert(0 <= reach * reach <= 0x4000_0000_0000_0000_0000_0000_0000_0000) by (nonlinear_arith)
        requires
            0 <= reach <= 0x8000_0000_0000_0000,
    ;
    dx * dx + dy * dy < reach * reach
}

/// The product `m * n` in two parts: it is the first part times 2^64 plus
/// the second, and the second is below 2^64.
fn wide_product(m: u128, n: u128) -> (r: (u128, u128))
    requires
        m < 0x1_0000_0000_0000_0000,
    ensures
        m * n == r.0 * 0x1_0000_0000_0000_0000 + r.1,
        r.1 < 0x1_0000_0000_0000_0000,
{
    let high: u128 = n / 0x1_0000_0000_0000_0000;
    let low: u128 = n % 0x1_0000_0000_0000_0000;
    assert(m * low <= 0xffff_ffff_ffff_ffff * 0xffff_ffff_ffff_ffff) by (nonlinear_arith)
        requires
            0 <= m <= 0xffff_ffff_ffff_ffff,
            0 <= low <= 0xffff_ffff_ffff_ffff,
    ;
    assert(m * high <= 0xffff_ffff_ffff_ffff * 0xffff_ffff_ffff_ffff) by (nonlinear_arith)
        requires
            0 <= m <= 0xffff_ffff_ffff_ffff,
            0 <= high <= 0xffff_ffff_ffff_ffff,
    ;
    assert(m * n == (m * high) * 0x1_0000_0000_0000_0000 + m * low) by (nonlinear_arith)
        requires
            n == high * 0x1_0000_0000_0000_0000 + low,
    ;
    let bottom: u128 = m * low;
    let top: u128 = m * high;
    (top + bottom / 0x1_0000_0000_0000_0000, bottom % 0x1_0000_0000_0000_0000)
}

/// Whether `m * n <= c * s`, for products that may not fit in 128 bits.
fn product_le(m: u128, n: u128, c: u128, s: u128) -> (r: bool)
    requires
        m < 0x1_0000_0000_0000_0000,
        c < 0x1_0000_0000_0000_0000,
    ensures
        r == (m * n <= c * s),
{
    let (h1, l1) = wide_product(m, n);
    let (h2, l2) = wide_product(c, s);
    h1 < h2 || (h1 == h2 && l1 <= l2)
}

/// The ratio `a / sqrt(n)` in millionths, rounded to the nearest, a half
/// going up.
fn nearest_millionth(a: u128, n: u128) -> (p: u128)
    requires
        0 < n,
        a * a <= n,
    ensures
        p == nearest(a as int, n as int),
        p <= MICRO,
        a == 0 ==> p == 0,
{
    let s: u128 = a * a;
    let mut lo: u128 = 0;
    let mut hi: u128 = 1_000_001;
    proof {
        assert(4 * MICRO * MICRO * (a * a) < (2 * hi - 1) * (2 * hi - 1) * n) by (nonlinear_arith)
            requires
                hi == 1_000_001,
                MICRO == 1_000_000,
                a * a <= n,
                0 < n,
        ;
    }
    while hi - lo > 1
        invariant
            lo < hi <= 1_000_001,
            s == a * a,
            0 < n,
            lo > 0 ==> (2 * lo - 1) * (2 * lo - 1) * n <= 4 * MICRO * MICRO * (a * a),
            4 * MICRO * MICRO * (a * a) < (2 * hi - 1) * (2 * hi - 1) * n,
        decreases hi - lo,
    {
        let mid: u128 = lo + (hi - lo) / 2;
        let odd: u128 = 2 * mid - 1;
        assert(odd * odd <= 2_000_001 * 2_000_001) by (nonlinear_arith)
            requires
                0 <= odd <= 2_000_001,
        ;
        assert(4 * MICRO * MICRO == 4_000_000_000_000);
        if product_le(odd * odd, n, 4_000_000_000_000, s) {
            lo = mid;
        } else {
            hi = mid;
        }
    }
    proof {
        assert(rounds_to(a as int, n as int, lo as int));
        lemma_nearest_is(a as int, n as int, lo as int);
        lemma_nearest(a as int, n as int);
    }
    lo
}

/// The magnitude of a difference of two coordinates.
fn magnitude(d: i128) -> (m: u128)
    requires
        -0x1_0000_0000_0000_0000 < d < 0x1_0000_0000_0000_0000,
    ensures
        m == if d >= 0 { d as int } else { -d },
        m * m == d * d,
{
    let m: u128 = if d >= 0 { d as u128 } else { (-d) as u128 };
    assert(m * m == d * d) by (nonlinear_arith)
        requires
            m == d || m == -d,
    ;
    m
}

/// A number of millionths with the sign of `c`.
fn with_sign(c: i128, p: u128) -> (r: i64)
    requires
        p <= MICRO,
    ensures
        r == if c >= 0 { p as int } else { -p },
{
    if c >= 0 {
        p as i64
    } else {
        -(p as i64)
    }
}

/// The unit vector from `from` toward `to`, each component rounded to the
/// nearest millionth; `None` where the two points coincide.
pub fn unit_vector(from: Point, to: Point) -> (r: Option<(i64, i64)>)
    requires
        in_world(from.x as int),
        in_world(from.y as int),
    ensures
        match r {
            Some((dx, dy)) => {
                &&& unit_toward(from@, to@) == Some((dx as int, dy as int))
                &&& -MICRO <= dx <= MICRO
                &&& -MICRO <= dy <= MICRO
                &&& to.x >= from.x ==> dx >= 0
                &&& to.x <= from.x ==> dx <= 0
                &&& to.y >= from.y ==> dy >= 0
                &&& to.y <= from.y ==> dy <= 0
            },
            None => unit_toward(from@, to@).is_none(),
        },
        r.is_none() <==> from@ == to@,
{
    let dx: i128 = to.x as i128 - from.x as i128;
    let dy: i128 = to.y as i128 - from.y as i128;
    if dx == 0 && dy == 0 {
        return None;
    }
    let mx = magnitude(dx);
    let my = magnitude(dy);
    assert(mx * mx <= 0x5f10_0000_0000_0000_0000_0000_0000_0000) by (nonlinear_arith)
        requires
            0 <= mx <= 0x9c00_0000_0000_0000,
    ;
    assert(my * my <= 0x5f10_0000_0000_0000_0000_0000_0000_0000) by (nonlinear_arith)
        requires
            0 <= my <= 0x9c00_0000_0000_0000,
    ;
    let n: u128 = mx * mx + my * my;
    assert(n >= 1) by (nonlinear_arith)
        requires
            n == mx * mx + my * my,
            mx != 0 || my != 0,
            0 <= mx,
            0 <= my,
    ;
    assert(mx * mx >= 0 && my * my >= 0) by (nonlinear_arith);
    let ux = nearest_millionth(mx, n);
    let uy = nearest_millionth(my, n);
    Some((with_sign(dx, ux), with_sign(dy, uy)))
}

} // verus!
