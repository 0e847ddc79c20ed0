//! Two-dimensional vectors in fixed point, with exact rescaling.
use vstd::prelude::*;

verus! {

/// Millionths per screen unit.
pub const SCALE: i64 = 1_000_000;

/// Bound on the magnitude of every coordinate the simulation handles.
pub const COORD_LIMIT: i64 = 0x10_0000_0000_0000;

/// A point or a velocity; each component counts millionths of a unit.
#[derive(Clone, Copy, Debug, PartialEq, Eq, Structural)]
pub struct Vec2 {
    pub x: i64,
    pub y: i64,
}

pub open spec fn abs(a: int) -> int {
    if a < 0 { -a } else { a }
}

/// Both components lie within `COORD_LIMIT`.
pub open spec fn bounded(v: Vec2) -> bool {
    abs(v.x as int) <= COORD_LIMIT && abs(v.y as int) <= COORD_LIMIT
}

/// Squared Euclidean length.
pub open spec fn norm2(v: Vec2) -> int {
    v.x * v.x + v.y * v.y
}

/// Squared distance between two points.
pub open spec fn dist2(a: Vec2, b: Vec2) -> int {
    (a.x - b.x) * (a.x - b.x) + (a.y - b.y) * (a.y - b.y)
}

/// `c * num / den`, rounded toward zero.
pub open spec fn trunc_scale(c: int, num: int, den: int) -> int {
    if c >= 0 {
        c * num / den
    } else {
        -(((-c) * num) / den)
    }
}

/// The least `r` with `n <= r * r`.
pub open spec fn is_ceil_sqrt(n: int, r: int) -> bool {
    0 <= r && n <= r * r && (r == 0 || (r - 1) * (r - 1) < n)
}

/// The least root whose square reaches `n`.
pub open spec fn ceil_root(n: int) -> int {
    choose|r: int| is_ceil_sqrt(n, r)
}

/// `v` rescaled to length `len`; the zero vector stays zero.
pub open spec fn rescaled(v: Vec2, len: int, root: int) -> Vec2 {
    if v.x == 0 && v.y == 0 {
        v
    } else {
        Vec2 { x: trunc_scale(v.x as int, len, root) as i64, y: trunc_scale(v.y as int, len, root) as i64 }
    }
}

impl Vec2 {
    pub fn zero() -> (r: Vec2)
        ensures
            r.x == 0 && r.y == 0,
    {
        Vec2 { x: 0, y: 0 }
    }

    pub fn new(x: i64, y: i64) -> (r: Vec2)
        ensures
            r.x == x && r.y == y,
    {
        Vec2 { x, y }
    }

    /// Componentwise sum.
    pub fn plus(self, o: Vec2) -> (r: Vec2)
        requires
            bounded(self),
            bounded(o),
        ensures
            r.x == self.x + o.x,
            r.y == self.y + o.y,
    {
        Vec2 { x: self.x + o.x, y: self.y + o.y }
    }

    /// Squared length, computed without overflow.
    pub fn length_squared(self) -> (r: u128)
        requires
            bounded(self),
        ensures
            r == norm2(self),
    {
        let x = self.x as i128;
        let y = self.y as i128;
        assert(x * x <= 0x100_0000_0000_0000_0000_0000_0000 && 0 <= x * x) by (nonlinear_arith)
            requires
                -0x10_0000_0000_0000 <= x <= 0x10_0000_0000_0000,
        ;
        assert(y * y <= 0x100_0000_0000_0000_0000_0000_0000 && 0 <= y * y) by (nonlinear_arith)
            requires
                -0x10_0000_0000_0000 <= y <= 0x10_0000_0000_0000,
        ;
        (x * x + y * y) as u128
    }

    /// Squared distance to another point.
    pub fn distance_squared(self, o: Vec2) -> (r: u128)
        requires
            bounded(self),
            bounded(o),
        ensures
            r == dist2(self, o),
    {
        let dx = self.x as i128 - o.x as i128;
        let dy = self.y as i128 - o.y as i128;
        assert(dx * dx <= 0x400_0000_0000_0000_0000_0000_0000 && 0 <= dx * dx) by (nonlinear_arith)
            requires
                -0x20_0000_0000_0000 <= dx <= 0x20_0000_0000_0000,
        ;
        assert(dy * dy <= 0x400_0000_0000_0000_0000_0000_0000 && 0 <= dy * dy) by (nonlinear_arith)
            requires
                -0x20_0000_0000_0000 <= dy <= 0x20_0000_0000_0000,
        ;
        (dx * dx + dy * dy) as u128
    }
}

/// The least `r` whose square reaches `n`.
pub fn ceil_sqrt(n: u128) -> (r: u64)
    requires
        n <= 0x400_0000_0000_0000_0000_0000_0000,
    ensures
        is_ceil_sqrt(n as int, r as int),
        r <= 0x20_0000_0000_0000,
{
    if n == 0 {
        return 0;
    }
    let mut lo: u64 = 0;
    let mut hi: u64 = 0x20_0000_0000_0000;
    while hi - lo > 1
        invariant
            0 < n <= 0x400_0000_0000_0000_0000_0000_0000,
            lo < hi <= 0x20_0000_0000_0000,
            lo * lo < n,
            n <= hi * hi,
        decreases hi - lo,
    {
        let mid: u64 = lo + (hi - lo) / 2;
        let m = mid as u128;
        assert(m * m <= 0x400_0000_0000_0000_0000_0000_0000) by (nonlinear_arith)
            requires
                m <= 0x20_0000_0000_0000,
        ;
        if m * m >= n {
            hi = mid;
        } else {
            lo = mid;
        }
    }
    assert(lo == hi - 1);
    hi
}

/// `c * num / den` rounded toward zero, for a factor `num / den` of at most one.
pub fn scale_component(c: i64, num: u64, den: u64) -> (r: i64)
    requires
        0 < den,
        num <= den,
        abs(c as int) <= COORD_LIMIT,
        num <= 0x400_0000,
    ensures
        r == trunc_scale(c as int, num as int, den as int),
        abs(r as int) <= abs(c as int),
{
    let mag: u128 = if c >= 0 { c as u128 } else { (-c) as u128 };
    assert(mag * num <= 0x4000_0000_0000_0000_0000) by (nonlinear_arith)
        requires
            mag <= 0x10_0000_0000_0000,
            num <= 0x400_0000,
    ;
    let prod: u128 = mag * num as u128;
    let d: u128 = den as u128;
    let q: u128 = prod / d;
    assert(q <= mag) by (nonlinear_arith)
        requires
            0 < d,
            num <= d,
            mag >= 0,
            prod == mag * num,
            q == prod / d,
    {
        assert(prod <= mag * d);
        assert(q * d <= prod);
    }
    if c >= 0 {
        q as i64
    } else {
        -(q as i64)
    }
}

/// A ceiling square root is unique.
pub proof fn lemma_ceil_sqrt_unique(n: int, a: int, b: int)
    requires
        is_ceil_sqrt(n, a),
        is_ceil_sqrt(n, b),
    ensures
        a == b,
{
    if a < b {
        assert(a * a <= (b - 1) * (b - 1)) by (nonlinear_arith)
            requires
                0 <= a <= b - 1,
        ;
    } else if b < a {
        assert(b * b <= (a - 1) * (a - 1)) by (nonlinear_arith)
            requires
                0 <= b <= a - 1,
        ;
    }
}

/// The length of `v` is `len` up to rounding: its square lies in
/// `(len * len - 6 * len - 2, len * len]`.
pub open spec fn near_length(v: Vec2, len: int) -> bool {
    len * len - 6 * len - 2 < norm2(v) <= len * len
}

/// `v` lengthened by the factor `len + 1` where it is no longer than `len`,
/// so that rounding after a rescale to `len` stays small; same direction.
pub open spec fn stretched(v: Vec2, len: int) -> Vec2 {
    if norm2(v) > len * len {
        v
    } else {
        Vec2 { x: (v.x * (len + 1)) as i64, y: (v.y * (len + 1)) as i64 }
    }
}

/// `v` brought to length `len` along its own direction; zero stays zero.
pub open spec fn to_length_of(v: Vec2, len: int) -> Vec2 {
    if v.x == 0 && v.y == 0 {
        v
    } else {
        let w = stretched(v, len);
        rescaled(w, len, ceil_root(norm2(w)))
    }
}

/// `v`, longer than `len`, shortened to length `len` (in the same
/// millionths), each component rounded toward zero.
pub fn rescale(v: Vec2, len: u64) -> (r: Vec2)
    requires
        bounded(v),
        0 < len <= 0x400_0000,
        norm2(v) > len * len,
    ensures
        r == rescaled(v, len as int, ceil_root(norm2(v))),
        near_length(r, len as int),
        abs(r.x as int) <= len,
        abs(r.y as int) <= len,
        bounded(r),
{
    let n = v.length_squared();
    assert(n <= 0x200_0000_0000_0000_0000_0000_0000) by (nonlinear_arith)
        requires
            n == v.x * v.x + v.y * v.y,
            -0x10_0000_0000_0000 <= v.x <= 0x10_0000_0000_0000,
            -0x10_0000_0000_0000 <= v.y <= 0x10_0000_0000_0000,
    ;
    let root = ceil_sqrt(n);
    proof {
        lemma_ceil_sqrt_unique(n as int, root as int, ceil_root(n as int));
        assert(root > len) by (nonlinear_arith)
            requires
                n <= root * root,
                n > len * len,
                root >= 0,
                len > 0,
        ;
    }
    let x = scale_component(v.x, len, root);
    let y = scale_component(v.y, len, root);
    proof {
        lemma_trunc_scale_shrinks(v.x as int, len as int, root as int);
        lemma_trunc_scale_shrinks(v.y as int, len as int, root as int);
        lemma_component_within_root(v.x as int, v.y as int, root as int);
        lemma_component_within_root(v.y as int, v.x as int, root as int);
        lemma_shrunk_within_len(abs(x as int), abs(v.x as int), len as int, root as int);
        lemma_shrunk_within_len(abs(y as int), abs(v.y as int), len as int, root as int);
        lemma_rescaled_within_length(v, len as int);
        lemma_rescaled_near_length(v, len as int);
    }
    Vec2 { x, y }
}

/// `v` brought to length `len` along its own direction, up to rounding;
/// the zero vector stays zero.
pub fn to_length(v: Vec2, len: u64) -> (r: Vec2)
    requires
        bounded(v),
        0 < len < 0x400_0000,
    ensures
        r == to_length_of(v, len as int),
        v.x == 0 && v.y == 0 ==> r.x == 0 && r.y == 0,
        !(v.x == 0 && v.y == 0) ==> near_length(r, len as int),
        abs(r.x as int) <= len,
        abs(r.y as int) <= len,
{
    if v.x == 0 && v.y == 0 {
        return v;
    }
    let n = v.length_squared();
    let l = len as u128;
    assert(l * l <= 0x10_0000_0000_0000) by (nonlinear_arith)
        requires
            l < 0x400_0000,
    ;
    if n > l * l {
        rescale(v, len)
    } else {
        let k: i64 = len as i64 + 1;
        proof {
            lemma_component_within_root(v.x as int, v.y as int, len as int);
            lemma_component_within_root(v.y as int, v.x as int, len as int);
            assert(abs(v.x * k) <= len * k && abs(v.y * k) <= len * k) by (nonlinear_arith)
                requires
                    abs(v.x as int) <= len,
                    abs(v.y as int) <= len,
                    k > 0,
            ;
            assert(len * k <= 0x10_0000_0000_0000) by (nonlinear_arith)
                requires
                    0 < len < 0x400_0000,
                    k == len + 1,
            ;
            assert(v.x * v.x + v.y * v.y >= 1) by (nonlinear_arith)
                requires
                    v.x != 0 || v.y != 0,
            ;
            assert((v.x * k) * (v.x * k) + (v.y * k) * (v.y * k) == (v.x * v.x + v.y * v.y) * (k * k))
                by (nonlinear_arith);
            assert((v.x * v.x + v.y * v.y) * (k * k) >= k * k) by (nonlinear_arith)
                requires
                    v.x * v.x + v.y * v.y >= 1,
            ;
            assert(k * k > len * len) by (nonlinear_arith)
                requires
                    k == len + 1,
                    len > 0,
            ;
        }
        let w = Vec2 { x: v.x * k, y: v.y * k };
        rescale(w, len)
    }
}

/// Every natural number has a ceiling square root.
pub proof fn lemma_ceil_sqrt_exists(n: int)
    requires
        n >= 0,
    ensures
        is_ceil_sqrt(n, ceil_root(n)),
    decreases n,
{
    if n == 0 {
        assert(is_ceil_sqrt(0, 0));
    } else {
        lemma_ceil_sqrt_exists(n - 1);
        let r0 = ceil_root(n - 1);
        if n <= r0 * r0 {
            assert(is_ceil_sqrt(n, r0));
        } else {
            assert(n <= (r0 + 1) * (r0 + 1)) by (nonlinear_arith)
                requires
                    n - 1 <= r0 * r0,
                    r0 >= 0,
            ;
            assert(is_ceil_sqrt(n, r0 + 1));
        }
    }
}

/// Rescaling to `len` never gives a vector longer than `len`, keeps the sign
/// of each component, and keeps which component is the larger in magnitude:
/// the result points the way the input did, up to rounding toward zero.
pub proof fn lemma_rescaled_within_length(v: Vec2, len: int)
    requires
        bounded(v),
        0 <= len <= 0x400_0000,
    ensures
        ({
            let r = rescaled(v, len, ceil_root(norm2(v)));
            &&& (v.x != 0 || v.y != 0) ==> norm2(r) <= len * len
            &&& v.x >= 0 ==> r.x >= 0
            &&& v.x <= 0 ==> r.x <= 0
            &&& v.y >= 0 ==> r.y >= 0
            &&& v.y <= 0 ==> r.y <= 0
            &&& abs(v.x as int) >= abs(v.y as int) ==> abs(r.x as int) >= abs(r.y as int)
        }),
{
    let n = norm2(v);
    assert(n >= 0) by (nonlinear_arith)
        requires
            n == v.x * v.x + v.y * v.y,
    ;
    lemma_ceil_sqrt_exists(n);
    let root = ceil_root(n);
    if v.x == 0 && v.y == 0 {
        return;
    }
    assert(n > 0) by (nonlinear_arith)
        requires
            n == v.x * v.x + v.y * v.y,
            v.x != 0 || v.y != 0,
    ;
    assert(root > 0) by (nonlinear_arith)
        requires
            n > 0,
            n <= root * root,
            root >= 0,
    ;
    let a = abs(v.x as int);
    let b = abs(v.y as int);
    lemma_trunc_scale_shrinks(v.x as int, len, root);
    lemma_trunc_scale_shrinks(v.y as int, len, root);
    let p = abs(trunc_scale(v.x as int, len, root));
    let q = abs(trunc_scale(v.y as int, len, root));
    assert(p <= len && q <= len) by {
        lemma_component_within_root(v.x as int, v.y as int, root);
        lemma_component_within_root(v.y as int, v.x as int, root);
        lemma_shrunk_within_len(p, a, len, root);
        lemma_shrunk_within_len(q, b, len, root);
    }
    assert(a * a + b * b == n) by (nonlinear_arith)
        requires
            a == abs(v.x as int),
            b == abs(v.y as int),
            n == v.x * v.x + v.y * v.y,
    ;
    lemma_scaled_sum_of_squares(p, q, a, b, len, root);
    let r = rescaled(v, len, root);
    assert(r.x == trunc_scale(v.x as int, len, root)) by {
        lemma_component_within_root(v.x as int, v.y as int, root);
        lemma_shrunk_within_len(p, a, len, root);
    }
    assert(norm2(r) == p * p + q * q) by (nonlinear_arith)
        requires
            p == abs(r.x as int),
            q == abs(r.y as int),
    ;
    if a >= b {
        assert(a * len / root >= b * len / root) by (nonlinear_arith)
            requires
                a >= b >= 0,
                len >= 0,
                root > 0,
        ;
    }
}

/// Rescaling a vector longer than `len` down to `len` falls short of it by
/// rounding alone: the squared length stays above `len * len - 6 * len - 2`.
pub proof fn lemma_rescaled_near_length(v: Vec2, len: int)
    requires
        bounded(v),
        0 < len <= 0x400_0000,
        norm2(v) > len * len,
    ensures
        norm2(rescaled(v, len, ceil_root(norm2(v)))) > len * len - 6 * len - 2,
{
    let n = norm2(v);
    lemma_ceil_sqrt_exists(n);
    let root = ceil_root(n);
    assert(len * len >= 0) by (nonlinear_arith);
    if v.x == 0 && v.y == 0 {
        assert(n == 0) by (nonlinear_arith)
            requires
                n == v.x * v.x + v.y * v.y,
                v.x == 0,
                v.y == 0,
        ;
    }
    assert(root > len) by (nonlinear_arith)
        requires
            n <= root * root,
            n > len * len,
            root >= 0,
            len > 0,
    ;
    let a = abs(v.x as int);
    let b = abs(v.y as int);
    lemma_rescaled_within_length(v, len);
    lemma_trunc_scale_shrinks(v.x as int, len, root);
    lemma_trunc_scale_shrinks(v.y as int, len, root);
    let p = abs(trunc_scale(v.x as int, len, root));
    let q = abs(trunc_scale(v.y as int, len, root));
    lemma_component_within_root(v.x as int, v.y as int, root);
    lemma_component_within_root(v.y as int, v.x as int, root);
    lemma_shrunk_within_len(p, a, len, root);
    lemma_shrunk_within_len(q, b, len, root);
    lemma_floor_step(a * len, root);
    lemma_floor_step(b * len, root);
    assert(a * len >= 0 && b * len >= 0) by (nonlinear_arith)
        requires
            a >= 0,
            b >= 0,
            len > 0,
    ;
    assert(a * a + b * b == n) by (nonlinear_arith)
        requires
            a == abs(v.x as int),
            b == abs(v.y as int),
            n == v.x * v.x + v.y * v.y,
    ;
    lemma_near_length_arith(p, q, a, b, len, root, n);
    let r = rescaled(v, len, root);
    assert(norm2(r) == p * p + q * q) by (nonlinear_arith)
        requires
            p == abs(r.x as int),
            q == abs(r.y as int),
    ;
}

/// Rounding down loses less than one step: `m < (m / d + 1) * d`.
proof fn lemma_floor_step(m: int, d: int)
    requires
        m >= 0,
        d > 0,
    ensures
        m < (m / d + 1) * d,
{
    vstd::arithmetic::div_mod::lemma_fundamental_div_mod(m, d);
    vstd::arithmetic::div_mod::lemma_mod_bound(m, d);
    assert((m / d + 1) * d == d * (m / d) + d) by (nonlinear_arith);
}

/// The arithmetic behind `lemma_rescaled_near_length`.
proof fn lemma_near_length_arith(p: int, q: int, a: int, b: int, len: int, root: int, n: int)
    requires
        0 <= p <= len,
        0 <= q <= len,
        a >= 0,
        b >= 0,
        0 < len < root,
        a * len < (p + 1) * root,
        b * len < (q + 1) * root,
        a * a + b * b == n,
        (root - 1) * (root - 1) < n,
    ensures
        p * p + q * q > len * len - 6 * len - 2,
{
    let pp = (p + 1) * root;
    let qq = (q + 1) * root;
    assert(a * len * (a * len) < pp * pp) by (nonlinear_arith)
        requires
            0 <= a * len < pp,
    ;
    assert(b * len * (b * len) < qq * qq) by (nonlinear_arith)
        requires
            0 <= b * len < qq,
    ;
    let rr = root * root;
    let ll = len * len;
    let big = (p + 1) * (p + 1) + (q + 1) * (q + 1);
    assert(pp * pp + qq * qq == big * rr) by (nonlinear_arith)
        requires
            pp == (p + 1) * root,
            qq == (q + 1) * root,
            big == (p + 1) * (p + 1) + (q + 1) * (q + 1),
            rr == root * root,
    ;
    assert(a * len * (a * len) + b * len * (b * len) == n * ll) by (nonlinear_arith)
        requires
            a * a + b * b == n,
            ll == len * len,
    ;
    assert(n * ll >= (root - 1) * (root - 1) * ll) by (nonlinear_arith)
        requires
            (root - 1) * (root - 1) < n,
            ll == len * len,
    ;
    // big * rr > ll * (root - 1)^2 = ll * rr - 2 * ll * root + ll > ll * rr - 2 * len * rr
    assert(ll * root <= len * rr) by (nonlinear_arith)
        requires
            0 < len < root,
            ll == len * len,
            rr == root * root,
    ;
    assert((root - 1) * (root - 1) * ll == ll * rr - 2 * (ll * root) + ll) by (nonlinear_arith)
        requires
            ll == len * len,
            rr == root * root,
    ;
    assert(big * rr > (ll - 2 * len) * rr) by (nonlinear_arith)
        requires
            big * rr > ll * rr - 2 * (ll * root) + ll,
            ll * root <= len * rr,
            ll >= 0,
    ;
    assert(rr > 0) by (nonlinear_arith)
        requires
            rr == root * root,
            root > 0,
    ;
    assert(big > ll - 2 * len) by (nonlinear_arith)
        requires
            big * rr > (ll - 2 * len) * rr,
            rr > 0,
    ;
    assert(big == p * p + q * q + 2 * p + 2 * q + 2) by (nonlinear_arith)
        requires
            big == (p + 1) * (p + 1) + (q + 1) * (q + 1),
    ;
}

/// `x <= y` for non-negative values carries over to their squares.
proof fn lemma_square_le(x: int, y: int)
    requires
        0 <= x <= y,
    ensures
        x * x <= y * y,
{
    assert(x * x <= x * y) by (nonlinear_arith)
        requires
            0 <= x <= y,
    ;
    assert(x * y <= y * y) by (nonlinear_arith)
        requires
            0 <= x <= y,
    ;
}

/// Components cut down by `len / root` give a sum of squares at most `len * len`.
proof fn lemma_scaled_sum_of_squares(p: int, q: int, a: int, b: int, len: int, root: int)
    requires
        p >= 0,
        q >= 0,
        a >= 0,
        b >= 0,
        len >= 0,
        root > 0,
        p * root <= a * len,
        q * root <= b * len,
        a * a + b * b <= root * root,
    ensures
        p * p + q * q <= len * len,
{
    assert(p * root >= 0 && q * root >= 0) by (nonlinear_arith)
        requires
            p >= 0,
            q >= 0,
            root > 0,
    ;
    lemma_square_le(p * root, a * len);
    lemma_square_le(q * root, b * len);
    assert((p * root) * (p * root) == (p * p) * (root * root)) by (nonlinear_arith);
    assert((q * root) * (q * root) == (q * q) * (root * root)) by (nonlinear_arith);
    assert((a * len) * (a * len) == (a * a) * (len * len)) by (nonlinear_arith);
    assert((b * len) * (b * len) == (b * b) * (len * len)) by (nonlinear_arith);
    let pq = p * p + q * q;
    let ab = a * a + b * b;
    let rr = root * root;
    let ll = len * len;
    assert(pq * rr == (p * p) * rr + (q * q) * rr) by (nonlinear_arith)
        requires
            pq == p * p + q * q,
    ;
    assert(ab * ll == (a * a) * ll + (b * b) * ll) by (nonlinear_arith)
        requires
            ab == a * a + b * b,
    ;
    assert(ll >= 0 && rr > 0) by (nonlinear_arith)
        requires
            ll == len * len,
            rr == root * root,
            root > 0,
    ;
    assert(ab * ll <= rr * ll) by (nonlinear_arith)
        requires
            ab <= rr,
            ll >= 0,
    ;
    assert(pq <= ll) by (nonlinear_arith)
        requires
            pq * rr <= rr * ll,
            rr > 0,
    ;
}

/// A component never exceeds a root of the squared length.
pub proof fn lemma_component_within_root(a: int, b: int, root: int)
    requires
        root >= 0,
        a * a + b * b <= root * root,
    ensures
        abs(a) <= root,
{
    assert(abs(a) * abs(a) == a * a) by (nonlinear_arith);
    assert(b * b >= 0) by (nonlinear_arith);
    if abs(a) > root {
        assert(abs(a) * abs(a) > root * root) by (nonlinear_arith)
            requires
                abs(a) > root,
                root >= 0,
        ;
    }
}

/// From `p * root <= q * len` and `q <= root`, `p <= len`.
proof fn lemma_shrunk_within_len(p: int, q: int, len: int, root: int)
    requires
        p >= 0,
        0 <= q <= root,
        root > 0,
        len >= 0,
        p * root <= q * len,
    ensures
        p <= len,
{
    assert(q * len <= root * len) by (nonlinear_arith)
        requires
            0 <= q <= root,
            len >= 0,
    ;
    if p > len {
        assert(p * root > len * root) by (nonlinear_arith)
            requires
                p > len,
                root > 0,
        ;
    }
}

/// Rounding toward zero keeps the sign and never overshoots `c * num / den`.
pub proof fn lemma_trunc_scale_shrinks(c: int, num: int, den: int)
    requires
        den > 0,
        num >= 0,
    ensures
        abs(trunc_scale(c, num, den)) * den <= abs(c) * num,
        c >= 0 ==> trunc_scale(c, num, den) >= 0,
        c <= 0 ==> trunc_scale(c, num, den) <= 0,
        abs(trunc_scale(c, num, den)) == abs(c) * num / den,
{
    let m = abs(c) * num;
    assert(m >= 0) by (nonlinear_arith)
        requires
            abs(c) >= 0,
            num >= 0,
            m == abs(c) * num,
    ;
    assert((m / den) * den <= m) by (nonlinear_arith)
        requires
            den > 0,
            m >= 0,
    ;
    assert(m / den >= 0) by (nonlinear_arith)
        requires
            den > 0,
            m >= 0,
    ;
    if c < 0 {
        assert(trunc_scale(c, num, den) == -(m / den));
    } else if c == 0 {
        assert(m == 0);
        assert(0int / den == 0) by (nonlinear_arith)
            requires
                den > 0,
        ;
    } else {
        assert(trunc_scale(c, num, den) == m / den);
    }
}

} // verus!
