use vstd::prelude::*;

use crate::model::Severity;

verus! {

/// Largest window a detector may keep per series: 2^30 values, 8 GiB of
/// samples for one metric name. Up to this size every quantity of
/// `classify_window` fits its fixed-width arithmetic.
pub const MAX_WINDOW: usize = 1073741824;

/// The base of the low limb of a `Wide` number: 2^64.
pub const LIMB: u128 = 18446744073709551616;

/// A nonnegative integer of up to 192 bits, `hi * 2^64 + lo`.
#[derive(Clone, Copy, Debug, PartialEq, Eq, Structural)]
pub struct Wide {
    pub hi: u128,
    pub lo: u128,
}

impl Wide {
    /// The low limb holds fewer than 64 bits.
    pub open spec fn wf(self) -> bool {
        self.lo < LIMB
    }

    pub open spec fn value(self) -> int {
        self.hi * LIMB + self.lo
    }
}

/// `x * y` as a `Wide` number, for factors below 2^95.
pub fn wide_mul(x: u128, y: u128) -> (r: Wide)
    requires
        x < 0x800000000000000000000000,
        y < 0x800000000000000000000000,
    ensures
        r.wf(),
        r.value() == x * y,
{
    let a = x / LIMB;
    let b = x % LIMB;
    let c = y / LIMB;
    let d = y % LIMB;
    assert(a < 0x80000000 && c < 0x80000000);
    assert(b * d <= (LIMB - 1) * (LIMB - 1)) by (nonlinear_arith)
        requires
            b < LIMB,
            d < LIMB,
    ;
    let bd = b * d;
    let e = bd / LIMB;
    let f = bd % LIMB;
    assert(a * c <= 0x80000000 * 0x80000000 && a * d <= 0x80000000 * LIMB && b * c <= LIMB
        * 0x80000000) by (nonlinear_arith)
        requires
            a < 0x80000000,
            c < 0x80000000,
            b < LIMB,
            d < LIMB,
    ;
    let hi = a * c * LIMB + a * d + b * c + e;
    assert(x * y == hi * LIMB + f) by (nonlinear_arith)
        requires
            x == a * LIMB + b,
            y == c * LIMB + d,
            bd == b * d,
            bd == e * LIMB + f,
            hi == a * c * LIMB + a * d + b * c + e,
    ;
    Wide { hi, lo: f }
}

/// `k * w` for a factor below 2^64 whose product keeps the high limb in range.
pub fn wide_scale(w: Wide, k: u128) -> (r: Wide)
    requires
        w.wf(),
        k < LIMB,
        k * w.hi + k <= u128::MAX,
    ensures
        r.wf(),
        r.value() == k * w.value(),
        r.hi <= k * w.hi + k,
{
    assert(k * w.lo <= (LIMB - 1) * (LIMB - 1)) by (nonlinear_arith)
        requires
            w.lo < LIMB,
            k < LIMB,
    ;
    let m = k * w.lo;
    assert(m <= k * LIMB) by (nonlinear_arith)
        requires
            m == k * w.lo,
            w.lo < LIMB,
            k >= 0,
    ;
    assert(m / LIMB <= k) by (nonlinear_arith)
        requires
            m <= k * LIMB,
            k >= 0,
    ;
    let hi = k * w.hi + m / LIMB;
    assert(k * w.value() == hi * LIMB + m % LIMB) by (nonlinear_arith)
        requires
            m == k * w.lo,
            m == (m / LIMB) * LIMB + m % LIMB,
            hi == k * w.hi + m / LIMB,
            w.value() == w.hi * LIMB + w.lo,
    ;
    Wide { hi, lo: m % LIMB }
}

/// `a + b`.
pub fn wide_add(a: Wide, b: Wide) -> (r: Wide)
    requires
        a.wf(),
        b.wf(),
        a.hi + b.hi + 1 <= u128::MAX,
    ensures
        r.wf(),
        r.value() == a.value() + b.value(),
        r.hi <= a.hi + b.hi + 1,
{
    let s = a.lo + b.lo;
    Wide { hi: a.hi + b.hi + s / LIMB, lo: s % LIMB }
}

/// `a - b`, for `a >= b`.
pub fn wide_sub(a: Wide, b: Wide) -> (r: Wide)
    requires
        a.wf(),
        b.wf(),
        a.value() >= b.value(),
    ensures
        r.wf(),
        r.value() == a.value() - b.value(),
        r.hi <= a.hi,
{
    if a.lo >= b.lo {
        Wide { hi: a.hi - b.hi, lo: a.lo - b.lo }
    } else {
        Wide { hi: a.hi - b.hi - 1, lo: a.lo + LIMB - b.lo }
    }
}

/// Whether `a >= b`.
pub fn wide_ge(a: Wide, b: Wide) -> (r: bool)
    requires
        a.wf(),
        b.wf(),
    ensures
        r == (a.value() >= b.value()),
{
    a.hi > b.hi || (a.hi == b.hi && a.lo >= b.lo)
}

/// Whether `a == b` as numbers.
pub fn wide_eq(a: Wide, b: Wide) -> (r: bool)
    requires
        a.wf(),
        b.wf(),
    ensures
        r == (a.value() == b.value()),
{
    a.hi == b.hi && a.lo == b.lo
}

/// `|x|` as an unsigned number.
pub fn magnitude(x: i128) -> (r: u128)
    requires
        x > i128::MIN,
    ensures
        r == (if x < 0 { -x } else { x as int }),
        r * r == x * x,
{
    let r: u128 = if x < 0 { (0 - x) as u128 } else { x as u128 };
    assert(r * r == x * x) by (nonlinear_arith)
        requires
            r == (if x < 0 { -x } else { x as int }),
    ;
    r
}

/// `x * x` as a `Wide` number, for an `i64` value.
pub fn square(x: i64) -> (r: Wide)
    ensures
        r.wf(),
        r.value() == (x as int) * (x as int),
{
    let m = magnitude(x as i128);
    wide_mul(m, m)
}

pub open spec fn sum(s: Seq<int>) -> int
    decreases s.len(),
{
    if s.len() == 0 {
        0
    } else {
        sum(s.drop_last()) + s.last()
    }
}

pub open spec fn sum_sq(s: Seq<int>) -> int
    decreases s.len(),
{
    if s.len() == 0 {
        0
    } else {
        sum_sq(s.drop_last()) + s.last() * s.last()
    }
}

/// The verdict on a value `v` against a window of `n` samples with sum `t`
/// and sum of squares `q`. With mean `t / n` and population deviation
/// `sigma`, `n * v - t` is `n * (v - mean)` and `n * q - t * t` is
/// `n^2 * sigma^2`, so `|z| >= k` exactly when `(n * v - t)^2 >= k^2 * (n * q - t * t)`.
/// A constant window (`sigma == 0`) flags every other value as critical.
pub open spec fn classify_sums(n: int, t: int, q: int, v: int) -> Option<Severity> {
    let d = n * v - t;
    let spread = n * q - t * t;
    if spread == 0 {
        if d != 0 {
            Some(Severity::Critical)
        } else {
            None
        }
    } else if d * d >= 9 * spread {
        Some(Severity::Critical)
    } else if d * d >= 4 * spread {
        Some(Severity::Warning)
    } else {
        None
    }
}

/// The z-score bound that a severity stands for.
pub open spec fn z_bound(s: Severity) -> nat {
    match s {
        Severity::Critical => 3,
        Severity::Warning => 2,
    }
}

/// The verdict on `v` against the window `hist` (see `classify_sums`).
pub open spec fn classify(hist: Seq<int>, v: int) -> Option<Severity> {
    classify_sums(hist.len() as int, sum(hist), sum_sq(hist), v)
}

/// The window's mean in hundredths, truncated toward zero.
pub open spec fn mean_of(t: int, n: int) -> int {
    if t >= 0 {
        t / n
    } else {
        -((-t) / n)
    }
}

pub proof fn lemma_sum_push(s: Seq<int>, x: int)
    ensures
        sum(s.push(x)) == sum(s) + x,
        sum_sq(s.push(x)) == sum_sq(s) + x * x,
{
    assert(s.push(x).drop_last() =~= s);
}

pub proof fn lemma_sum_first(s: Seq<int>)
    requires
        s.len() >= 1,
    ensures
        sum(s) == s[0] + sum(s.subrange(1, s.len() as int)),
        sum_sq(s) == s[0] * s[0] + sum_sq(s.subrange(1, s.len() as int)),
    decreases s.len(),
{
    if s.len() == 1 {
        assert(s.drop_last() =~= Seq::<int>::empty());
        assert(s.subrange(1, 1) =~= Seq::<int>::empty());
    } else {
        lemma_sum_first(s.drop_last());
        assert(s.subrange(1, s.len() as int).drop_last() =~= s.drop_last().subrange(
            1,
            s.len() - 1,
        ));
    }
}

/// Whether `x` is a value of `i64`.
pub open spec fn in_i64(x: int) -> bool {
    i64::MIN <= x <= i64::MAX
}

/// 2^126, the largest square of an `i64` value.
pub open spec fn max_square() -> int {
    0x40000000000000000000000000000000
}

pub proof fn lemma_sum_bounds(s: Seq<int>)
    requires
        forall|i: int| 0 <= i < s.len() ==> in_i64(#[trigger] s[i]),
    ensures
        s.len() * (i64::MIN as int) <= sum(s) <= s.len() * (i64::MAX as int),
        0 <= sum_sq(s) <= s.len() * max_square(),
    decreases s.len(),
{
    if s.len() > 0 {
        let x = s.last();
        assert(in_i64(s[s.len() - 1]));
        lemma_sum_bounds(s.drop_last());
        let n = s.len() as int;
        assert(0 <= x * x <= max_square()) by (nonlinear_arith)
            requires
                i64::MIN <= x <= i64::MAX,
        ;
        assert((n - 1) * max_square() + max_square() == n * max_square()) by (nonlinear_arith);
        assert((n - 1) * (i64::MIN as int) + i64::MIN == n * (i64::MIN as int)) by (nonlinear_arith);
        assert((n - 1) * (i64::MAX as int) + i64::MAX == n * (i64::MAX as int)) by (nonlinear_arith);
    }
}

/// `classify_sums` computed exactly for any window of `i64` values. The tests
/// `d^2 >= k^2 * (n * q - t^2)` are evaluated as `d^2 + k^2 * t^2 >= k^2 * n * q`,
/// over nonnegative `Wide` numbers.
pub fn classify_window(n: usize, t: i128, q: Wide, v: i64) -> (r: Option<Severity>)
    requires
        1 <= n <= MAX_WINDOW,
        n * (i64::MIN as int) <= t <= n * (i64::MAX as int),
        q.wf(),
        0 <= q.value() <= n * max_square(),
    ensures
        r == classify_sums(n as int, t as int, q.value(), v as int),
{
    let ni: i128 = n as i128;
    let vi: i128 = v as i128;
    let ghost big: int = 0x200000000000000000000000int;
    assert(-big <= ni * vi <= big) by (nonlinear_arith)
        requires
            1 <= ni <= 0x40000000,
            i64::MIN <= vi <= i64::MAX,
            big == 0x200000000000000000000000,
    ;
    assert(-big <= t <= big) by (nonlinear_arith)
        requires
            1 <= ni <= 0x40000000,
            ni * (i64::MIN as int) <= t <= ni * (i64::MAX as int),
            big == 0x200000000000000000000000,
    ;
    assert(q.value() <= 0x1000000000000000000000000000000000000000) by (nonlinear_arith)
        requires
            1 <= ni <= 0x40000000,
            q.value() <= ni * max_square(),
            max_square() == 0x40000000000000000000000000000000,
    ;
    assert(q.hi <= 0x100000000000000000000000);
    let d: i128 = ni * vi - t;
    let md = magnitude(d);
    let mt = magnitude(t);
    assert(ni * q.hi + ni <= 0x40000000 * 0x100000000000000000000000 + 0x40000000)
        by (nonlinear_arith)
        requires
            1 <= ni <= 0x40000000,
            q.hi <= 0x100000000000000000000000,
    ;
    let nq = wide_scale(q, n as u128);
    let tt = wide_mul(mt, mt);
    let dd = wide_mul(md, md);
    assert(nq.value() <= 0x40000000000000000000000000000000000000000000000) by (nonlinear_arith)
        requires
            1 <= ni <= 0x40000000,
            0 <= q.value() <= 0x1000000000000000000000000000000000000000,
            nq.value() == ni * q.value(),
    ;
    assert(tt.value() <= 0x40000000000000000000000000000000000000000000000) by (nonlinear_arith)
        requires
            0 <= mt <= 0x200000000000000000000000,
            tt.value() == mt * mt,
    ;
    assert(dd.value() <= 0x100000000000000000000000000000000000000000000000) by (nonlinear_arith)
        requires
            0 <= md <= 0x400000000000000000000000,
            dd.value() == md * md,
    ;
    assert(nq.hi <= 0x4000000000000000000000000000000);
    assert(tt.hi <= 0x4000000000000000000000000000000);
    assert(dd.hi <= 0x10000000000000000000000000000000);
    let spread_zero = wide_eq(nq, tt);
    if spread_zero {
        if d != 0 {
            Some(Severity::Critical)
        } else {
            None
        }
    } else if wide_ge(wide_add(dd, wide_scale(tt, 9)), wide_scale(nq, 9)) {
        Some(Severity::Critical)
    } else if wide_ge(wide_add(dd, wide_scale(tt, 4)), wide_scale(nq, 4)) {
        Some(Severity::Warning)
    } else {
        None
    }
}

/// `mean_of` computed on the window's sum.
pub fn window_mean(t: i128, n: usize) -> (r: i64)
    requires
        1 <= n <= MAX_WINDOW,
        n * (i64::MIN as int) <= t <= n * (i64::MAX as int),
    ensures
        r == mean_of(t as int, n as int),
{
    let ni = n as i128;
    if t >= 0 {
        assert(t / ni <= i64::MAX) by (nonlinear_arith)
            requires
                0 <= t <= ni * (i64::MAX as int),
                ni >= 1,
        ;
        (t / ni) as i64
    } else {
        let m: i128 = 0 - t;
        assert(m / ni <= 0x8000000000000000) by (nonlinear_arith)
            requires
                0 <= m <= ni * 0x8000000000000000,
                ni >= 1,
        ;
        (0 - m / ni) as i64
    }
}

} // verus!
