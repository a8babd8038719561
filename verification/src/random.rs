//! The generator of variates.
//!
//! A generator holds 64 bits of state.  A step scrambles the state by three
//! shift-and-xor rounds; the draw that the step gives is the upper 53 bits of
//! the new state, read as the fraction `draw / DRAW_SPAN` in `[0, 1)`.  Every
//! variate is made of one draw and whole-number arithmetic, so that a stream of
//! variates depends on nothing but the seed.

use std::ops::Range;
use vstd::prelude::*;

verus! {

/// The number of values that a draw can take: two to the power 53.
pub const DRAW_SPAN: u64 = 0x20_0000_0000_0000;

/// The seed of a generator that was given none.
pub const DEFAULT_SEED: u64 = 555555555;

/// The state that follows `s`.
pub open spec fn xorshift(s: u64) -> u64 {
    let a = s ^ (s << 13);
    let b = a ^ (a >> 7);
    b ^ (b << 17)
}

/// The state that is reached from `s` in `n` steps.
pub open spec fn advance(s: u64, n: nat) -> u64
    decreases n,
{
    if n == 0 {
        s
    } else {
        xorshift(advance(s, (n - 1) as nat))
    }
}

/// The draw that a step gives on reaching the state `s`.
pub open spec fn draw(s: u64) -> u64 {
    s >> 11
}

/// `width * t / DRAW_SPAN`, rounded down.
pub open spec fn scaled(width: int, t: int) -> int {
    (width * t) / (DRAW_SPAN as int)
}

/// The point of the range from `start` to `end` that the draw `m` picks:
/// `start + (end - start) * m / DRAW_SPAN`, rounded down.
pub open spec fn in_range(start: int, end: int, m: int) -> int {
    start + scaled(end - start, m)
}

/// The offset from a mean that the draw `m` picks for a variance:
/// `variance * u`, rounded down, where `u = 2 * m / DRAW_SPAN - 1` lies in `[-1, 1)`.
pub open spec fn spread(variance: int, m: int) -> int {
    scaled(variance, 2 * m - DRAW_SPAN)
}

/// The 64-bit signed value nearest to `x`.
pub open spec fn clamp(x: int) -> i64 {
    if x < i64::MIN {
        i64::MIN
    } else if x > i64::MAX {
        i64::MAX
    } else {
        x as i64
    }
}

/// The variate that the draw `m` picks for a mean and a variance:
/// `mean + variance * u` with `u` in `[-1, 1)`, held to the 64-bit range.
pub open spec fn in_variance(mean: int, variance: int, m: int) -> i64 {
    clamp(mean + spread(variance, m))
}

/// The variate for `bound`, a mean and a variance, that the `k`-th step from
/// the state `s` gives.
pub open spec fn variate(s: u64, k: nat, bound: (i64, i64)) -> i64 {
    in_variance(bound.0 as int, bound.1 as int, draw(advance(s, k)) as int)
}

/// Steps add up.
pub proof fn lemma_advance_add(s: u64, a: nat, b: nat)
    ensures
        advance(advance(s, a), b) == advance(s, a + b),
    decreases b,
{
    if b > 0 {
        lemma_advance_add(s, a, (b - 1) as nat);
    }
}

/// One step is one application of `xorshift`.
pub proof fn lemma_advance_one(s: u64)
    ensures
        advance(s, 1) == xorshift(s),
{
    assert(advance(s, 0) == s);
}

/// A draw is below `DRAW_SPAN`.
pub proof fn lemma_draw_bound(s: u64)
    ensures
        draw(s) < DRAW_SPAN,
{
    assert(s >> 11 < 0x20_0000_0000_0000) by (bit_vector);
}

/// A scaled width lies between zero and the width, for a factor between zero
/// and `DRAW_SPAN`; between the width and its negative, for a factor between
/// `-DRAW_SPAN` and `DRAW_SPAN`.
pub proof fn lemma_scaled_bounds(width: int, t: int)
    requires
        -(DRAW_SPAN as int) <= t <= DRAW_SPAN as int,
    ensures
        width >= 0 ==> -width <= scaled(width, t) <= width,
        width <= 0 ==> width <= scaled(width, t) <= -width,
        width >= 0 && 0 <= t ==> 0 <= scaled(width, t),
        width <= 0 && 0 <= t ==> scaled(width, t) <= 0,
        width > 0 && t < DRAW_SPAN ==> scaled(width, t) < width,
{
    let span = DRAW_SPAN as int;
    let n = width * t;
    assert(width >= 0 ==> -(width * span) <= n <= width * span) by (nonlinear_arith)
        requires
            n == width * t,
            -span <= t <= span,
    ;
    assert(width <= 0 ==> width * span <= n <= -(width * span)) by (nonlinear_arith)
        requires
            n == width * t,
            -span <= t <= span,
    ;
    assert(width >= 0 && 0 <= t ==> 0 <= n) by (nonlinear_arith)
        requires
            n == width * t,
    ;
    assert(width <= 0 && 0 <= t ==> n <= 0) by (nonlinear_arith)
        requires
            n == width * t,
    ;
    assert(width > 0 && t < span ==> n <= width * span - width) by (nonlinear_arith)
        requires
            n == width * t,
    ;
    assert(span == 0x20_0000_0000_0000);
    assert((width * span) / span == width);
    assert((-(width * span)) / span == -width);
}

/// A point picked in a range lies in the range.
pub proof fn lemma_in_range_bounds(start: int, end: int, m: int)
    requires
        0 <= m < DRAW_SPAN,
    ensures
        start <= end ==> start <= in_range(start, end, m) <= end,
        start < end ==> in_range(start, end, m) < end,
        end <= start ==> end <= in_range(start, end, m) <= start,
{
    lemma_scaled_bounds(end - start, m);
}

/// A variate lies within the variance of the mean, as far as 64 bits hold it.
pub proof fn lemma_in_variance_bounds(mean: int, variance: int, m: int)
    requires
        0 <= m < DRAW_SPAN,
    ensures
        variance >= 0 ==> clamp(mean - variance) <= in_variance(mean, variance, m) <= clamp(
            mean + variance,
        ),
        variance <= 0 ==> clamp(mean + variance) <= in_variance(mean, variance, m) <= clamp(
            mean - variance,
        ),
        i64::MIN <= mean - variance && mean + variance <= i64::MAX && variance >= 0 ==> mean
            - variance <= in_variance(mean, variance, m) <= mean + variance,
{
    lemma_scaled_bounds(variance, 2 * m - DRAW_SPAN);
}

/// `width * t / DRAW_SPAN`, rounded down.
fn scale(width: i128, t: i128) -> (r: i128)
    requires
        -0x1_0000_0000_0000_0000 <= width <= 0x1_0000_0000_0000_0000,
        -0x20_0000_0000_0000 <= t <= 0x20_0000_0000_0000,
    ensures
        r == scaled(width as int, t as int),
{
    assert(-0x20_0000_0000_0000_0000_0000_0000_0000 <= width * t
        <= 0x20_0000_0000_0000_0000_0000_0000_0000) by (nonlinear_arith)
        requires
            -0x1_0000_0000_0000_0000 <= width <= 0x1_0000_0000_0000_0000,
            -0x20_0000_0000_0000 <= t <= 0x20_0000_0000_0000,
    ;
    let n: i128 = width * t;
    if n >= 0 {
        n / 0x20_0000_0000_0000
    } else {
        let up: i128 = (0x20_0000_0000_0000 - 1 - n) / 0x20_0000_0000_0000;
        -up
    }
}

/// A generator of variates, with its state as its view.
pub struct Randf32 {
    state: u64,
}

impl View for Randf32 {
    type V = u64;

    closed spec fn view(&self) -> u64 {
        self.state
    }
}

impl Randf32 {
    /// A generator seeded with `DEFAULT_SEED`.
    pub fn new() -> (rand: Self)
        ensures
            rand@ == DEFAULT_SEED,
    {
        Self { state: DEFAULT_SEED }
    }

    /// A generator seeded with `seed`.  From the seed zero every draw is zero.
    pub fn with_seed(seed: u64) -> (rand: Self)
        ensures
            rand@ == seed,
    {
        Self { state: seed }
    }

    /// Takes a step and returns its draw `m`, which stands for the fraction
    /// `m / DRAW_SPAN` in `[0, 1)`.
    pub fn next(&mut self) -> (m: u64)
        ensures
            final(self)@ == xorshift(old(self)@),
            final(self)@ == advance(old(self)@, 1),
            m == draw(final(self)@),
            m < DRAW_SPAN,
    {
        self.state ^= self.state << 13;
        self.state ^= self.state >> 7;
        self.state ^= self.state << 17;
        proof {
            lemma_draw_bound(self.state);
            lemma_advance_one(old(self).state);
        }
        self.state >> 11
    }

    /// Takes a step and maps its draw onto `range`: the result is
    /// `start + (end - start) * m / DRAW_SPAN`, rounded down.  It lies in
    /// `[start, end)`; where the range is empty, between `end` and `start`.
    pub fn next_in(&mut self, range: Range<i64>) -> (r: i64)
        ensures
            final(self)@ == advance(old(self)@, 1),
            r == in_range(range.start as int, range.end as int, draw(final(self)@) as int),
            range.start <= range.end ==> range.start <= r <= range.end,
            range.start < range.end ==> r < range.end,
            range.end <= range.start ==> range.end <= r <= range.start,
    {
        let m: u64 = self.next();
        let width: i128 = range.end as i128 - range.start as i128;
        let q: i128 = scale(width, m as i128);
        proof {
            lemma_in_range_bounds(range.start as int, range.end as int, m as int);
        }
        (range.start as i128 + q) as i64
    }

    /// Takes a step and returns the variate of its draw for `bound`, a mean and
    /// a variance: `mean + variance * u` with `u` in `[-1, 1)`, rounded down and
    /// held to the 64-bit range.  It lies within the variance of the mean.
    pub fn f32_in(&mut self, bound: &(i64, i64)) -> (r: i64)
        ensures
            final(self)@ == advance(old(self)@, 1),
            r == variate(old(self)@, 1, *bound),
            bound.1 >= 0 ==> clamp(bound.0 - bound.1) <= r <= clamp(bound.0 + bound.1),
            bound.1 <= 0 ==> clamp(bound.0 + bound.1) <= r <= clamp(bound.0 - bound.1),
    {
        let m: u64 = self.next();
        let t: i128 = 2 * (m as i128) - 0x20_0000_0000_0000;
        let q: i128 = scale(bound.1 as i128, t);
        proof {
            lemma_in_variance_bounds(bound.0 as int, bound.1 as int, m as int);
            lemma_scaled_bounds(bound.1 as int, t as int);
        }
        let x: i128 = bound.0 as i128 + q;
        if x < -0x8000_0000_0000_0000 {
            -0x8000_0000_0000_0000
        } else if x > 0x7fff_ffff_ffff_ffff {
            0x7fff_ffff_ffff_ffff
        } else {
            x as i64
        }
    }

    /// Three variates, one step each, for the three bounds in their order.
    pub fn vec3_in(&mut self, bounds: &[(i64, i64); 3]) -> (r: [i64; 3])
        ensures
            final(self)@ == advance(old(self)@, 3),
            forall|k: int| 0 <= k < 3 ==> r[k] == variate(old(self)@, (k + 1) as nat, bounds[k]),
    {
        let ghost s = self@;
        let x: i64 = self.f32_in(&bounds[0]);
        let ghost s1 = self@;
        let y: i64 = self.f32_in(&bounds[1]);
        let ghost s2 = self@;
        let z: i64 = self.f32_in(&bounds[2]);
        proof {
            lemma_advance_add(s, 1, 1);
            lemma_advance_add(s, 2, 1);
        }
        [x, y, z]
    }

    /// Four variates, one step each, for the four bounds in their order.
    pub fn vec4_in(&mut self, bounds: &[(i64, i64); 4]) -> (r: [i64; 4])
        ensures
            final(self)@ == advance(old(self)@, 4),
            forall|k: int| 0 <= k < 4 ==> r[k] == variate(old(self)@, (k + 1) as nat, bounds[k]),
    {
        let ghost s = self@;
        let x: i64 = self.f32_in(&bounds[0]);
        let y: i64 = self.f32_in(&bounds[1]);
        let z: i64 = self.f32_in(&bounds[2]);
        let w: i64 = self.f32_in(&bounds[3]);
        proof {
            lemma_advance_add(s, 1, 1);
            lemma_advance_add(s, 2, 1);
            lemma_advance_add(s, 3, 1);
        }
        [x, y, z, w]
    }

    /// The four parts of a rotation, the scalar part first: four variates, one
    /// step each, for the four bounds in their order.
    pub fn quat_in(&mut self, bounds: &[(i64, i64); 4]) -> (r: [i64; 4])
        ensures
            final(self)@ == advance(old(self)@, 4),
            forall|k: int| 0 <= k < 4 ==> r[k] == variate(old(self)@, (k + 1) as nat, bounds[k]),
    {
        self.vec4_in(bounds)
    }
}

impl Default for Randf32 {
    fn default() -> (rand: Self)
        ensures
            rand@ == DEFAULT_SEED,
    {
        Self::new()
    }
}

} // verus!
