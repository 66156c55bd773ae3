//! Fixed-capacity ring buffer with fractional-index interpolated reads.
//!
//! Every pushed sample displaces the oldest one, so the population stays
//! constant at the capacity. `at_spec(k)` is the sample pushed `k` steps
//! ago. Reads may fall between two integer taps; they interpolate linearly
//! on the fractional remainder, and the interpolated value always lies
//! between the two neighbouring samples.

use vstd::prelude::*;

use crate::fixed::FP_LIMIT;
use crate::fixed::FP_ONE;
use crate::fixed::abs_i;
use crate::fixed::fp_add;
use crate::fixed::fp_add_spec;
use crate::fixed::fp_mul;
use crate::fixed::fp_mul_spec;
use crate::fixed::fp_ok;
use crate::fixed::fp_sub;
use crate::fixed::fp_sub_spec;
use crate::fixed::lemma_fp_mul_zero;

verus! {

/// Largest delay-line capacity the engine asks for (two seconds at the
/// highest accepted sampling rate).
pub const DELAY_CAP_MAX: usize = 2000000;

/// A modulated fractional-delay ring buffer.
pub struct DelayLine {
    buf: Vec<i64>,
    widx: usize,
}

/// Linear interpolation between two samples on a fractional remainder.
pub open spec fn lerp_spec(a: int, b: int, f: int) -> int {
    fp_add_spec(a, fp_mul_spec(fp_sub_spec(b, a), f))
}

impl DelayLine {
    /// Well-formed: fixed capacity, write index inside it, contents in
    /// range.
    pub closed spec fn wf(self) -> bool {
        &&& 2 <= self.buf.len() <= DELAY_CAP_MAX
        &&& self.widx < self.buf.len()
        &&& forall|i: int| 0 <= i < self.buf.len() ==> fp_ok(#[trigger] self.buf[i])
    }

    /// The fixed population size.
    pub closed spec fn cap_spec(self) -> int {
        self.buf.len() as int
    }

    /// The sample pushed `k` steps ago, for `0 <= k < cap`.
    pub closed spec fn at_spec(self, k: int) -> i64 {
        self.buf[(self.widx - 1 - k) % (self.buf.len() as int)]
    }

    /// The whole population, ordered from the newest sample to the oldest.
    pub open spec fn view_seq(self) -> Seq<i64> {
        Seq::new(self.cap_spec() as nat, |k: int| self.at_spec(k))
    }

    /// Build a line of `cap` zeroed samples.
    pub fn new(cap: usize) -> (r: DelayLine)
        requires
            2 <= cap <= DELAY_CAP_MAX,
        ensures
            r.wf(),
            r.cap_spec() == cap,
            forall|k: int| 0 <= k < cap ==> r.at_spec(k) == 0,
    {
        let mut buf: Vec<i64> = Vec::new();
        let mut i: usize = 0;
        while i < cap
            invariant
                i <= cap,
                buf.len() == i,
                forall|j: int| 0 <= j < i ==> buf[j] == 0,
            decreases cap - i,
        {
            buf.push(0);
            i = i + 1;
        }
        let r = DelayLine { buf, widx: 0 };
        proof {
            assert forall|k: int| 0 <= k < cap implies r.at_spec(k) == 0 by {
                vstd::arithmetic::div_mod::lemma_mod_division_less_than_divisor(
                    -1 - k,
                    cap as int,
                );
            }
        }
        r
    }

    /// The exec capacity.
    pub fn capacity(&self) -> (r: usize)
        requires
            self.wf(),
        ensures
            r == self.cap_spec(),
            2 <= r <= DELAY_CAP_MAX,
    {
        self.buf.len()
    }

    /// A well-formed line's capacity sits in the declared range.
    pub proof fn lemma_cap_bounds(self)
        requires
            self.wf(),
        ensures
            2 <= self.cap_spec() <= DELAY_CAP_MAX,
    {
    }

    /// Push one sample; the oldest falls out, every other sample ages by
    /// one step.
    pub fn push(&mut self, x: i64)
        requires
            old(self).wf(),
            fp_ok(x),
        ensures
            final(self).wf(),
            final(self).cap_spec() == old(self).cap_spec(),
            final(self).at_spec(0) == x,
            forall|k: int|
                1 <= k < old(self).cap_spec() ==> final(self).at_spec(k) == old(self).at_spec(
                    k - 1,
                ),
            final(self).view_seq() == push_view(old(self).view_seq(), x),
    {
        let n: usize = self.buf.len();
        let w: usize = self.widx;
        self.buf[w] = x;
        self.widx = if w + 1 == n {
            0
        } else {
            w + 1
        };
        proof {
            let ni: int = n as int;
            let wi: int = w as int;
            assert(self.widx as int == (wi + 1) % ni) by {
                if wi + 1 == ni {
                    vstd::arithmetic::div_mod::lemma_mod_self_0(ni);
                } else {
                    vstd::arithmetic::div_mod::lemma_small_mod((wi + 1) as nat, ni as nat);
                }
            }
            assert(self.at_spec(0) == x) by {
                lemma_mod_shift(wi, 0, ni);
                vstd::arithmetic::div_mod::lemma_small_mod(wi as nat, ni as nat);
            }
            assert forall|k: int| 1 <= k < ni implies self.at_spec(k) == old(self).at_spec(k - 1) by {
                lemma_mod_shift(wi, k, ni);
                lemma_mod_ne(wi, k, ni);
                vstd::arithmetic::div_mod::lemma_small_mod(wi as nat, ni as nat);
                vstd::arithmetic::div_mod::lemma_mod_division_less_than_divisor(wi - k, ni);
            }
            assert(self.view_seq() =~= push_view(old(self).view_seq(), x));
        }
    }

    /// Read the sample pushed `k` steps ago.
    pub fn read_at(&self, k: usize) -> (r: i64)
        requires
            self.wf(),
            k < self.cap_spec(),
        ensures
            r == self.at_spec(k as int),
            fp_ok(r),
    {
        let n: usize = self.buf.len();
        let i: usize = if k < self.widx {
            self.widx - 1 - k
        } else {
            self.widx + n - 1 - k
        };
        proof {
            let ni: int = n as int;
            let wi: int = self.widx as int;
            let ki: int = k as int;
            if ki < wi {
                vstd::arithmetic::div_mod::lemma_small_mod((wi - 1 - ki) as nat, ni as nat);
            } else {
                vstd::arithmetic::div_mod::lemma_mod_add_multiples_vanish(wi - 1 - ki, ni);
                vstd::arithmetic::div_mod::lemma_small_mod((wi + ni - 1 - ki) as nat, ni as nat);
            }
        }
        self.buf[i]
    }

    /// Read between taps `k` and `k + 1`, interpolating linearly on the
    /// fractional remainder. The result lies between the two samples; with
    /// a zero remainder it is exactly the integer tap.
    pub fn read_frac(&self, k: usize, frac: i64) -> (r: i64)
        requires
            self.wf(),
            k + 1 < self.cap_spec(),
            0 <= frac < FP_ONE,
        ensures
            r == lerp_spec(
                self.at_spec(k as int) as int,
                self.at_spec(k + 1) as int,
                frac as int,
            ),
            fp_ok(r),
            frac == 0 ==> r == self.at_spec(k as int),
    {
        let a: i64 = self.read_at(k);
        let b: i64 = self.read_at(k + 1);
        proof {
            if frac == 0 {
                lemma_fp_mul_zero(fp_sub_spec(b as int, a as int));
            }
        }
        fp_add(a, fp_mul(fp_sub(b, a), frac))
    }
}

/// Shifting the write head by one advances every age index:
/// `(w + 1 - 1 - k) == (w - (k - 1) - 1)` under the modulus.
proof fn lemma_mod_shift(w: int, k: int, n: int)
    requires
        0 < n,
    ensures
        ((w + 1) % n - 1 - k) % n == (w - k) % n,
{
    let a: int = w - k;
    let b: int = (w + 1) % n - 1 - k;
    vstd::arithmetic::div_mod::lemma_fundamental_div_mod(w + 1, n);
    let q: int = (w + 1) / n;
    assert(a == n * q + b);
    vstd::arithmetic::div_mod::lemma_mod_multiples_vanish(q, b, n);
}

/// For ages `1 <= k < n` the write slot is not the slot read back.
proof fn lemma_mod_ne(w: int, k: int, n: int)
    requires
        0 < n,
        0 <= w < n,
        1 <= k < n,
    ensures
        (w - k) % n != w % n,
{
    if w - k >= 0 {
        vstd::arithmetic::div_mod::lemma_small_mod((w - k) as nat, n as nat);
        vstd::arithmetic::div_mod::lemma_small_mod(w as nat, n as nat);
    } else {
        vstd::arithmetic::div_mod::lemma_mod_add_multiples_vanish(w - k, n);
        vstd::arithmetic::div_mod::lemma_small_mod((w - k + n) as nat, n as nat);
        vstd::arithmetic::div_mod::lemma_small_mod(w as nat, n as nat);
    }
}

// === the round-trip and interpolation laws ==================================

/// The view a push produces: the new sample in front, the oldest dropped.
pub open spec fn push_view(v: Seq<i64>, x: i64) -> Seq<i64> {
    seq![x] + v.drop_last()
}

/// The view after pushing a whole sequence, oldest first.
pub open spec fn push_all_view(v: Seq<i64>, s: Seq<i64>) -> Seq<i64>
    decreases s.len(),
{
    if s.len() == 0 {
        v
    } else {
        push_all_view(push_view(v, s[0]), s.skip(1))
    }
}

/// Pushing preserves the population size.
pub proof fn lemma_push_all_len(v: Seq<i64>, s: Seq<i64>)
    requires
        v.len() >= 1,
    ensures
        push_all_view(v, s).len() == v.len(),
    decreases s.len(),
{
    if s.len() > 0 {
        lemma_push_all_len(push_view(v, s[0]), s.skip(1));
    }
}

/// The round trip: after pushing a sequence of `N` samples into a line of
/// at least that capacity, the tap at age `k` holds exactly the sample
/// pushed `k` steps ago, i.e. `s[N - 1 - k]` — so a read at the nominal
/// integer delay returns the original sequence unmodified.
pub proof fn lemma_delay_round_trip(v: Seq<i64>, s: Seq<i64>, k: int)
    requires
        s.len() <= v.len(),
        0 <= k < s.len(),
    ensures
        push_all_view(v, s)[k] == s[s.len() - 1 - k],
    decreases s.len(),
{
    lemma_push_all_len(v, s);
    if s.len() == 1 {
        assert(s.skip(1).len() == 0);
        assert(push_all_view(push_view(v, s[0]), s.skip(1)) == push_view(v, s[0]));
    } else {
        lemma_push_all_len(push_view(v, s[0]), s.skip(1));
        if k < s.len() - 1 {
            lemma_delay_round_trip(push_view(v, s[0]), s.skip(1), k);
            assert(s.skip(1)[s.len() - 2 - k] == s[s.len() - 1 - k]);
        } else {
            // k == s.len() - 1: the first pushed sample has aged to the back
            lemma_push_front_persists(push_view(v, s[0]), s.skip(1), 0);
            assert(push_view(v, s[0])[0] == s[0]);
        }
    }
}

/// A sample at age `j` ages by exactly the number of later pushes, as long
/// as it stays inside the line.
pub proof fn lemma_push_front_persists(v: Seq<i64>, s: Seq<i64>, j: int)
    requires
        0 <= j,
        j + s.len() < v.len(),
    ensures
        push_all_view(v, s)[j + s.len()] == v[j],
    decreases s.len(),
{
    if s.len() > 0 {
        assert(push_view(v, s[0])[j + 1] == v[j]);
        lemma_push_front_persists(push_view(v, s[0]), s.skip(1), j + 1);
    }
}

/// The fixed-point interpolated read is linear interpolation exactly, up
/// to less than one least-significant bit:
/// `|S*r - ((S - f)*a + f*b)| < S`, and `r` lies between `a` and `b`.
pub proof fn lemma_lerp_linear(a: int, b: int, f: int)
    requires
        -FP_LIMIT / 2 <= a <= FP_LIMIT / 2,
        -FP_LIMIT / 2 <= b <= FP_LIMIT / 2,
        0 <= f < FP_ONE,
    ensures
        abs_i(FP_ONE * lerp_spec(a, b, f) - ((FP_ONE - f) * a + f * b)) < FP_ONE,
        a <= b ==> a <= lerp_spec(a, b, f) <= b,
        b <= a ==> b <= lerp_spec(a, b, f) <= a,
{
    let s: int = FP_ONE as int;
    let d: int = b - a;
    let m: int = fp_mul_spec(d, f);
    let l: int = lerp_spec(a, b, f);
    if d >= 0 {
        vstd::arithmetic::div_mod::lemma_fundamental_div_mod(d * f, s);
        vstd::arithmetic::div_mod::lemma_mod_division_less_than_divisor(d * f, s);
        vstd::arithmetic::div_mod::lemma_div_pos_is_pos(d * f, s);
        assert(d * f <= d * s) by (nonlinear_arith)
            requires
                0 <= d,
                f <= s,
        ;
        vstd::arithmetic::div_mod::lemma_multiply_divide_le(d * f, s, d);
        assert(0 <= d * f) by (nonlinear_arith)
            requires
                0 <= d,
                0 <= f,
        ;
        // m == (d*f)/s, no clamping since 0 <= m <= d <= FP_LIMIT
        assert(s * m - d * f > -s && s * m - d * f <= 0) by {
            assert(d * f == s * ((d * f) / s) + (d * f) % s);
        }
    } else {
        let dm: int = -d;
        vstd::arithmetic::div_mod::lemma_fundamental_div_mod(dm * f, s);
        vstd::arithmetic::div_mod::lemma_mod_division_less_than_divisor(dm * f, s);
        vstd::arithmetic::div_mod::lemma_div_pos_is_pos(dm * f, s);
        assert(dm * f <= dm * s) by (nonlinear_arith)
            requires
                0 <= dm,
                f <= s,
        ;
        vstd::arithmetic::div_mod::lemma_multiply_divide_le(dm * f, s, dm);
        assert(0 <= dm * f) by (nonlinear_arith)
            requires
                0 <= dm,
                0 <= f,
        ;
        let q: int = (dm * f) / s;
        assert(m == -q);
        assert(dm * f == s * q + (dm * f) % s);
        assert(d * f == -(dm * f)) by (nonlinear_arith)
            requires
                dm == -d,
        ;
        assert(s * m - d * f >= 0 && s * m - d * f < s);
    }
    assert(l == a + m);
    assert(s * l - ((s - f) * a + f * b) == s * m - d * f) by (nonlinear_arith)
        requires
            l == a + m,
            d == b - a,
    ;
}

} // verus!
