//! Evenly spaced scalar sequences.
//!
//! `linspace(from, to, n)` yields `n` fixed-point scalars starting at
//! `from`, advancing by `(to - from) / max(n - 1, 1)` each step. The
//! sequence is produced by a restartable cursor, `Linspace`, whose only
//! state is the current value and position.

use vstd::prelude::*;
use crate::fixed::VAL_LIMIT;
use crate::fixed::COUNT_LIMIT;

verus! {

/// The step taken between consecutive elements: `(to - from)` divided by
/// `max(n - 1, 1)`, truncated toward zero.
pub open spec fn lin_inc(from: int, to: int, n: int) -> int {
    let d = if n <= 1 { 1int } else { n - 1 };
    if to >= from {
        (to - from) / d
    } else {
        -((from - to) / d)
    }
}

/// The `k`-th element of `linspace(from, to, n)`.
pub open spec fn lin_elem(from: int, to: int, n: int, k: int) -> int {
    from + k * lin_inc(from, to, n)
}

/// A cursor over an evenly spaced, finite scalar sequence.
pub struct Linspace {
    pub increment: i64,
    pub n: usize,
    pub x: i64,
    pub i: usize,
}

impl Linspace {
    /// The first element of the full sequence, recovered from the cursor.
    pub open spec fn start(self) -> int {
        self.x - self.i * self.increment
    }

    /// The step between consecutive elements.
    pub open spec fn inc(self) -> int {
        self.increment as int
    }

    /// The length of the full sequence.
    pub open spec fn count(self) -> int {
        self.n as int
    }

    /// How many elements have been yielded so far.
    pub open spec fn pos(self) -> int {
        self.i as int
    }

    /// Cursor well-formedness: the position is within range and the
    /// values stay far from the `i64` limits.
    pub open spec fn wf(self) -> bool {
        &&& self.i <= self.n
        &&& self.n <= COUNT_LIMIT
        &&& -VAL_LIMIT <= self.start() <= VAL_LIMIT
        &&& -2 * VAL_LIMIT <= self.increment <= 2 * VAL_LIMIT
        &&& -2 * VAL_LIMIT <= (self.n - 1) * self.inc() <= 2 * VAL_LIMIT
    }

    /// Yields the next element, or `None` once `n` elements were yielded.
    pub fn next(&mut self) -> (r: Option<i64>)
        requires
            old(self).wf(),
        ensures
            final(self).wf(),
            final(self).start() == old(self).start(),
            final(self).inc() == old(self).inc(),
            final(self).count() == old(self).count(),
            old(self).pos() == old(self).count() ==> {
                &&& r is None
                &&& *final(self) == *old(self)
            },
            old(self).pos() < old(self).count() ==> {
                &&& final(self).pos() == old(self).pos() + 1
                &&& r == Some((old(self).start() + old(self).pos() * old(self).inc()) as i64)
            },
    {
        if self.i == self.n {
            return None;
        }
        let x = self.x;
        proof {
            lemma_elem_bounded(self.start(), self.inc(), self.count(), self.pos() + 1);
            assert((self.i + 1) * self.increment == self.i * self.increment + self.increment)
                by (nonlinear_arith);
        }
        self.x = self.x + self.increment;
        self.i = self.i + 1;
        Some(x)
    }
}

/// Every position `0 <= k <= n` of a well-formed cursor stays within
/// `3 * VAL_LIMIT + |inc|` of zero, so the running value never overflows.
proof fn lemma_elem_bounded(start: int, inc: int, n: int, k: int)
    requires
        0 <= k <= n,
        -VAL_LIMIT <= start <= VAL_LIMIT,
        -2 * VAL_LIMIT <= inc <= 2 * VAL_LIMIT,
        -2 * VAL_LIMIT <= (n - 1) * inc <= 2 * VAL_LIMIT,
    ensures
        -5 * VAL_LIMIT <= start + k * inc <= 5 * VAL_LIMIT,
{
    if k > 0 {
        assert(k * inc == (k - 1) * inc + inc) by (nonlinear_arith);
        if inc >= 0 {
            assert((k - 1) * inc <= (n - 1) * inc) by (nonlinear_arith)
                requires 0 <= k - 1 <= n - 1 && inc >= 0;
            assert((k - 1) * inc >= 0) by (nonlinear_arith)
                requires k - 1 >= 0 && inc >= 0;
        } else {
            assert((k - 1) * inc >= (n - 1) * inc) by (nonlinear_arith)
                requires 0 <= k - 1 <= n - 1 && inc < 0;
            assert((k - 1) * inc <= 0) by (nonlinear_arith)
                requires k - 1 >= 0 && inc < 0;
        }
    } else {
        assert(k * inc == 0) by (nonlinear_arith)
            requires k == 0;
    }
}

/// The increment satisfies `|inc * max(n - 1, 1)| <= |to - from|`, the
/// defining bound of a truncated division.
proof fn lemma_inc_bound(from: int, to: int, n: int)
    requires
        -VAL_LIMIT <= from <= VAL_LIMIT,
        -VAL_LIMIT <= to <= VAL_LIMIT,
        1 <= n,
    ensures
        -2 * VAL_LIMIT <= lin_inc(from, to, n) <= 2 * VAL_LIMIT,
        -2 * VAL_LIMIT <= (n - 1) * lin_inc(from, to, n) <= 2 * VAL_LIMIT,
{
    let d = if n <= 1 { 1int } else { n - 1 };
    if to >= from {
        let q = (to - from) / d;
        vstd::arithmetic::div_mod::lemma_div_pos_is_pos(to - from, d);
        vstd::arithmetic::div_mod::lemma_fundamental_div_mod(to - from, d);
        vstd::arithmetic::div_mod::lemma_mod_bound(to - from, d);
        assert(q <= d * q) by (nonlinear_arith)
            requires q >= 0 && d >= 1;
        assert(0 <= q <= to - from);
        assert(q * d <= to - from) by (nonlinear_arith)
            requires to - from == d * q + (to - from) % d && (to - from) % d >= 0;
        assert(0 <= q * d) by (nonlinear_arith)
            requires q >= 0 && d >= 1;
        if n > 1 {
            assert((n - 1) * q == q * d) by (nonlinear_arith)
                requires d == n - 1;
        } else {
            assert((n - 1) * q == 0) by (nonlinear_arith)
                requires n == 1;
        }
    } else {
        let q = (from - to) / d;
        vstd::arithmetic::div_mod::lemma_div_pos_is_pos(from - to, d);
        vstd::arithmetic::div_mod::lemma_fundamental_div_mod(from - to, d);
        vstd::arithmetic::div_mod::lemma_mod_bound(from - to, d);
        assert(q <= d * q) by (nonlinear_arith)
            requires q >= 0 && d >= 1;
        assert(0 <= q <= from - to);
        assert(q * d <= from - to) by (nonlinear_arith)
            requires from - to == d * q + (from - to) % d && (from - to) % d >= 0;
        assert(0 <= q * d) by (nonlinear_arith)
            requires q >= 0 && d >= 1;
        if n > 1 {
            assert((n - 1) * -q == -(q * d)) by (nonlinear_arith)
                requires d == n - 1;
        } else {
            assert((n - 1) * -q == 0) by (nonlinear_arith)
                requires n == 1;
        }
    }
}

/// Builds the cursor for `n` evenly spaced scalars from `from` toward `to`.
pub fn linspace(from: i64, to: i64, n: usize) -> (r: Linspace)
    requires
        -VAL_LIMIT <= from <= VAL_LIMIT,
        -VAL_LIMIT <= to <= VAL_LIMIT,
        n <= COUNT_LIMIT,
    ensures
        r.wf(),
        r.start() == from,
        r.inc() == lin_inc(from as int, to as int, n as int),
        r.count() == n,
        r.pos() == 0,
{
    let d: i64 = if n <= 1 { 1 } else { (n - 1) as i64 };
    let increment: i64 = if to >= from { (to - from) / d } else { -((from - to) / d) };
    proof {
        let nn: int = if n as int >= 1 { n as int } else { 1int };
        let inc = lin_inc(from as int, to as int, nn);
        lemma_inc_bound(from as int, to as int, nn);
        if n == 0 {
            assert(lin_inc(from as int, to as int, 0) == lin_inc(from as int, to as int, 1));
            assert((0 - 1) * inc == -inc) by (nonlinear_arith);
        }
        assert(0 * inc == 0) by (nonlinear_arith);
    }
    Linspace { increment, n, x: from, i: 0 }
}

/// Collects the full sequence into a vector: element `k` is
/// `from + k * lin_inc(from, to, n)`.
pub fn linspace_vec(from: i64, to: i64, n: usize) -> (r: Vec<i64>)
    requires
        -VAL_LIMIT <= from <= VAL_LIMIT,
        -VAL_LIMIT <= to <= VAL_LIMIT,
        n <= COUNT_LIMIT,
    ensures
        r@.len() == n,
        forall|k: int| 0 <= k < n ==> r@[k] == lin_elem(from as int, to as int, n as int, k),
    {
    let mut cur = linspace(from, to, n);
    let mut out: Vec<i64> = Vec::new();
    loop
        invariant
            cur.wf(),
            cur.start() == from,
            cur.inc() == lin_inc(from as int, to as int, n as int),
            cur.count() == n,
            cur.pos() == out@.len(),
            out@.len() <= n,
            forall|k: int| 0 <= k < out@.len()
                ==> out@[k] == lin_elem(from as int, to as int, n as int, k),
        decreases n - out@.len(),
    {
        match cur.next() {
            Some(v) => {
                out.push(v);
            },
            None => {
                return out;
            },
        }
    }
}

/// An evenly spaced sequence of at least two elements begins exactly at
/// `from`, ends within `n` units of `to`, and is strictly monotonic as
/// soon as the endpoints differ by at least `n - 1` units.
pub proof fn lemma_linspace_shape(from: int, to: int, n: int)
    requires
        -VAL_LIMIT <= from <= VAL_LIMIT,
        -VAL_LIMIT <= to <= VAL_LIMIT,
        2 <= n,
    ensures
        lin_elem(from, to, n, 0) == from,
        -(n as int) < lin_elem(from, to, n, n - 1) - to < n,
        to - from >= n - 1 ==> forall|k: int|
            0 <= k < n - 1 ==> #[trigger] lin_elem(from, to, n, k) < lin_elem(from, to, n, k + 1),
        from - to >= n - 1 ==> forall|k: int|
            0 <= k < n - 1 ==> #[trigger] lin_elem(from, to, n, k) > lin_elem(from, to, n, k + 1),
{
    let d = n - 1;
    let inc = lin_inc(from, to, n);
    assert(0 * inc == 0) by (nonlinear_arith);
    if to >= from {
        let q = (to - from) / d;
        let m = (to - from) % d;
        vstd::arithmetic::div_mod::lemma_fundamental_div_mod(to - from, d);
        vstd::arithmetic::div_mod::lemma_mod_bound(to - from, d);
        assert(d * q == (n - 1) * q) by (nonlinear_arith)
            requires d == n - 1;
        assert(lin_elem(from, to, n, n - 1) - to == -m);
        if to - from >= n - 1 {
            vstd::arithmetic::div_mod::lemma_div_non_zero(to - from, d);
            assert(inc >= 1);
            assert forall|k: int| 0 <= k < n - 1 implies
                #[trigger] lin_elem(from, to, n, k) < lin_elem(from, to, n, k + 1) by {
                assert((k + 1) * inc - k * inc == inc) by (nonlinear_arith);
            }
        }
    } else {
        let q = (from - to) / d;
        let m = (from - to) % d;
        vstd::arithmetic::div_mod::lemma_fundamental_div_mod(from - to, d);
        vstd::arithmetic::div_mod::lemma_mod_bound(from - to, d);
        assert(d * q == (n - 1) * q) by (nonlinear_arith)
            requires d == n - 1;
        assert((n - 1) * -q == -((n - 1) * q)) by (nonlinear_arith);
        assert(lin_elem(from, to, n, n - 1) - to == m);
        if from - to >= n - 1 {
            vstd::arithmetic::div_mod::lemma_div_non_zero(from - to, d);
            assert(inc <= -1);
            assert forall|k: int| 0 <= k < n - 1 implies
                #[trigger] lin_elem(from, to, n, k) > lin_elem(from, to, n, k + 1) by {
                assert((k + 1) * inc - k * inc == inc) by (nonlinear_arith);
            }
        }
    }
}

/// A single-element sequence consists of `from` alone.
pub proof fn lemma_linspace_single(from: int, to: int)
    requires
        -VAL_LIMIT <= from <= VAL_LIMIT,
        -VAL_LIMIT <= to <= VAL_LIMIT,
    ensures
        lin_elem(from, to, 1, 0) == from,
{
    assert(0 * lin_inc(from, to, 1) == 0) by (nonlinear_arith);
}

} // verus!
