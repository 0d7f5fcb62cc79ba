//! The spigot digit generator for pi.
//!
//! A generator holds a 2x2 integer transform `z` and a term counter `k`.
//! Each step either emits the next decimal digit — once the digit is the
//! same whether the unknown tail of the expansion is evaluated at 3 or
//! at 4 — or absorbs one more continued-fraction term of pi into `z`.

use vstd::prelude::*;
use vstd::arithmetic::div_mod::{lemma_fundamental_div_mod, lemma_mod_bound};
use vstd::arithmetic::mul::{
    lemma_mul_is_associative, lemma_mul_is_distributive_add, lemma_mul_is_distributive_add_other_way,
};
use crate::bigint::{int_of, big_add, big_mul, big_div, big_eq, big_clone, big_from_u32, big_from_i32};

verus! {

/// Mathematical model of a transform: the map `x |-> (q*x + r) / (s*x + t)`.
pub struct QuadV {
    pub q: int,
    pub r: int,
    pub s: int,
    pub t: int,
}

/// A 2x2 rational transform over arbitrary-precision integers.
pub struct Quad {
    pub q: num_bigint::BigInt,
    pub r: num_bigint::BigInt,
    pub s: num_bigint::BigInt,
    pub t: num_bigint::BigInt,
}

impl View for Quad {
    type V = QuadV;

    open spec fn view(&self) -> QuadV {
        QuadV { q: int_of(self.q), r: int_of(self.r), s: int_of(self.s), t: int_of(self.t) }
    }
}

/// Matrix-style composition of two transforms.
pub open spec fn comp_v(a: QuadV, b: QuadV) -> QuadV {
    QuadV {
        q: a.q * b.q + a.r * b.s,
        r: a.q * b.r + a.r * b.t,
        s: a.s * b.q + a.t * b.s,
        t: a.s * b.r + a.t * b.t,
    }
}

/// The k-th continued-fraction term of pi, as a transform.
pub open spec fn lfts_v(k: int) -> QuadV {
    QuadV { q: k, r: 4 * k + 2, s: 0, t: 2 * k + 1 }
}

/// Numerator of `z` applied to the integer `x`.
pub open spec fn extr_num(z: QuadV, x: int) -> int {
    z.q * x + z.r
}

/// Denominator of `z` applied to the integer `x`.
pub open spec fn extr_den(z: QuadV, x: int) -> int {
    z.s * x + z.t
}

/// Floor of `z` applied to the integer `x`.
pub open spec fn digit_at(z: QuadV, x: int) -> int {
    extr_num(z, x) / extr_den(z, x)
}

/// The candidate digit of a state: the floor of the transform at 3.
pub open spec fn out_digit(z: QuadV) -> int {
    digit_at(z, 3)
}

/// A digit is settled when evaluating the transform at 4 instead of 3
/// leaves its floor unchanged; the tail can then no longer move it.
pub open spec fn is_settled(z: QuadV) -> bool {
    digit_at(z, 4) == out_digit(z)
}

/// The state after digit `n` is produced: scale by 10 and drop `n`.
pub open spec fn prod_v(z: QuadV, n: int) -> QuadV {
    comp_v(QuadV { q: 10, r: -10 * n, s: 0, t: 1 }, z)
}

/// Well-formedness of every reachable transform: the lower row is `(0, t)`
/// with `t` positive, the map is increasing on `[3, 4]`, and its image of
/// `[3, 4]` lies within `[0, 10)` — which is what keeps every produced
/// digit in range.
pub open spec fn wf(z: QuadV) -> bool {
    &&& z.s == 0
    &&& z.t >= 1
    &&& z.q >= 1
    &&& 3 * z.q + z.r >= 0
    &&& 4 * z.q + z.r < 10 * z.t
}

/// Mathematical model of a generator: its transform and term counter.
pub struct GenV {
    pub z: QuadV,
    pub k: int,
}

/// Well-formedness of a generator state.
pub open spec fn gen_wf(g: GenV) -> bool {
    wf(g.z) && g.k >= 1
}

/// The state of a freshly constructed generator.
pub open spec fn init_gen() -> GenV {
    GenV { z: QuadV { q: 1, r: 0, s: 0, t: 1 }, k: 1 }
}

/// The transform after absorbing `j` further terms, starting at term `k`.
pub open spec fn absorbed(z: QuadV, k: int, j: nat) -> QuadV
    decreases j,
{
    if j == 0 {
        z
    } else {
        comp_v(absorbed(z, k, (j - 1) as nat), lfts_v(k + j - 1))
    }
}

/// Whether the digit is settled after absorbing `i` further terms.
pub open spec fn settled_at(g: GenV, i: nat) -> bool {
    is_settled(absorbed(g.z, g.k, i))
}

/// One observable step of the generator: from state `g`, absorb exactly
/// `j` terms — the digit being unsettled before each of them — reach a
/// settled transform, emit its digit `d`, and move to state `g2`.
pub open spec fn emits(g: GenV, j: nat, d: int, g2: GenV) -> bool {
    let zj = absorbed(g.z, g.k, j);
    &&& forall|i: nat| i < j ==> !settled_at(g, i)
    &&& is_settled(zj)
    &&& d == out_digit(zj)
    &&& g2.z == prod_v(zj, d)
    &&& g2.k == g.k + j
}

/// Law: transform composition is associative, so terms may be absorbed
/// incrementally in any grouping.
pub proof fn lemma_comp_assoc(a: QuadV, b: QuadV, c: QuadV)
    ensures
        comp_v(comp_v(a, b), c) == comp_v(a, comp_v(b, c)),
{
    lemma_comp_entry(a.q, a.r, b.q, b.s, c.q, b.r, b.t, c.s);
    lemma_comp_entry(a.q, a.r, b.q, b.s, c.r, b.r, b.t, c.t);
    lemma_comp_entry(a.s, a.t, b.q, b.s, c.q, b.r, b.t, c.s);
    lemma_comp_entry(a.s, a.t, b.q, b.s, c.r, b.r, b.t, c.t);
}

/// One entry of the associativity computation: expanding the products
/// of sums and regrouping each term around the middle factor.
proof fn lemma_comp_entry(x: int, y: int, u1: int, v1: int, w1: int, u2: int, v2: int, w2: int)
    ensures
        (x * u1 + y * v1) * w1 + (x * u2 + y * v2) * w2
            == x * (u1 * w1 + u2 * w2) + y * (v1 * w1 + v2 * w2),
{
    lemma_mul_is_distributive_add_other_way(w1, x * u1, y * v1);
    lemma_mul_is_distributive_add_other_way(w2, x * u2, y * v2);
    lemma_mul_is_associative(x, u1, w1);
    lemma_mul_is_associative(y, v1, w1);
    lemma_mul_is_associative(x, u2, w2);
    lemma_mul_is_associative(y, v2, w2);
    lemma_mul_is_distributive_add(x, u1 * w1, u2 * w2);
    lemma_mul_is_distributive_add(y, v1 * w1, v2 * w2);
}

/// Absorbing one term preserves well-formedness of the transform.
proof fn lemma_absorb_wf(z: QuadV, k: int)
    requires
        wf(z),
        k >= 1,
    ensures
        wf(comp_v(z, lfts_v(k))),
{
    assert(z.s * k + z.t * 0 == 0
        && z.s * (4 * k + 2) + z.t * (2 * k + 1) >= 1
        && z.q * k + z.r * 0 >= 1
        && 3 * (z.q * k + z.r * 0) + (z.q * (4 * k + 2) + z.r * (2 * k + 1)) >= 0
        && 4 * (z.q * k + z.r * 0) + (z.q * (4 * k + 2) + z.r * (2 * k + 1))
            < 10 * (z.s * (4 * k + 2) + z.t * (2 * k + 1))) by (nonlinear_arith)
        requires
            z.s == 0,
            z.t >= 1,
            z.q >= 1,
            3 * z.q + z.r >= 0,
            4 * z.q + z.r < 10 * z.t,
            k >= 1;
}

/// Emitting a settled digit preserves well-formedness, and the digit
/// itself lies in `[0, 9]`.
proof fn lemma_emit_wf(z: QuadV, n: int)
    requires
        wf(z),
        n == out_digit(z),
        is_settled(z),
    ensures
        wf(prod_v(z, n)),
        0 <= n <= 9,
{
    let num3 = 3 * z.q + z.r;
    let num4 = 4 * z.q + z.r;
    let t = z.t;
    assert(extr_num(z, 3) == num3 && extr_den(z, 3) == t);
    assert(extr_num(z, 4) == num4 && extr_den(z, 4) == t);
    lemma_fundamental_div_mod(num3, t);
    lemma_mod_bound(num3, t);
    lemma_fundamental_div_mod(num4, t);
    lemma_mod_bound(num4, t);
    let r3 = num3 % t;
    let r4 = num4 % t;
    assert(0 <= n && n <= 9
        && 10 * z.q + (-10 * n) * z.s >= 1
        && 3 * (10 * z.q + (-10 * n) * z.s) + (10 * z.r + (-10 * n) * z.t) >= 0
        && 4 * (10 * z.q + (-10 * n) * z.s) + (10 * z.r + (-10 * n) * z.t)
            < 10 * (0 * z.r + 1 * z.t)) by (nonlinear_arith)
        requires
            z.s == 0,
            t == z.t,
            t >= 1,
            z.q >= 1,
            num3 == 3 * z.q + z.r,
            num4 == 4 * z.q + z.r,
            num3 >= 0,
            num4 < 10 * t,
            num3 == t * n + r3,
            0 <= r3 < t,
            num4 == t * n + r4,
            0 <= r4 < t;
    assert(prod_v(z, n).s == 0 * z.q + 1 * z.s);
    assert(prod_v(z, n).t == 0 * z.r + 1 * z.t);
}

/// Law: a generator step is a function of the state alone — the number of
/// absorbed terms, the emitted digit and the successor state are uniquely
/// determined. Two generators in equal states therefore produce the same
/// digit sequence, and a fresh generator always restarts it from the top.
pub proof fn lemma_emits_deterministic(g: GenV, j1: nat, d1: int, g1: GenV, j2: nat, d2: int, g2: GenV)
    requires
        emits(g, j1, d1, g1),
        emits(g, j2, d2, g2),
    ensures
        j1 == j2,
        d1 == d2,
        g1 == g2,
{
    if j1 < j2 {
        assert(!settled_at(g, j1));
        assert(false);
    }
    if j2 < j1 {
        assert(!settled_at(g, j2));
        assert(false);
    }
}

/// Composes two transforms.
fn comp(a: &Quad, b: &Quad) -> (c: Quad)
    ensures
        c@ == comp_v(a@, b@),
{
    Quad {
        q: big_add(&big_mul(&a.q, &b.q), &big_mul(&a.r, &b.s)),
        r: big_add(&big_mul(&a.q, &b.r), &big_mul(&a.r, &b.t)),
        s: big_add(&big_mul(&a.s, &b.q), &big_mul(&a.t, &b.s)),
        t: big_add(&big_mul(&a.s, &b.r), &big_mul(&a.t, &b.t)),
    }
}

/// The k-th continued-fraction term transform `(k, 4k+2, 0, 2k+1)`.
fn lfts(k: &num_bigint::BigInt) -> (l: Quad)
    ensures
        l@ == lfts_v(int_of(*k)),
{
    let four = big_from_u32(4);
    let two = big_from_u32(2);
    let one = big_from_u32(1);
    Quad {
        q: big_clone(k),
        r: big_add(&big_mul(&four, k), &two),
        s: big_from_u32(0),
        t: big_add(&big_mul(&two, k), &one),
    }
}

/// Applies `z` to the integer `x`, returning numerator and denominator
/// with the division still deferred.
fn extr(z: &Quad, x: u32) -> (p: (num_bigint::BigInt, num_bigint::BigInt))
    ensures
        int_of(p.0) == extr_num(z@, x as int),
        int_of(p.1) == extr_den(z@, x as int),
{
    let xb = big_from_u32(x);
    (
        big_add(&big_mul(&z.q, &xb), &z.r),
        big_add(&big_mul(&z.s, &xb), &z.t),
    )
}

/// The candidate next digit: the floor of `z` at 3.
fn next_digit(z: &Quad) -> (d: num_bigint::BigInt)
    requires
        wf(z@),
    ensures
        int_of(d) == out_digit(z@),
{
    let (num, den) = extr(z, 3);
    proof {
        assert(extr_num(z@, 3) == 3 * z@.q + z@.r);
        assert(extr_den(z@, 3) == z@.t);
    }
    big_div(&num, &den)
}

/// Whether the candidate digit `n` is already settled for `z`.
fn safe(z: &Quad, n: &num_bigint::BigInt) -> (r: bool)
    requires
        wf(z@),
    ensures
        r == (digit_at(z@, 4) == int_of(*n)),
{
    let (num, den) = extr(z, 4);
    proof {
        assert(extr_num(z@, 4) == 4 * z@.q + z@.r);
        assert(extr_den(z@, 4) == z@.t);
    }
    let d = big_div(&num, &den);
    big_eq(&d, n)
}

/// Absorbs a term transform into the accumulated state.
fn cons(z: &Quad, z1: &Quad) -> (w: Quad)
    ensures
        w@ == comp_v(z@, z1@),
{
    comp(z, z1)
}

/// Rescales the state after digit `n` has been produced.
fn prod(z: &Quad, n: &num_bigint::BigInt) -> (w: Quad)
    ensures
        w@ == prod_v(z@, int_of(*n)),
{
    let matrix = Quad {
        q: big_from_u32(10),
        r: big_mul(&big_from_i32(-10), n),
        s: big_from_u32(0),
        t: big_from_u32(1),
    };
    comp(&matrix, z)
}

/// A stateful producer of the decimal digits of pi: first the integer
/// part 3, then the fractional digits, one per call, forever. The
/// sequence is one-shot: a consumed digit cannot be regenerated from the
/// same instance.
pub struct PiGen {
    z: Quad,
    k: num_bigint::BigInt,
}

impl View for PiGen {
    type V = GenV;

    closed spec fn view(&self) -> GenV {
        GenV { z: self.z@, k: int_of(self.k) }
    }
}

impl PiGen {
    /// The current term counter `k`: how many continued-fraction terms
    /// have been absorbed, plus one.
    pub fn term_index(&self) -> (k: num_bigint::BigInt)
        ensures
            int_of(k) == self@.k,
    {
        big_clone(&self.k)
    }

    /// Produces the next decimal digit of pi.
    ///
    /// Absorbs terms until the digit is settled, then emits it; the new
    /// state and the digit are the unique ones that `emits` allows, and
    /// the digit always lies in `[0, 9]`. `None` is returned only in the
    /// practically unreachable case that the digit is still unsettled
    /// after `u64::MAX` absorbed terms.
    #[verifier::loop_isolation(false)]
    pub fn next(&mut self) -> (r: Option<num_bigint::BigInt>)
        requires
            gen_wf(old(self)@),
        ensures
            gen_wf(final(self)@),
            final(self)@.k >= old(self)@.k,
            (r matches Some(d) ==>
                0 <= int_of(d) <= 9
                && final(self)@.k - old(self)@.k < u64::MAX
                && emits(old(self)@, (final(self)@.k - old(self)@.k) as nat, int_of(d), final(self)@)),
            (r is None ==> forall|i: nat| i < u64::MAX as nat ==> !settled_at(old(self)@, i)),
            (r is None ==> final(self)@.z == absorbed(old(self)@.z, old(self)@.k, u64::MAX as nat)
                && final(self)@.k == old(self)@.k + u64::MAX),
            (r is Some <==> exists|i: nat| i < u64::MAX as nat && settled_at(old(self)@, i)),
    {
        let ghost g0 = self@;
        let mut fuel: u64 = u64::MAX;
        while 0 < fuel
            invariant
                gen_wf(self@),
                self@.k == g0.k + (u64::MAX - fuel),
                self@.z == absorbed(g0.z, g0.k, (u64::MAX - fuel) as nat),
                forall|i: nat| i < (u64::MAX - fuel) as nat ==> !settled_at(g0, i),
            decreases fuel,
        {
            let ghost j = (u64::MAX - fuel) as nat;
            let cand = next_digit(&self.z);
            if safe(&self.z, &cand) {
                proof {
                    assert(settled_at(g0, j));
                    lemma_emit_wf(self@.z, int_of(cand));
                }
                let newz = prod(&self.z, &cand);
                self.z = newz;
                return Some(cand);
            }
            proof {
                assert(!settled_at(g0, j));
                lemma_absorb_wf(self@.z, self@.k);
            }
            let lft = lfts(&self.k);
            let newz = cons(&self.z, &lft);
            self.z = newz;
            let one = big_from_u32(1);
            let newk = big_add(&self.k, &one);
            self.k = newk;
            fuel = fuel - 1;
            proof {
                assert(self@.z == absorbed(g0.z, g0.k, j + 1));
            }
        }
        None
    }
}

/// Constructs a fresh generator: identity transform, term counter 1.
pub fn generator() -> (g: PiGen)
    ensures
        g@ == init_gen(),
        gen_wf(g@),
{
    PiGen {
        z: Quad {
            q: big_from_u32(1),
            r: big_from_u32(0),
            s: big_from_u32(0),
            t: big_from_u32(1),
        },
        k: big_from_u32(1),
    }
}

} // verus!
