//! Completeness of the commitment: on an honest reference string, an honest
//! opening verifies.
use vstd::prelude::*;
use vstd::arithmetic::div_mod::{lemma_add_mod_noop, lemma_mul_mod_noop_left, lemma_mul_mod_noop_right};
use vstd::arithmetic::power::{lemma_pow0, lemma_pow1, lemma_pow_adds, pow};
use crate::field::{fr_modulus, lemma_modulus_large};
use crate::group::{g1_logs, lin_comb};
use crate::scheme::{
    b_log, commit_log, g1_power_log, inner_product_spec, min_len, open_log, open_row, open_rows, verify_holds,
    CommitmentKey,
};

verus! {

proof fn lemma_add_congr(x: int, x2: int, y: int, y2: int)
    requires
        x % fr_modulus() == x2 % fr_modulus(),
        y % fr_modulus() == y2 % fr_modulus(),
    ensures
        (x + y) % fr_modulus() == (x2 + y2) % fr_modulus(),
{
    let m = fr_modulus();
    lemma_modulus_large();
    lemma_add_mod_noop(x, y, m);
    lemma_add_mod_noop(x2, y2, m);
}

proof fn lemma_mul_congr(x: int, x2: int, y: int, y2: int)
    requires
        x % fr_modulus() == x2 % fr_modulus(),
        y % fr_modulus() == y2 % fr_modulus(),
    ensures
        (x * y) % fr_modulus() == (x2 * y2) % fr_modulus(),
{
    let m = fr_modulus();
    lemma_modulus_large();
    lemma_mul_mod_noop_left(x, y, m);
    lemma_mul_mod_noop_left(x2, y, m);
    lemma_mul_mod_noop_right(x2, y, m);
    lemma_mul_mod_noop_right(x2, y2, m);
}

proof fn lemma_mod_mod(x: int)
    ensures
        (x % fr_modulus()) % fr_modulus() == x % fr_modulus(),
{
    lemma_modulus_large();
    vstd::arithmetic::div_mod::lemma_mod_twice(x, fr_modulus());
}

/// `sum of ks[i] * e(i)` for `i < n`.
spec fn wsum(ks: Seq<int>, e: spec_fn(int) -> int, n: int) -> int
    decreases n,
{
    if n <= 0 {
        0
    } else {
        wsum(ks, e, n - 1) + ks[n - 1] * e(n - 1)
    }
}

proof fn lemma_wsum_prefix(ks: Seq<int>, e: spec_fn(int) -> int, n: int)
    requires
        0 <= n < ks.len(),
    ensures
        wsum(ks.drop_last(), e, n) == wsum(ks, e, n),
    decreases n,
{
    if n > 0 {
        lemma_wsum_prefix(ks, e, n - 1);
    }
}

/// A combination of exponents that are `c * e(i)` modulo `r` is `c` times the
/// weighted sum of `e`.
proof fn lemma_lin_comb_scaled(logs: Seq<int>, ks: Seq<int>, c: int, e: spec_fn(int) -> int)
    requires
        logs.len() <= ks.len(),
        forall|i: int| 0 <= i < logs.len() ==> #[trigger] logs[i] % fr_modulus() == (c * e(i)) % fr_modulus(),
    ensures
        lin_comb(logs, ks) % fr_modulus() == (c * wsum(ks, e, logs.len() as int)) % fr_modulus(),
    decreases logs.len(),
{
    let n = logs.len() as int;
    if n > 0 {
        let (l0, k0) = (logs.drop_last(), ks.drop_last());
        assert forall|i: int| 0 <= i < l0.len() implies #[trigger] l0[i] % fr_modulus() == (c * e(i)) % fr_modulus() by {
            assert(l0[i] == logs[i]);
        }
        lemma_lin_comb_scaled(l0, k0, c, e);
        lemma_wsum_prefix(ks, e, n - 1);
        let w = wsum(ks, e, n - 1);
        let kl = ks[n - 1];
        lemma_mul_congr(logs[n - 1], c * e(n - 1), kl, kl);
        lemma_add_congr(lin_comb(l0, k0), c * w, logs[n - 1] * kl, c * e(n - 1) * kl);
        assert(c * w + c * e(n - 1) * kl == c * (w + kl * e(n - 1))) by (nonlinear_arith);
    }
}

/// The key is the honest reference string for dimension `d`, with G1 base of
/// exponent `g`, G2 base of exponent `h` and trapdoor `beta`: its G1 powers are
/// `0..=d` and `d+2..=2d`, its G2 powers `0..=d+1`.
pub open spec fn well_formed(key: CommitmentKey, d: int, g: int, h: int, beta: int) -> bool {
    &&& d >= 1
    &&& key.powers_g1@.len() == d + 1
    &&& key.powers_g1_high@.len() == d - 1
    &&& key.powers_g2@.len() == d + 2
    &&& forall|k: int| 0 <= k <= d ==> (#[trigger] key.powers_g1@[k]).log() % fr_modulus()
        == (g * pow(beta, k as nat)) % fr_modulus()
    &&& forall|k: int| 0 <= k < d - 1 ==> (#[trigger] key.powers_g1_high@[k]).log() % fr_modulus()
        == (g * pow(beta, (k + d + 2) as nat)) % fr_modulus()
    &&& forall|k: int| 0 <= k < d + 2 ==> (#[trigger] key.powers_g2@[k]).log() % fr_modulus()
        == (h * pow(beta, k as nat)) % fr_modulus()
}

spec fn pow_from(beta: int) -> spec_fn(int) -> int {
    |i: int| pow(beta, i as nat)
}

spec fn pow_down_from(beta: int, d: int) -> spec_fn(int) -> int {
    |j: int| pow(beta, (d + 1 - j) as nat)
}

/// `A(beta)`.
spec fn poly_a(a: Seq<int>, beta: int) -> int {
    wsum(a, pow_from(beta), a.len() as int)
}

/// `B(beta)`.
spec fn poly_b(b: Seq<int>, beta: int, d: int) -> int {
    wsum(b, pow_down_from(beta, d), b.len() as int)
}

proof fn lemma_commit_log(key: CommitmentKey, d: int, g: int, h: int, beta: int, a: Seq<int>)
    requires
        well_formed(key, d, g, h, beta),
        a.len() <= d,
    ensures
        commit_log(key, a) == (g * poly_a(a, beta)) % fr_modulus(),
{
    let logs = g1_logs(key.powers_g1@).take(a.len() as int);
    assert forall|i: int| 0 <= i < logs.len() implies #[trigger] logs[i] % fr_modulus()
        == (g * pow_from(beta)(i)) % fr_modulus() by {
        assert(logs[i] == key.powers_g1@[i].log());
    }
    lemma_lin_comb_scaled(logs, a, g, pow_from(beta));
    lemma_mod_mod(lin_comb(logs, a));
}

proof fn lemma_b_log(key: CommitmentKey, d: int, g: int, h: int, beta: int, b: Seq<int>)
    requires
        well_formed(key, d, g, h, beta),
        b.len() <= d,
    ensures
        b_log(key, d, b) == (h * poly_b(b, beta, d)) % fr_modulus(),
{
    let logs = Seq::new(b.len(), |j: int| key.powers_g2@[d + 1 - j].log());
    assert forall|j: int| 0 <= j < logs.len() implies #[trigger] logs[j] % fr_modulus()
        == (h * pow_down_from(beta, d)(j)) % fr_modulus() by {
        assert(logs[j] == key.powers_g2@[d + 1 - j].log());
        assert(key.powers_g2@[d + 1 - j].log() % fr_modulus() == (h * pow(beta, (d + 1 - j) as nat)) % fr_modulus());
    }
    lemma_lin_comb_scaled(logs, b, h, pow_down_from(beta, d));
    lemma_mod_mod(lin_comb(logs, b));
}

/// Row `i` of the quotient: `sum of a[i] b[j] beta^(d+1+i-j)` for `j < n`, `j != i`.
spec fn qrow(a: Seq<int>, b: Seq<int>, beta: int, d: int, i: int, n: int) -> int
    decreases n,
{
    if n <= 0 {
        0
    } else {
        qrow(a, b, beta, d, i, n - 1) + if i != n - 1 {
            (a[i] * b[n - 1]) * pow(beta, (d + 1 + i - (n - 1)) as nat)
        } else {
            0
        }
    }
}

/// Rows `0..m` of the quotient.
spec fn qsum(a: Seq<int>, b: Seq<int>, beta: int, d: int, m: int) -> int
    decreases m,
{
    if m <= 0 {
        0
    } else {
        qsum(a, b, beta, d, m - 1) + qrow(a, b, beta, d, m - 1, b.len() as int)
    }
}

/// The exact inner product of the first `n` entries.
spec fn dot(a: Seq<int>, b: Seq<int>, n: int) -> int
    decreases n,
{
    if n <= 0 {
        0
    } else {
        dot(a, b, n - 1) + a[n - 1] * b[n - 1]
    }
}

proof fn lemma_open_row(key: CommitmentKey, d: int, g: int, h: int, beta: int, a: Seq<int>, b: Seq<int>, i: int, n: int)
    requires
        well_formed(key, d, g, h, beta),
        a.len() <= d,
        b.len() <= d,
        0 <= i < a.len(),
        0 <= n <= b.len(),
    ensures
        open_row(key, d, a, b, i, n) % fr_modulus() == (g * qrow(a, b, beta, d, i, n)) % fr_modulus(),
    decreases n,
{
    if n > 0 {
        lemma_open_row(key, d, g, h, beta, a, b, i, n - 1);
        let prev = open_row(key, d, a, b, i, n - 1);
        let qprev = qrow(a, b, beta, d, i, n - 1);
        if i != n - 1 {
            let k = d + 1 + i - (n - 1);
            let pk = pow(beta, k as nat);
            let ab = a[i] * b[n - 1];
            if k <= d {
                assert(key.powers_g1@[k].log() % fr_modulus() == (g * pow(beta, k as nat)) % fr_modulus());
            } else {
                assert(key.powers_g1_high@[k - d - 2].log() % fr_modulus()
                    == (g * pow(beta, (k - d - 2 + d + 2) as nat)) % fr_modulus());
            }
            lemma_mod_mod(ab);
            lemma_mul_congr(g1_power_log(key, d, k), g * pk, ab % fr_modulus(), ab);
            lemma_add_congr(prev, g * qprev, g1_power_log(key, d, k) * (ab % fr_modulus()), g * pk * ab);
            assert(g * qprev + g * pk * ab == g * (qprev + ab * pk)) by (nonlinear_arith);
        }
    }
}

proof fn lemma_open_rows(key: CommitmentKey, d: int, g: int, h: int, beta: int, a: Seq<int>, b: Seq<int>, m: int)
    requires
        well_formed(key, d, g, h, beta),
        a.len() <= d,
        b.len() <= d,
        0 <= m <= a.len(),
    ensures
        open_rows(key, d, a, b, m) % fr_modulus() == (g * qsum(a, b, beta, d, m)) % fr_modulus(),
    decreases m,
{
    if m > 0 {
        lemma_open_rows(key, d, g, h, beta, a, b, m - 1);
        lemma_open_row(key, d, g, h, beta, a, b, m - 1, b.len() as int);
        let q0 = qsum(a, b, beta, d, m - 1);
        let q1 = qrow(a, b, beta, d, m - 1, b.len() as int);
        lemma_add_congr(open_rows(key, d, a, b, m - 1), g * q0, open_row(key, d, a, b, m - 1, b.len() as int), g * q1);
        assert(g * q0 + g * q1 == g * (q0 + q1)) by (nonlinear_arith);
    }
}

proof fn lemma_inner_product(a: Seq<int>, b: Seq<int>, n: int)
    requires
        0 <= n <= a.len(),
        n <= b.len(),
    ensures
        inner_product_spec(a, b, n) == dot(a, b, n) % fr_modulus(),
    decreases n,
{
    if n > 0 {
        lemma_inner_product(a, b, n - 1);
        let ab = a[n - 1] * b[n - 1];
        lemma_mod_mod(ab);
        lemma_mod_mod(dot(a, b, n - 1));
        lemma_add_congr(inner_product_spec(a, b, n - 1), dot(a, b, n - 1), ab % fr_modulus(), ab);
    }
}

/// `a[i] b[i]` when `i < n`, else zero.
spec fn diag(a: Seq<int>, b: Seq<int>, i: int, n: int) -> int {
    if i < n {
        a[i] * b[i]
    } else {
        0
    }
}

spec fn dsum(a: Seq<int>, b: Seq<int>, m: int) -> int
    decreases m,
{
    if m <= 0 {
        0
    } else {
        dsum(a, b, m - 1) + diag(a, b, m - 1, b.len() as int)
    }
}

/// `a[i] beta^i B(beta)` splits into its `X^(d+1)` term and row `i` of the quotient.
proof fn lemma_row_product(a: Seq<int>, b: Seq<int>, beta: int, d: int, i: int, n: int)
    requires
        0 <= i < a.len() <= d,
        0 <= n <= b.len() <= d,
    ensures
        a[i] * pow(beta, i as nat) * wsum(b, pow_down_from(beta, d), n)
            == diag(a, b, i, n) * pow(beta, (d + 1) as nat) + qrow(a, b, beta, d, i, n),
    decreases n,
{
    if n > 0 {
        lemma_row_product(a, b, beta, d, i, n - 1);
        let x = a[i] * pow(beta, i as nat);
        let w = wsum(b, pow_down_from(beta, d), n - 1);
        let e = d + 1 - (n - 1);
        let pe = pow(beta, e as nat);
        assert(pow_down_from(beta, d)(n - 1) == pe);
        lemma_pow_adds(beta, i as nat, e as nat);
        assert((i as nat + e as nat) as nat == (d + 1 + i - (n - 1)) as nat);
        let pie = pow(beta, (d + 1 + i - (n - 1)) as nat);
        assert(pie == pow(beta, i as nat) * pe);
        let (ai, bn, pi) = (a[i], b[n - 1], pow(beta, i as nat));
        assert(x * (w + bn * pe) == x * w + (ai * bn) * (pi * pe)) by (nonlinear_arith)
            requires
                x == ai * pi,
        ;
        if i == n - 1 {
            assert((d + 1 + i - (n - 1)) as nat == (d + 1) as nat);
        }
    }
}

proof fn lemma_sum_product(a: Seq<int>, b: Seq<int>, beta: int, d: int, m: int)
    requires
        0 <= m <= a.len() <= d,
        b.len() <= d,
    ensures
        wsum(a, pow_from(beta), m) * poly_b(b, beta, d)
            == pow(beta, (d + 1) as nat) * dsum(a, b, m) + qsum(a, b, beta, d, m),
    decreases m,
{
    if m > 0 {
        lemma_sum_product(a, b, beta, d, m - 1);
        lemma_row_product(a, b, beta, d, m - 1, b.len() as int);
        let w = wsum(a, pow_from(beta), m - 1);
        let x = a[m - 1] * pow(beta, (m - 1) as nat);
        assert(pow_from(beta)(m - 1) == pow(beta, (m - 1) as nat));
        let pb = poly_b(b, beta, d);
        let p = pow(beta, (d + 1) as nat);
        assert((w + x) * pb == w * pb + x * pb) by (nonlinear_arith);
        let dg = diag(a, b, m - 1, b.len() as int);
        assert(p * dsum(a, b, m - 1) + dg * p == p * (dsum(a, b, m - 1) + dg)) by (nonlinear_arith);
        assert(x * pb == dg * p + qrow(a, b, beta, d, m - 1, b.len() as int));
        assert(wsum(a, pow_from(beta), m) == w + x);
    } else {
        assert(0 * poly_b(b, beta, d) == 0);
    }
}

proof fn lemma_dsum(a: Seq<int>, b: Seq<int>, m: int)
    requires
        0 <= m <= a.len(),
    ensures
        dsum(a, b, m) == dot(a, b, min_len(m, b.len() as int)),
    decreases m,
{
    if m > 0 {
        lemma_dsum(a, b, m - 1);
    }
}

/// Completeness: on an honest reference string for dimension `d`, the honest
/// opening of any `a` against any `b` (both of length at most `d`) verifies:
/// the commitment to `a`, `b`, the inner product and the opening proof satisfy
/// the verification equation.
pub proof fn lemma_completeness(key: CommitmentKey, d: int, g: int, h: int, beta: int, a: Seq<int>, b: Seq<int>)
    requires
        well_formed(key, d, g, h, beta),
        a.len() <= d,
        b.len() <= d,
    ensures
        verify_holds(
            key,
            d,
            commit_log(key, a),
            b,
            inner_product_spec(a, b, min_len(a.len() as int, b.len() as int)),
            open_log(key, d, a, b),
        ),
{
    let r = fr_modulus();
    lemma_modulus_large();
    let n = min_len(a.len() as int, b.len() as int);
    let pa = poly_a(a, beta);
    let pb = poly_b(b, beta, d);
    let q = qsum(a, b, beta, d, a.len() as int);
    let dt = dot(a, b, n);
    let pd = pow(beta, d as nat);
    // Left side: e(g^(A), h^(B)).
    lemma_commit_log(key, d, g, h, beta, a);
    lemma_b_log(key, d, g, h, beta, b);
    let cm = commit_log(key, a);
    let bl = b_log(key, d, b);
    lemma_mod_mod(g * pa);
    lemma_mod_mod(h * pb);
    lemma_mul_congr(cm, g * pa, bl, h * pb);
    // Right side: e(g^(beta^d) * m, h^beta) * e(proof, h).
    lemma_inner_product(a, b, n);
    let m = inner_product_spec(a, b, n);
    lemma_mod_mod(dt);
    lemma_open_rows(key, d, g, h, beta, a, b, a.len() as int);
    let w = open_log(key, d, a, b);
    lemma_mod_mod(open_rows(key, d, a, b, a.len() as int));
    lemma_mod_mod(g * q);
    let (lp, l1, l0) = (key.powers_g1@[d].log(), key.powers_g2@[1].log(), key.powers_g2@[0].log());
    assert(l1 % r == (h * pow(beta, 1)) % r);
    assert(l0 % r == (h * pow(beta, 0)) % r);
    lemma_pow0(beta);
    lemma_pow1(beta);
    assert(h * 1 == h);
    lemma_mul_congr(lp, g * pd, m, dt);
    let t1 = (lp * m) % r;
    lemma_mod_mod(lp * m);
    lemma_mul_congr(t1, g * pd * dt, l1, h * beta);
    let t2 = (t1 * l1) % r;
    lemma_mul_congr(w, g * q, l0, h);
    let t3 = (w * l0) % r;
    lemma_mod_mod(t1 * l1);
    lemma_mod_mod(w * l0);
    lemma_add_congr(t2, g * pd * dt * (h * beta), t3, g * q * h);
    // The two sides agree as integers.
    lemma_sum_product(a, b, beta, d, a.len() as int);
    lemma_dsum(a, b, a.len() as int);
    lemma_pow_adds(beta, d as nat, 1);
    assert((d as nat + 1) as nat == (d + 1) as nat);
    let gh = g * h;
    assert(g * pa * (h * pb) == gh * (pa * pb)) by (nonlinear_arith)
        requires
            gh == g * h,
    ;
    assert(g * pd * dt * (h * beta) == gh * ((beta * pd) * dt)) by (nonlinear_arith)
        requires
            gh == g * h,
    ;
    assert(g * q * h == gh * q) by (nonlinear_arith)
        requires
            gh == g * h,
    ;
    assert(gh * (pa * pb) == gh * ((beta * pd) * dt) + gh * q) by (nonlinear_arith)
        requires
            pa * pb == (beta * pd) * dt + q,
    ;
}

} // verus!
