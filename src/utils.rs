//! Hashing into the field and into G2, integer conversions, the bounded
//! discrete-log solver and Pedersen commitments.
use vstd::prelude::*;
use crate::errors::IbeError;
use crate::group::{Scalar, G1Elem, G2Elem, GtElem, SecureRng, md, be_int, sha256, sha256_of, lemma_md_range, lemma_md_small, lemma_md_add, lemma_md_mul, lemma_md_shift, order};
use vstd::arithmetic::div_mod::{lemma_fundamental_div_mod, lemma_mod_pos_bound, lemma_mod_mod};

verus! {

/// The scalar that a byte string hashes to: its SHA-256 digest read as a
/// big-endian integer and reduced into the field.
pub open spec fn hash_scalar_of(msg: Seq<u8>) -> int {
    md(be_int(sha256_of(msg)))
}

/// Hashes a byte string into the scalar field.
pub fn hash_to_scalar(msg: &[u8]) -> (r: Scalar)
    ensures
        r@ == hash_scalar_of(msg@),
{
    let digest = sha256(msg);
    Scalar::from_digest(&digest)
}

/// Hashes a byte string to the G2 point `G2::one() · hash_to_scalar(msg)`.
pub fn hash_to_g2(msg: &[u8]) -> (r: G2Elem)
    ensures
        r@ == hash_scalar_of(msg@),
{
    let k = hash_to_scalar(msg);
    proof {
        lemma_md_range(be_int(sha256_of(msg@)));
        lemma_md_small(k@);
    }
    G2Elem::one().mul(&k)
}

/// The field element of value `x`.
pub fn u64_to_scalar(x: u64) -> (r: Scalar)
    ensures
        r@ == x as int,
{
    Scalar::from_u64(x)
}

/// The lowest 64 bits of the value of `x`.
pub fn scalar_to_u64(x: Scalar) -> (r: u64)
    requires
        x.wf(),
    ensures
        r as int == x@ % 0x1_0000_0000_0000_0000,
{
    let limb = x.bn_low_u128();
    let r = (limb % 0x1_0000_0000_0000_0000) as u64;
    proof {
        lemma_mod_mod(x@, 0x1_0000_0000_0000_0000, 0x1_0000_0000_0000_0000);
    }
    r
}

/// The field element congruent to `x`; a negative `x` maps to `order() + x`.
pub fn i32_to_scalar(x: i32) -> (r: Scalar)
    ensures
        r@ == md(x as int),
{
    if x < 0 {
        let y: u64 = (-(x as i64)) as u64;
        let s = u64_to_scalar(y);
        let r = s.neg();
        r
    } else {
        let r = u64_to_scalar(x as u64);
        proof {
            lemma_md_small(x as int);
        }
        r
    }
}

/// The least `r >= 0` with `n <= r * r`.
pub open spec fn is_ceil_sqrt(n: int, r: int) -> bool {
    0 <= r && n <= r * r && (r == 0 || (r - 1) * (r - 1) < n)
}

pub open spec fn ceil_sqrt_of(n: int) -> int {
    choose|r: int| is_ceil_sqrt(n, r)
}

proof fn lemma_ceil_sqrt_unique(n: int, a: int, b: int)
    requires
        is_ceil_sqrt(n, a),
        is_ceil_sqrt(n, b),
    ensures
        a == b,
{
    if a < b {
        assert((b - 1) * (b - 1) >= a * a) by (nonlinear_arith)
            requires 0 <= a, a <= b - 1;
    } else if b < a {
        assert((a - 1) * (a - 1) >= b * b) by (nonlinear_arith)
            requires 0 <= b, b <= a - 1;
    }
}

/// The ceiling of the square root of `n`.
pub fn ceil_sqrt(n: u64) -> (r: u64)
    ensures
        r as int == ceil_sqrt_of(n as int),
        is_ceil_sqrt(n as int, r as int),
        r <= 0x1_0000_0000,
{
    if n == 0 {
        assert(is_ceil_sqrt(0, 0));
        proof {
            lemma_ceil_sqrt_unique(0, 0, ceil_sqrt_of(0));
        }
        return 0;
    }
    let mut lo: u64 = 0;
    let mut hi: u64 = 0x1_0000_0000;
    assert(n <= (hi as int) * (hi as int)) by (nonlinear_arith)
        requires hi == 0x1_0000_0000, n < 0x1_0000_0000_0000_0000;
    while hi - lo > 1
        invariant
            lo < hi <= 0x1_0000_0000,
            (lo as int) * (lo as int) < n,
            n <= (hi as int) * (hi as int),
        decreases hi - lo,
    {
        let mid: u64 = lo + (hi - lo) / 2;
        assert((mid as int) * (mid as int) <= 0xFFFF_FFFE_0000_0001) by (nonlinear_arith)
            requires 0 <= mid <= 0xFFFF_FFFF;
        if mid * mid < n {
            lo = mid;
        } else {
            hi = mid;
        }
    }
    assert(is_ceil_sqrt(n as int, hi as int));
    proof {
        lemma_ceil_sqrt_unique(n as int, hi as int, ceil_sqrt_of(n as int));
    }
    hi
}

/// The number of baby steps, and of giant steps, that the solver takes for
/// `bound`, less one: `ceil(sqrt(bound)) + 1`.
pub open spec fn stride_of(bound: int) -> int {
    ceil_sqrt_of(bound) + 1
}

/// A hit of the giant walk solves the discrete log: if `g^k = h · z^j` with
/// `z = g^(-m)`, then `g^(j·m + k) = h`.
proof fn lemma_walk_hit(g: int, h: int, m: int, j: int, k: int, z: int)
    requires
        0 <= h < order(),
        z == md(g * md(-m)),
        md(g * k) == md(h + j * z),
    ensures
        md(g * md(j * m + k)) == h,
{
    let q = order();
    let a1 = g * k;
    let a2 = h + j * z;
    let t = g * md(-m);
    lemma_fundamental_div_mod(a1, q);
    lemma_fundamental_div_mod(a2, q);
    lemma_fundamental_div_mod(t, q);
    lemma_fundamental_div_mod(-m, q);
    let k1 = a1 / q;
    let k2 = a2 / q;
    let kt = t / q;
    let cm = (-m) / q;
    let u = md(-m);
    assert(u == -m - q * cm);
    assert(t == -(g * m) - g * q * cm) by (nonlinear_arith)
        requires t == g * u, u == -m - q * cm;
    assert(z == t - q * kt);
    assert(j * z == j * (-(g * m)) - j * (g * q * cm) - j * (q * kt)) by (nonlinear_arith)
        requires z == -(g * m) - g * q * cm - q * kt;
    assert(j * (-(g * m)) == -(g * j * m)) by (nonlinear_arith);
    assert(j * (g * q * cm) == (j * g * cm) * q) by (nonlinear_arith);
    assert(j * (q * kt) == (j * kt) * q) by (nonlinear_arith);
    assert((j * g * cm) * q + (j * kt) * q == (j * g * cm + j * kt) * q) by (nonlinear_arith);
    assert(j * z == -(g * j * m) - (j * g * cm + j * kt) * q);
    assert(md(a1) == md(a2));
    assert(a1 == q * k1 + md(a1));
    assert(a2 == q * k2 + md(a2));
    assert(g * (j * m + k) == g * j * m + a1) by (nonlinear_arith)
        requires a1 == g * k;
    assert(q * k1 - q * k2 == (k1 - k2) * q) by (nonlinear_arith);
    assert(g * (j * m + k) == h + (k1 - k2 - j * g * cm - j * kt) * q) by (nonlinear_arith)
        requires
            g * (j * m + k) == g * j * m + a1,
            a1 == q * k1 + md(a1),
            a2 == q * k2 + md(a1),
            a2 == h + j * z,
            j * z == -(g * j * m) - (j * g * cm + j * kt) * q;
    lemma_md_mul(g, j * m + k);
    lemma_md_shift(h, k1 - k2 - j * g * cm - j * kt);
    lemma_md_small(h);
}

/// The giant step at which the walk meets the log `k`: `k / m`, or `m` for
/// the one log `m·(m+1)` that the last step reaches with baby index `m`.
pub open spec fn hit_step(k: int, m: int) -> int {
    if k / m <= m {
        k / m
    } else {
        m
    }
}

/// After `j` giant steps from `h = g^k` the walk stands at `g^(k − j·m)`.
proof fn lemma_walk_at(g: int, h: int, m: int, j: int, k: int, z: int)
    requires
        h == md(g * k),
        z == md(g * md(-m)),
    ensures
        md(h + j * z) == md(g * (k - j * m)),
{
    let q = order();
    let a = g * k;
    let t = g * md(-m);
    lemma_fundamental_div_mod(a, q);
    lemma_fundamental_div_mod(t, q);
    lemma_fundamental_div_mod(-m, q);
    let ka = a / q;
    let kt = t / q;
    let cm = (-m) / q;
    let u = md(-m);
    assert(u == -m - q * cm);
    assert(t == -(g * m) - g * q * cm) by (nonlinear_arith)
        requires t == g * u, u == -m - q * cm;
    assert(z == t - q * kt);
    assert(j * z == j * (-(g * m)) - j * (g * q * cm) - j * (q * kt)) by (nonlinear_arith)
        requires z == -(g * m) - g * q * cm - q * kt;
    assert(j * (-(g * m)) == -(g * j * m)) by (nonlinear_arith);
    assert(j * (g * q * cm) == (j * g * cm) * q) by (nonlinear_arith);
    assert(j * (q * kt) == (j * kt) * q) by (nonlinear_arith);
    assert(h == a - ka * q) by (nonlinear_arith)
        requires a == q * ka + h;
    assert(g * (k - j * m) == a - g * j * m) by (nonlinear_arith)
        requires a == g * k;
    assert((-ka - j * g * cm - j * kt) * q == -(ka * q) - (j * g * cm) * q - (j * kt) * q)
        by (nonlinear_arith);
    assert(h + j * z == g * (k - j * m) + (-ka - j * g * cm - j * kt) * q);
    lemma_md_shift(g * (k - j * m), -ka - j * g * cm - j * kt);
}

/// Finds the first entry of `table` equal to `y`.
fn find_entry(table: &Vec<GtElem>, y: &GtElem) -> (r: Option<usize>)
    ensures
        r matches Some(k) ==> k < table@.len() && table@[k as int]@ == y@,
        r matches Some(k) ==> forall|t: int| 0 <= t < k ==> table@[t]@ != y@,
        r is None ==> forall|t: int| 0 <= t < table@.len() ==> table@[t]@ != y@,
{
    let mut k: usize = 0;
    while k < table.len()
        invariant
            k <= table@.len(),
            forall|t: int| 0 <= t < k ==> table@[t]@ != y@,
        decreases table@.len() - k,
    {
        if table[k].equals(y) {
            return Some(k);
        }
        k = k + 1;
    }
    None
}

/// Solves `h = g^x` for `x` by baby-step giant-step. With
/// `m = ceil(sqrt(bound)) + 1` it tabulates `g^i` for `i` in `[0, m]` and
/// walks `h · g^(-m·j)` for `j` in `[0, m]`; the first hit `(i, j)` gives
/// `x = j·m + i`. Every log up to `m·(m+1)`, so every log below `bound`, is
/// found; when `g` is the generator of the target group the result is the
/// discrete log of `h`, and a log above `m·(m+1)` is out of reach.
pub fn baby_step_giant_step(h: &GtElem, g: &GtElem, bound: u64) -> (r: Result<Scalar, IbeError>)
    requires
        h.wf(),
        g.wf(),
    ensures
        r matches Err(e) ==> e == IbeError::OutOfBoundError,
        r matches Ok(x) ==> md(g@ * x@) == h@,
        g@ == 1 ==> (r matches Ok(x) ==> x@ == h@),
        forall|k: int|
            0 <= k <= stride_of(bound as int) * (stride_of(bound as int) + 1)
                && #[trigger] md(g@ * k) == h@ ==> r is Ok,
        forall|k: int| 0 <= k < bound && #[trigger] md(g@ * k) == h@ ==> r is Ok,
        g@ == 1 && h@ < bound ==> r is Ok,
        g@ == 1 && h@ <= stride_of(bound as int) * (stride_of(bound as int) + 1) ==> r is Ok,
        g@ == 1 && stride_of(bound as int) * (stride_of(bound as int) + 1) < h@ ==> r is Err,
{
    let c = ceil_sqrt(bound);
    let m: u64 = c + 1;
    let ghost mi = m as int;
    let mut table: Vec<GtElem> = Vec::new();
    let mut x = GtElem::one();
    let mut i: u64 = 0;
    proof {
        lemma_md_small(0);
    }
    while i <= m
        invariant
            m == c + 1,
            c <= 0x1_0000_0000,
            i <= m + 1,
            table@.len() == i,
            x@ == md(g@ * i),
            forall|t: int| 0 <= t < i ==> #[trigger] table@[t]@ == md(g@ * t),
        decreases m + 1 - i,
    {
        table.push(x);
        x = x.mul(g);
        proof {
            lemma_md_add(g@ * i, g@);
            assert(g@ * i + g@ == g@ * (i + 1)) by (nonlinear_arith);
        }
        i = i + 1;
    }
    let ms = u64_to_scalar(m);
    let step = ms.neg();
    let z = g.pow(&step);
    let mut y = *h;
    let mut j: u64 = 0;
    proof {
        lemma_md_small(h@);
        lemma_md_range(-mi);
        if g@ == 1 {
            lemma_md_small(md(-mi));
        }
    }
    while j <= m
        invariant
            m == c + 1,
            c <= 0x1_0000_0000,
            mi == m,
            ms@ == mi,
            c as int == ceil_sqrt_of(bound as int),
            j <= m + 1,
            table@.len() == m + 1,
            forall|t: int| 0 <= t <= m ==> #[trigger] table@[t]@ == md(g@ * t),
            h.wf(),
            z@ == md(g@ * md(-mi)),
            y@ == md(h@ + j * z@),
            g@ == 1 ==> y@ == md(h@ - j * mi),
            forall|k: int|
                0 <= k <= mi * (mi + 1) && #[trigger] md(g@ * k) == h@ ==> j <= hit_step(k, mi),
        decreases m + 1 - j,
    {
        let found = find_entry(&table, &y);
        match found {
            Some(k) => {
                let js = u64_to_scalar(j);
                let ks = u64_to_scalar(k as u64);
                let x = js.mul(&ms).add(&ks);
                proof {
                    lemma_md_add(j * mi, k as int);
                    assert(x@ == md(j * mi + k));
                    lemma_walk_hit(g@, h@, mi, j as int, k as int, z@);
                    if g@ == 1 {
                        lemma_md_small(k as int);
                        assert(table@[k as int]@ == k as int);
                        if mi * (mi + 1) < h@ {
                            assert(0 <= j * mi <= mi * mi) by (nonlinear_arith)
                                requires j <= mi, 0 <= j, 0 <= mi;
                            assert(mi * (mi + 1) == mi * mi + mi) by (nonlinear_arith);
                            lemma_md_small(h@ - j * mi);
                            assert(false);
                        }
                        lemma_md_range(j * mi + k);
                        lemma_md_small(x@);
                        assert(g@ * x@ == x@) by (nonlinear_arith)
                            requires g@ == 1;
                    }
                }
                return Ok(x);
            },
            None => {
                proof {
                    assert forall|k: int|
                        0 <= k <= mi * (mi + 1) && #[trigger] md(g@ * k) == h@ implies j + 1
                        <= hit_step(k, mi) by {
                        if j == hit_step(k, mi) {
                            lemma_fundamental_div_mod(k, mi);
                            lemma_mod_pos_bound(k, mi);
                            let idx = k - j * mi;
                            if k / mi <= mi {
                                assert(idx == k % mi) by (nonlinear_arith)
                                    requires k == mi * (k / mi) + k % mi, j == k / mi, idx == k - j * mi;
                            } else {
                                assert(k / mi == mi + 1) by (nonlinear_arith)
                                    requires
                                        k == mi * (k / mi) + k % mi,
                                        0 <= k % mi < mi,
                                        k <= mi * (mi + 1),
                                        k / mi > mi;
                                assert(idx == mi) by (nonlinear_arith)
                                    requires
                                        k == mi * (k / mi) + k % mi,
                                        0 <= k % mi < mi,
                                        k <= mi * (mi + 1),
                                        k / mi == mi + 1,
                                        j == mi,
                                        idx == k - j * mi;
                            }
                            lemma_walk_at(g@, h@, mi, j as int, k, z@);
                            assert(table@[idx]@ == md(g@ * idx));
                            assert(false);
                        }
                    }
                    if g@ == 1 {
                        if mi * (mi + 1) < h@ {
                            assert(j * mi <= mi * mi) by (nonlinear_arith)
                                requires j <= mi, 0 <= j;
                        }
                    }
                }
                y = y.mul(&z);
                proof {
                    lemma_md_add(h@ + j * z@, z@);
                    assert(h@ + j * z@ + z@ == h@ + (j + 1) * z@) by (nonlinear_arith);
                    if g@ == 1 {
                        lemma_md_small(md(-mi));
                        lemma_md_add(h@ - j * mi, -mi);
                        lemma_md_add(h@ - j * mi, md(-mi));
                        assert(h@ - j * mi + -mi == h@ - (j + 1) * mi) by (nonlinear_arith);
                    }
                }
                j = j + 1;
            },
        }
    }
    proof {
        assert(is_ceil_sqrt(bound as int, c as int));
        assert((c as int) * (c as int) <= mi * (mi + 1)) by (nonlinear_arith)
            requires mi == c + 1, c >= 0;
        if g@ == 1 {
            assert(g@ * h@ == h@) by (nonlinear_arith)
                requires g@ == 1;
            lemma_md_small(h@);
            if h@ <= mi * (mi + 1) {
                assert(md(g@ * h@) == h@);
            }
        }
    }
    Err(IbeError::OutOfBoundError)
}

/// Commits to `m` under base `h1` with fresh randomness `r`:
/// `G1::one() · m + h1 · r`.
pub fn pedersen_commitment_with(m: &Scalar, h1: &G1Elem, r: &Scalar) -> (c: G1Elem)
    ensures
        c@ == md(m@ + h1@ * r@),
{
    let a = G1Elem::one().mul(m);
    let b = h1.mul(r);
    proof {
        lemma_md_add(m@, h1@ * r@);
    }
    a.add(&b)
}

/// Samples `r` and returns it with the commitment `G1::one() · m + h1 · r`.
pub fn pedersen_commitment(m: &Scalar, h1: &G1Elem, rng: &mut SecureRng) -> (res: (Scalar, G1Elem))
    ensures
        res.0.wf(),
        res.1@ == md(m@ + h1@ * res.0@),
{
    let r = rng.scalar();
    let c = pedersen_commitment_with(m, h1, &r);
    (r, c)
}

} // verus!
