//! Sigma-protocol proofs made non-interactive by the Fiat-Shamir transform.
//!
//! The challenge hashes the canonical encodings of the prover's commitments.
//! The encoding of G1 points comes from the group implementation; that of
//! target-group elements is supplied by the caller as an encoder, which must
//! be an injective function of the element's value: the group implementation
//! offers no byte form of target-group elements.
use vstd::prelude::*;
use crate::group::{GtElem, md, order, lemma_md_sub, lemma_md_shift};
use vstd::arithmetic::div_mod::lemma_fundamental_div_mod;

pub mod burn;
pub mod transfer;

verus! {

/// An encoder of target-group elements that accepts every element, gives
/// encodings of one fixed length, and gives two elements the same encoding
/// exactly when they are equal. The prover and the verifier must use the same
/// encoder.
pub open spec fn is_canonical_encoder<E: Fn(&GtElem) -> Vec<u8>>(enc: &E) -> bool {
    &&& forall|e: &GtElem| #[trigger] enc.requires((e,))
    &&& forall|e1: &GtElem, e2: &GtElem, b1: Vec<u8>, b2: Vec<u8>|
        #![trigger enc.ensures((e1,), b1), enc.ensures((e2,), b2)]
        enc.ensures((e1,), b1) && enc.ensures((e2,), b2) ==> {
            &&& b1@.len() == b2@.len()
            &&& (e1@ == e2@ <==> b1@ == b2@)
        }
}

/// `enc` encodes some target-group element of exponent `v` as `b`.
pub open spec fn encodes_as<E: Fn(&GtElem) -> Vec<u8>>(enc: &E, v: int, b: Seq<u8>) -> bool {
    exists|e: &GtElem, bv: Vec<u8>| e@ == v && #[trigger] enc.ensures((e,), bv) && bv@ == b
}

/// The encoding that `enc` gives to the target-group element of exponent `v`.
pub open spec fn gt_code<E: Fn(&GtElem) -> Vec<u8>>(enc: &E, v: int) -> Seq<u8> {
    choose|b: Seq<u8>| #[trigger] encodes_as(enc, v, b)
}

/// Encodes a target-group element with a canonical encoder.
pub fn encode_gt<E: Fn(&GtElem) -> Vec<u8>>(enc: &E, e: &GtElem) -> (r: Vec<u8>)
    requires
        is_canonical_encoder(enc),
    ensures
        r@ == gt_code(enc, e@),
{
    let r = enc(e);
    proof {
        assert(encodes_as(enc, e@, r@));
        let b = gt_code(enc, e@);
        let (e2, bv) = choose|e2: &GtElem, bv: Vec<u8>|
            e2@ == e@ && #[trigger] enc.ensures((e2,), bv) && bv@ == b;
        assert(enc.ensures((e,), r) && enc.ensures((e2,), bv));
    }
    r
}

/// A Schnorr response `x·w + m` checked against `base·w`:
/// `md(x·w + m) − base·w·x ≡ m` when the base is the generator's exponent.
pub proof fn lemma_schnorr(w: int, m: int, x: int)
    ensures
        md(md(x * w + m) - w * x) == md(m),
{
    lemma_md_sub(x * w + m, w * x);
    assert(x * w + m - w * x == m) by (nonlinear_arith);
}

/// Pedersen opening: `md(x·b + mb) + h1·md(x·r + mr) − md(b + h1·r)·x ≡ mb + h1·mr`.
pub proof fn lemma_pedersen(b: int, r: int, h1: int, mb: int, mr: int, x: int)
    ensures
        md(md(x * b + mb) + h1 * md(x * r + mr) - md(b + h1 * r) * x) == md(mb + h1 * mr),
{
    let q = order();
    let t_b = x * b + mb;
    let t_r = x * r + mr;
    let t_c = b + h1 * r;
    lemma_fundamental_div_mod(t_b, q);
    lemma_fundamental_div_mod(t_r, q);
    lemma_fundamental_div_mod(t_c, q);
    let kb = t_b / q;
    let kr = t_r / q;
    let kc = t_c / q;
    let u = md(t_b);
    let v = md(t_r);
    let w = md(t_c);
    assert(h1 * v == h1 * t_r - h1 * kr * q) by (nonlinear_arith)
        requires t_r == q * kr + v;
    assert(w * x == t_c * x - kc * x * q) by (nonlinear_arith)
        requires t_c == q * kc + w;
    assert(h1 * t_r == h1 * x * r + h1 * mr) by (nonlinear_arith)
        requires t_r == x * r + mr;
    assert(t_c * x == b * x + h1 * x * r) by (nonlinear_arith)
        requires t_c == b + h1 * r;
    assert(x * b == b * x) by (nonlinear_arith);
    assert(u == t_b - kb * q) by (nonlinear_arith)
        requires t_b == q * kb + u;
    assert((-kb - h1 * kr + x * kc) * q == -(kb * q) - h1 * kr * q + kc * x * q) by (nonlinear_arith);
    assert(u + h1 * v - w * x == mb + h1 * mr + (-kb - h1 * kr + x * kc) * q);
    lemma_md_shift(mb + h1 * mr, -kb - h1 * kr + x * kc);
}

/// Pairing-ratio relation: with `z = md(h·x + m)` and `z' = md(md(h·a)·x + m2)`,
/// `a·z − z' ≡ a·m − m2`.
pub proof fn lemma_ratio(a: int, h: int, m: int, m2: int, x: int)
    ensures
        md(a * md(h * x + m) - md(md(h * a) * x + m2)) == md(a * m - m2),
{
    let q = order();
    let t1 = h * x + m;
    let ha = h * a;
    let t2 = md(ha) * x + m2;
    lemma_fundamental_div_mod(t1, q);
    lemma_fundamental_div_mod(ha, q);
    lemma_fundamental_div_mod(t2, q);
    let k1 = t1 / q;
    let kh = ha / q;
    let k2 = t2 / q;
    let u = md(t1);
    let w = md(ha);
    let v = md(t2);
    assert(a * u == a * t1 - a * k1 * q) by (nonlinear_arith)
        requires t1 == q * k1 + u;
    assert(w * x == ha * x - kh * x * q) by (nonlinear_arith)
        requires ha == q * kh + w;
    assert(a * t1 == a * h * x + a * m) by (nonlinear_arith)
        requires t1 == h * x + m;
    assert(ha * x == a * h * x) by (nonlinear_arith)
        requires ha == h * a;
    assert(v == t2 - k2 * q) by (nonlinear_arith)
        requires t2 == q * k2 + v;
    assert((-a * k1 + k2 + x * kh) * q == -(a * k1 * q) + k2 * q + kh * x * q) by (nonlinear_arith);
    assert(a * u - v == a * m - m2 + (-a * k1 + k2 + x * kh) * q);
    lemma_md_shift(a * m - m2, -a * k1 + k2 + x * kh);
}

/// Decryption relation: when `c − a·d ≡ b`, with `zb = md(x·b + mb)` and
/// `z = md(d·x + md)`, `zb + a·z − c·x ≡ mb + a·md`.
pub proof fn lemma_unmask(a: int, d: int, c: int, b: int, mb: int, m: int, x: int)
    requires
        md(c - a * d) == b,
    ensures
        md(md(x * b + mb) + a * md(d * x + m) - c * x) == md(mb + a * m),
{
    let q = order();
    let t_b = x * b + mb;
    let t_z = d * x + m;
    let t_c = c - a * d;
    lemma_fundamental_div_mod(t_b, q);
    lemma_fundamental_div_mod(t_z, q);
    lemma_fundamental_div_mod(t_c, q);
    let kb = t_b / q;
    let kz = t_z / q;
    let kc = t_c / q;
    let u = md(t_b);
    let v = md(t_z);
    assert(md(t_c) == b);
    assert(a * v == a * t_z - a * kz * q) by (nonlinear_arith)
        requires t_z == q * kz + v;
    assert(a * t_z == a * d * x + a * m) by (nonlinear_arith)
        requires t_z == d * x + m;
    assert(c * x == t_c * x + a * d * x) by (nonlinear_arith)
        requires t_c == c - a * d;
    assert(t_c * x == kc * x * q + b * x) by (nonlinear_arith)
        requires t_c == q * kc + b;
    assert(x * b == b * x) by (nonlinear_arith);
    assert(u == t_b - kb * q) by (nonlinear_arith)
        requires t_b == q * kb + u;
    assert((-kb - a * kz - x * kc) * q == -(kb * q) - a * kz * q - kc * x * q) by (nonlinear_arith);
    assert(u + a * v - c * x == mb + a * m + (-kb - a * kz - x * kc) * q);
    lemma_md_shift(mb + a * m, -kb - a * kz - x * kc);
}

/// The concatenation of two byte strings.
pub fn concat(a: Vec<u8>, b: Vec<u8>) -> (r: Vec<u8>)
    ensures
        r@ == a@ + b@,
{
    let mut a = a;
    let mut b = b;
    a.append(&mut b);
    a
}

} // verus!
