//! The transfer proof: two correlated ciphertexts `(c1, c2)` and
//! `(c1, c2_bar)` encrypt the same amount `b_star` to the sender and to the
//! receiver, Pedersen commitments `c_b_star` and `c_b_prime` bind `b_star` and
//! the remaining balance `b_prime`, and the ciphertext `(c1_tilde, c2_tilde)`
//! of the remaining balance decrypts to `b_prime` under the sender's key.
use vstd::prelude::*;
use crate::errors::ZkError;
use crate::group::{
    Scalar, G1Elem, G2Elem, GtElem, SecureRng, pairing, md, g1_bytes_of, g2_bytes_of, le_int, be_int, sha256_of,
    lemma_md_range, lemma_md_small, lemma_md_add, lemma_md_mul, lemma_md_sub,
};
use crate::utils::{hash_to_scalar, hash_scalar_of};
use crate::zk::{
    is_canonical_encoder, gt_code, encode_gt, concat, lemma_schnorr, lemma_pedersen, lemma_ratio,
    lemma_unmask,
};

verus! {

#[derive(Clone, Copy)]
pub struct TransferStatement {
    pub h1: G1Elem,
    pub y: G1Elem,
    pub y_bar: G1Elem,
    pub c1: G1Elem,
    pub c2: GtElem,
    pub c2_bar: GtElem,
    pub c1_tilde: G1Elem,
    pub c2_tilde: GtElem,
    pub c_b_star: G1Elem,
    pub c_b_prime: G1Elem,
}

#[derive(Clone, Copy)]
pub struct TransferWitness {
    pub r: Scalar,
    pub s: Scalar,
    pub r_star: Scalar,
    pub r_prime: Scalar,
    pub b_star: Scalar,
    pub b_prime: Scalar,
    pub h_id: G2Elem,
    pub h_id_bar: G2Elem,
    pub sk_id: G2Elem,
}

#[derive(Clone, Copy)]
pub struct TransferProof {
    pub x: Scalar,
    pub zr: Scalar,
    pub zs: Scalar,
    pub zr_star: Scalar,
    pub zr_prime: Scalar,
    pub zb_star: Scalar,
    pub zb_prime: Scalar,
    pub z_id: G2Elem,
    pub z_id_prime: G2Elem,
    pub z_id_bar: G2Elem,
    pub z_id_bar_prime: G2Elem,
    pub z_sk: G2Elem,
}

/// The prover's blinding values, drawn afresh for every proof.
#[derive(Clone, Copy)]
pub struct TransferBlinding {
    pub mr: Scalar,
    pub ms: Scalar,
    pub mr_star: Scalar,
    pub mr_prime: Scalar,
    pub mb_star: Scalar,
    pub mb_prime: Scalar,
    pub m_id: G2Elem,
    pub m_id_prime: G2Elem,
    pub m_id_bar: G2Elem,
    pub m_id_bar_prime: G2Elem,
    pub m_sk: G2Elem,
}

/// The ten commitments that the challenge hashes, in transcript order.
#[derive(Clone, Copy)]
pub struct TransferCommitments {
    pub d_y: G1Elem,
    pub d_1: G1Elem,
    pub d_b_star: G1Elem,
    pub d_b_prime: G1Elem,
    pub r: GtElem,
    pub r_bar: GtElem,
    pub r_sk: GtElem,
    pub d_2: GtElem,
    pub d_2_bar: GtElem,
    pub d_2_tilde: GtElem,
}

impl TransferStatement {
    pub open spec fn wf(&self) -> bool {
        &&& self.h1.wf() && self.y.wf() && self.y_bar.wf() && self.c1.wf()
        &&& self.c2.wf() && self.c2_bar.wf() && self.c1_tilde.wf() && self.c2_tilde.wf()
        &&& self.c_b_star.wf() && self.c_b_prime.wf()
    }
}

impl TransferWitness {
    pub open spec fn wf(&self) -> bool {
        &&& self.r.wf() && self.s.wf() && self.r_star.wf() && self.r_prime.wf()
        &&& self.b_star.wf() && self.b_prime.wf()
        &&& self.h_id.wf() && self.h_id_bar.wf() && self.sk_id.wf()
    }

    /// The witness is honest for the statement.
    pub open spec fn holds_for(&self, st: TransferStatement) -> bool {
        &&& st.y@ == self.s@
        &&& st.c1@ == self.r@
        &&& self.sk_id@ == md(self.h_id@ * self.s@)
        &&& st.c_b_star@ == md(self.b_star@ + st.h1@ * self.r_star@)
        &&& st.c_b_prime@ == md(self.b_prime@ + st.h1@ * self.r_prime@)
        &&& md(st.c2@ - st.y@ * md(self.h_id@ * self.r@)) == self.b_star@
        &&& md(st.c2_bar@ - st.y_bar@ * md(self.h_id_bar@ * self.r@)) == self.b_star@
        &&& md(st.c2_tilde@ - st.c1_tilde@ * self.sk_id@) == self.b_prime@
    }
}

impl TransferBlinding {
    pub open spec fn wf(&self) -> bool {
        &&& self.mr.wf() && self.ms.wf() && self.mr_star.wf() && self.mr_prime.wf()
        &&& self.mb_star.wf() && self.mb_prime.wf()
        &&& self.m_id.wf() && self.m_id_prime.wf() && self.m_id_bar.wf()
        &&& self.m_id_bar_prime.wf() && self.m_sk.wf()
    }
}

impl TransferCommitments {
    pub open spec fn logs(&self) -> Seq<int> {
        seq![
            self.d_y@, self.d_1@, self.d_b_star@, self.d_b_prime@, self.r@, self.r_bar@,
            self.r_sk@, self.d_2@, self.d_2_bar@, self.d_2_tilde@,
        ]
    }
}

/// The exponents of the prover's ten commitments.
pub open spec fn transfer_prover_logs(st: TransferStatement, m: TransferBlinding) -> Seq<int> {
    seq![
        md(m.ms@),
        md(m.mr@),
        md(m.mb_star@ + st.h1@ * m.mr_star@),
        md(m.mb_prime@ + st.h1@ * m.mr_prime@),
        md(st.c1@ * m.m_id@ - m.m_id_prime@),
        md(st.c1@ * m.m_id_bar@ - m.m_id_bar_prime@),
        md(st.y@ * m.m_id@ - m.m_sk@),
        md(m.mb_star@ + st.y@ * m.m_id_prime@),
        md(m.mb_star@ + st.y_bar@ * m.m_id_bar_prime@),
        md(m.mb_prime@ + st.c1_tilde@ * m.m_sk@),
    ]
}

/// The exponents of the ten commitments that the verifier rebuilds from the
/// responses, each statement term raised to `x` and divided out.
pub open spec fn transfer_verifier_logs(st: TransferStatement, p: TransferProof) -> Seq<int> {
    seq![
        md(p.zs@ - st.y@ * p.x@),
        md(p.zr@ - st.c1@ * p.x@),
        md(p.zb_star@ + st.h1@ * p.zr_star@ - st.c_b_star@ * p.x@),
        md(p.zb_prime@ + st.h1@ * p.zr_prime@ - st.c_b_prime@ * p.x@),
        md(st.c1@ * p.z_id@ - p.z_id_prime@),
        md(st.c1@ * p.z_id_bar@ - p.z_id_bar_prime@),
        md(st.y@ * p.z_id@ - p.z_sk@),
        md(p.zb_star@ + st.y@ * p.z_id_prime@ - st.c2@ * p.x@),
        md(p.zb_star@ + st.y_bar@ * p.z_id_bar_prime@ - st.c2_bar@ * p.x@),
        md(p.zb_prime@ + st.c1_tilde@ * p.z_sk@ - st.c2_tilde@ * p.x@),
    ]
}

/// The bytes that the challenge hashes: four G1 encodings, then six
/// target-group encodings.
pub open spec fn transfer_transcript<E: Fn(&GtElem) -> Vec<u8>>(enc: &E, l: Seq<int>) -> Seq<u8> {
    g1_bytes_of(l[0]) + g1_bytes_of(l[1]) + g1_bytes_of(l[2]) + g1_bytes_of(l[3])
        + gt_code(enc, l[4]) + gt_code(enc, l[5]) + gt_code(enc, l[6])
        + gt_code(enc, l[7]) + gt_code(enc, l[8]) + gt_code(enc, l[9])
}

/// The responses to challenge `x`. Those for `z_id_prime` and
/// `z_id_bar_prime` use the derived values `h_id·r` and `h_id_bar·r`.
pub open spec fn transfer_responds(p: TransferProof, w: TransferWitness, m: TransferBlinding) -> bool {
    let x = p.x@;
    &&& p.zr@ == md(x * w.r@ + m.mr@)
    &&& p.zs@ == md(x * w.s@ + m.ms@)
    &&& p.zr_star@ == md(x * w.r_star@ + m.mr_star@)
    &&& p.zr_prime@ == md(x * w.r_prime@ + m.mr_prime@)
    &&& p.zb_star@ == md(x * w.b_star@ + m.mb_star@)
    &&& p.zb_prime@ == md(x * w.b_prime@ + m.mb_prime@)
    &&& p.z_id@ == md(w.h_id@ * x + m.m_id@)
    &&& p.z_id_prime@ == md(md(w.h_id@ * w.r@) * x + m.m_id_prime@)
    &&& p.z_id_bar@ == md(w.h_id_bar@ * x + m.m_id_bar@)
    &&& p.z_id_bar_prime@ == md(md(w.h_id_bar@ * w.r@) * x + m.m_id_bar_prime@)
    &&& p.z_sk@ == md(w.sk_id@ * x + m.m_sk@)
}

impl TransferProof {
    /// The byte form of the proof: the encodings of its twelve fields in
    /// declaration order, seven scalars then five G2 points.
    pub fn to_bytes(&self) -> (r: Vec<u8>)
        ensures
            r@.len() == 864,
            le_int(r@.subrange(0, 32)) == self.x@,
            le_int(r@.subrange(32, 64)) == self.zr@,
            le_int(r@.subrange(64, 96)) == self.zs@,
            le_int(r@.subrange(96, 128)) == self.zr_star@,
            le_int(r@.subrange(128, 160)) == self.zr_prime@,
            le_int(r@.subrange(160, 192)) == self.zb_star@,
            le_int(r@.subrange(192, 224)) == self.zb_prime@,
            r@.subrange(224, 352) == g2_bytes_of(self.z_id@),
            r@.subrange(352, 480) == g2_bytes_of(self.z_id_prime@),
            r@.subrange(480, 608) == g2_bytes_of(self.z_id_bar@),
            r@.subrange(608, 736) == g2_bytes_of(self.z_id_bar_prime@),
            r@.subrange(736, 864) == g2_bytes_of(self.z_sk@),
    {
        let b_x = self.x.to_bytes();
        let b_zr = self.zr.to_bytes();
        let b_zs = self.zs.to_bytes();
        let b_zr_star = self.zr_star.to_bytes();
        let b_zr_prime = self.zr_prime.to_bytes();
        let b_zb_star = self.zb_star.to_bytes();
        let b_zb_prime = self.zb_prime.to_bytes();
        let b_z_id = self.z_id.to_bytes();
        let b_z_id_prime = self.z_id_prime.to_bytes();
        let b_z_id_bar = self.z_id_bar.to_bytes();
        let b_z_id_bar_prime = self.z_id_bar_prime.to_bytes();
        let b_z_sk = self.z_sk.to_bytes();
        let r = b_x;
        let r = concat(r, b_zr);
        let r = concat(r, b_zs);
        let r = concat(r, b_zr_star);
        let r = concat(r, b_zr_prime);
        let r = concat(r, b_zb_star);
        let r = concat(r, b_zb_prime);
        let r = concat(r, b_z_id);
        let r = concat(r, b_z_id_prime);
        let r = concat(r, b_z_id_bar);
        let r = concat(r, b_z_id_bar_prime);
        let r = concat(r, b_z_sk);
        proof {
            assert(r@.subrange(0, 32) =~= b_x@);
            assert(r@.subrange(32, 64) =~= b_zr@);
            assert(r@.subrange(64, 96) =~= b_zs@);
            assert(r@.subrange(96, 128) =~= b_zr_star@);
            assert(r@.subrange(128, 160) =~= b_zr_prime@);
            assert(r@.subrange(160, 192) =~= b_zb_star@);
            assert(r@.subrange(192, 224) =~= b_zb_prime@);
            assert(r@.subrange(224, 352) =~= b_z_id@);
            assert(r@.subrange(352, 480) =~= b_z_id_prime@);
            assert(r@.subrange(480, 608) =~= b_z_id_bar@);
            assert(r@.subrange(608, 736) =~= b_z_id_bar_prime@);
            assert(r@.subrange(736, 864) =~= b_z_sk@);
        }
        r
    }
}

/// The verifier accepts `p` for `st`.
pub open spec fn transfer_accepts<E: Fn(&GtElem) -> Vec<u8>>(enc: &E, st: TransferStatement, p: TransferProof) -> bool {
    p.x@ == hash_scalar_of(transfer_transcript(enc, transfer_verifier_logs(st, p)))
}

/// Completeness: for an honest witness, the commitments that the verifier
/// rebuilds from the responses are the prover's commitments, whatever the
/// challenge.
pub proof fn lemma_transfer_commitments_agree(
    st: TransferStatement,
    w: TransferWitness,
    m: TransferBlinding,
    p: TransferProof,
)
    requires
        st.wf(),
        w.wf(),
        m.wf(),
        w.holds_for(st),
        transfer_responds(p, w, m),
    ensures
        transfer_verifier_logs(st, p) == transfer_prover_logs(st, m),
{
    let x = p.x@;
    lemma_schnorr(w.s@, m.ms@, x);
    lemma_schnorr(w.r@, m.mr@, x);
    lemma_pedersen(w.b_star@, w.r_star@, st.h1@, m.mb_star@, m.mr_star@, x);
    lemma_pedersen(w.b_prime@, w.r_prime@, st.h1@, m.mb_prime@, m.mr_prime@, x);
    lemma_ratio(w.r@, w.h_id@, m.m_id@, m.m_id_prime@, x);
    lemma_ratio(w.r@, w.h_id_bar@, m.m_id_bar@, m.m_id_bar_prime@, x);
    lemma_ratio(w.s@, w.h_id@, m.m_id@, m.m_sk@, x);
    lemma_unmask(st.y@, md(w.h_id@ * w.r@), st.c2@, w.b_star@, m.mb_star@, m.m_id_prime@, x);
    lemma_unmask(st.y_bar@, md(w.h_id_bar@ * w.r@), st.c2_bar@, w.b_star@, m.mb_star@, m.m_id_bar_prime@, x);
    lemma_unmask(st.c1_tilde@, w.sk_id@, st.c2_tilde@, w.b_prime@, m.mb_prime@, m.m_sk@, x);
    assert(transfer_verifier_logs(st, p) =~= transfer_prover_logs(st, m));
}

/// An honestly generated transfer proof is accepted.
pub proof fn lemma_transfer_completeness<E: Fn(&GtElem) -> Vec<u8>>(
    enc: &E,
    st: TransferStatement,
    w: TransferWitness,
    m: TransferBlinding,
    p: TransferProof,
)
    requires
        st.wf(),
        w.wf(),
        m.wf(),
        w.holds_for(st),
        p.x@ == hash_scalar_of(transfer_transcript(enc, transfer_prover_logs(st, m))),
        transfer_responds(p, w, m),
    ensures
        transfer_accepts(enc, st, p),
{
    lemma_transfer_commitments_agree(st, w, m, p);
}

/// The transcript of a set of commitments.
fn transcript<E: Fn(&GtElem) -> Vec<u8>>(c: &TransferCommitments, enc: &E) -> (t: Vec<u8>)
    requires
        is_canonical_encoder(enc),
    ensures
        t@ == transfer_transcript(enc, c.logs()),
{
    let t = concat(c.d_y.to_bytes(), c.d_1.to_bytes());
    let t = concat(t, c.d_b_star.to_bytes());
    let t = concat(t, c.d_b_prime.to_bytes());
    let t = concat(t, encode_gt(enc, &c.r));
    let t = concat(t, encode_gt(enc, &c.r_bar));
    let t = concat(t, encode_gt(enc, &c.r_sk));
    let t = concat(t, encode_gt(enc, &c.d_2));
    let t = concat(t, encode_gt(enc, &c.d_2_bar));
    concat(t, encode_gt(enc, &c.d_2_tilde))
}

/// `base·a − stmt·x` in G1 has exponent `md(a − stmt·x)` when `base` is the generator.
fn g1_open(a: &Scalar, stmt: &G1Elem, x: &Scalar) -> (r: G1Elem)
    ensures
        r@ == md(a@ - stmt@ * x@),
{
    let r = G1Elem::one().mul(a).sub(&stmt.mul(x));
    proof {
        assert(1 * a@ == a@);
        lemma_md_sub(a@, stmt@ * x@);
        lemma_md_sub(md(a@), stmt@ * x@);
    }
    r
}

/// `G1·a + h1·b` has exponent `md(a + h1·b)`.
fn g1_pedersen(a: &Scalar, h1: &G1Elem, b: &Scalar) -> (r: G1Elem)
    ensures
        r@ == md(a@ + h1@ * b@),
{
    let r = G1Elem::one().mul(a).add(&h1.mul(b));
    proof {
        assert(1 * a@ == a@);
        lemma_md_add(a@, h1@ * b@);
    }
    r
}

/// `e(p, u)·e(G1, v)^(-1)` has exponent `md(p·u − v)`.
fn gt_ratio(p: &G1Elem, u: &G2Elem, v: &G2Elem) -> (r: GtElem)
    ensures
        r@ == md(p@ * u@ - v@),
{
    let r = pairing(p, u).mul(&pairing(&G1Elem::one().neg(), v));
    proof {
        lemma_md_small(1);
        lemma_md_mul(-1, v@);
        lemma_md_add(p@ * u@, -1 * v@);
    }
    r
}

/// `e(G1,G2)^a · e(p, u)` has exponent `md(a + p·u)`.
fn gt_masked(a: &Scalar, p: &G1Elem, u: &G2Elem) -> (r: GtElem)
    ensures
        r@ == md(a@ + p@ * u@),
{
    let gt = pairing(&G1Elem::one(), &G2Elem::one());
    let r = gt.pow(a).mul(&pairing(p, u));
    proof {
        lemma_md_small(1);
        assert(gt@ * a@ == a@) by (nonlinear_arith)
            requires gt@ == 1;
        lemma_md_add(a@, p@ * u@);
    }
    r
}

/// `k · c^(-x)` in the target group has exponent `md(k − c·x)`.
fn gt_divide(k: &GtElem, c: &GtElem, x: &Scalar) -> (r: GtElem)
    ensures
        r@ == md(k@ - c@ * x@),
{
    let inv = c.pow(x).inverse().unwrap();
    let r = k.mul(&inv);
    proof {
        lemma_md_add(k@, md(-md(c@ * x@)));
        lemma_md_sub(k@, md(c@ * x@));
        lemma_md_sub(k@, c@ * x@);
    }
    r
}

/// The prover; it owns the randomness that blinds its proofs.
pub struct TransferProver {
    rng: SecureRng,
}

impl TransferProver {
    /// The randomness source that this value draws from.
    pub closed spec fn source(&self) -> SecureRng {
        self.rng
    }

    pub fn new(rng: SecureRng) -> (r: TransferProver)
        ensures
            r.source() == rng,
    {
        TransferProver { rng }
    }

    /// The prover's commitments for given blinding values.
    pub fn commit(st: &TransferStatement, m: &TransferBlinding) -> (c: TransferCommitments)
        ensures
            c.logs() == transfer_prover_logs(*st, *m),
    {
        let g1 = G1Elem::one();
        let d_y = g1.mul(&m.ms);
        let d_1 = g1.mul(&m.mr);
        let d_b_star = g1_pedersen(&m.mb_star, &st.h1, &m.mr_star);
        let d_b_prime = g1_pedersen(&m.mb_prime, &st.h1, &m.mr_prime);
        let r = gt_ratio(&st.c1, &m.m_id, &m.m_id_prime);
        let r_bar = gt_ratio(&st.c1, &m.m_id_bar, &m.m_id_bar_prime);
        let r_sk = gt_ratio(&st.y, &m.m_id, &m.m_sk);
        let d_2 = gt_masked(&m.mb_star, &st.y, &m.m_id_prime);
        let d_2_bar = gt_masked(&m.mb_star, &st.y_bar, &m.m_id_bar_prime);
        let d_2_tilde = gt_masked(&m.mb_prime, &st.c1_tilde, &m.m_sk);
        proof {
            assert(1 * m.ms@ == m.ms@);
            assert(1 * m.mr@ == m.mr@);
        }
        let c = TransferCommitments { d_y, d_1, d_b_star, d_b_prime, r, r_bar, r_sk, d_2, d_2_bar, d_2_tilde };
        assert(c.logs() =~= transfer_prover_logs(*st, *m));
        c
    }

    /// The proof for given blinding values.
    pub fn generate_proof_with<E: Fn(&GtElem) -> Vec<u8>>(
        st: &TransferStatement,
        w: &TransferWitness,
        m: &TransferBlinding,
        enc: &E,
    ) -> (p: TransferProof)
        requires
            is_canonical_encoder(enc),
        ensures
            p.x@ == hash_scalar_of(transfer_transcript(enc, transfer_prover_logs(*st, *m))),
            transfer_responds(p, *w, *m),
    {
        let c = Self::commit(st, m);
        let script = transcript(&c, enc);
        let x = hash_to_scalar(script.as_slice());
        let zr = x.mul(&w.r).add(&m.mr);
        let zs = x.mul(&w.s).add(&m.ms);
        let zr_star = x.mul(&w.r_star).add(&m.mr_star);
        let zr_prime = x.mul(&w.r_prime).add(&m.mr_prime);
        let zb_star = x.mul(&w.b_star).add(&m.mb_star);
        let zb_prime = x.mul(&w.b_prime).add(&m.mb_prime);
        let h_id_prime = w.h_id.mul(&w.r);
        let h_id_bar_prime = w.h_id_bar.mul(&w.r);
        let z_id = w.h_id.mul(&x).add(&m.m_id);
        let z_id_prime = h_id_prime.mul(&x).add(&m.m_id_prime);
        let z_id_bar = w.h_id_bar.mul(&x).add(&m.m_id_bar);
        let z_id_bar_prime = h_id_bar_prime.mul(&x).add(&m.m_id_bar_prime);
        let z_sk = w.sk_id.mul(&x).add(&m.m_sk);
        proof {
            lemma_md_add(x@ * w.r@, m.mr@);
            lemma_md_add(x@ * w.s@, m.ms@);
            lemma_md_add(x@ * w.r_star@, m.mr_star@);
            lemma_md_add(x@ * w.r_prime@, m.mr_prime@);
            lemma_md_add(x@ * w.b_star@, m.mb_star@);
            lemma_md_add(x@ * w.b_prime@, m.mb_prime@);
            lemma_md_add(w.h_id@ * x@, m.m_id@);
            lemma_md_add(md(w.h_id@ * w.r@) * x@, m.m_id_prime@);
            lemma_md_add(w.h_id_bar@ * x@, m.m_id_bar@);
            lemma_md_add(md(w.h_id_bar@ * w.r@) * x@, m.m_id_bar_prime@);
            lemma_md_add(w.sk_id@ * x@, m.m_sk@);
        }
        TransferProof {
            x,
            zr,
            zs,
            zr_star,
            zr_prime,
            zb_star,
            zb_prime,
            z_id,
            z_id_prime,
            z_id_bar,
            z_id_bar_prime,
            z_sk,
        }
    }

    /// Draws fresh blinding values and proves the statement.
    pub fn generate_proof<E: Fn(&GtElem) -> Vec<u8>>(
        &mut self,
        statement: TransferStatement,
        witness: TransferWitness,
        enc: &E,
    ) -> (p: TransferProof)
        requires
            is_canonical_encoder(enc),
        ensures
            exists|m: TransferBlinding|
                #![trigger transfer_responds(p, witness, m)]
                m.wf() && transfer_responds(p, witness, m)
                    && p.x@ == hash_scalar_of(transfer_transcript(enc, transfer_prover_logs(statement, m))),
    {
        let mr = self.rng.scalar();
        let ms = self.rng.scalar();
        let mr_star = self.rng.scalar();
        let mr_prime = self.rng.scalar();
        let mb_star = self.rng.scalar();
        let mb_prime = self.rng.scalar();
        let m_id = self.rng.g2();
        let m_id_prime = self.rng.g2();
        let m_id_bar = self.rng.g2();
        let m_id_bar_prime = self.rng.g2();
        let m_sk = self.rng.g2();
        let m = TransferBlinding {
            mr,
            ms,
            mr_star,
            mr_prime,
            mb_star,
            mb_prime,
            m_id,
            m_id_prime,
            m_id_bar,
            m_id_bar_prime,
            m_sk,
        };
        Self::generate_proof_with(&statement, &witness, &m, enc)
    }
}

pub struct TransferVerifier;

impl TransferVerifier {
    /// The commitments rebuilt from the responses.
    pub fn recompute(st: &TransferStatement, p: &TransferProof) -> (c: TransferCommitments)
        ensures
            c.logs() == transfer_verifier_logs(*st, *p),
    {
        let d_y = g1_open(&p.zs, &st.y, &p.x);
        let d_1 = g1_open(&p.zr, &st.c1, &p.x);
        let d_b_star = g1_pedersen(&p.zb_star, &st.h1, &p.zr_star).sub(&st.c_b_star.mul(&p.x));
        let d_b_prime = g1_pedersen(&p.zb_prime, &st.h1, &p.zr_prime).sub(&st.c_b_prime.mul(&p.x));
        let r = gt_ratio(&st.c1, &p.z_id, &p.z_id_prime);
        let r_bar = gt_ratio(&st.c1, &p.z_id_bar, &p.z_id_bar_prime);
        let r_sk = gt_ratio(&st.y, &p.z_id, &p.z_sk);
        let d_2 = gt_divide(&gt_masked(&p.zb_star, &st.y, &p.z_id_prime), &st.c2, &p.x);
        let d_2_bar = gt_divide(&gt_masked(&p.zb_star, &st.y_bar, &p.z_id_bar_prime), &st.c2_bar, &p.x);
        let d_2_tilde = gt_divide(&gt_masked(&p.zb_prime, &st.c1_tilde, &p.z_sk), &st.c2_tilde, &p.x);
        proof {
            let a1 = p.zb_star@ + st.h1@ * p.zr_star@;
            let a2 = p.zb_prime@ + st.h1@ * p.zr_prime@;
            lemma_md_sub(a1, st.c_b_star@ * p.x@);
            lemma_md_sub(md(a1), st.c_b_star@ * p.x@);
            lemma_md_sub(a2, st.c_b_prime@ * p.x@);
            lemma_md_sub(md(a2), st.c_b_prime@ * p.x@);
            lemma_md_sub(p.zb_star@ + st.y@ * p.z_id_prime@, st.c2@ * p.x@);
            lemma_md_sub(p.zb_star@ + st.y_bar@ * p.z_id_bar_prime@, st.c2_bar@ * p.x@);
            lemma_md_sub(p.zb_prime@ + st.c1_tilde@ * p.z_sk@, st.c2_tilde@ * p.x@);
        }
        let c = TransferCommitments { d_y, d_1, d_b_star, d_b_prime, r, r_bar, r_sk, d_2, d_2_bar, d_2_tilde };
        assert(c.logs() =~= transfer_verifier_logs(*st, *p));
        c
    }

    /// Accepts exactly when the challenge recomputed from the rebuilt
    /// commitments equals the proof's challenge.
    pub fn verify_proof<E: Fn(&GtElem) -> Vec<u8>>(
        statement: TransferStatement,
        proof: TransferProof,
        enc: &E,
    ) -> (r: Result<(), ZkError>)
        requires
            is_canonical_encoder(enc),
        ensures
            r is Ok <==> transfer_accepts(enc, statement, proof),
            r matches Err(e) ==> e == ZkError::VerificationError,
    {
        let c = Self::recompute(&statement, &proof);
        let script = transcript(&c, enc);
        let x = hash_to_scalar(script.as_slice());
        if x.equals(&proof.x) {
            Ok(())
        } else {
            Err(ZkError::VerificationError)
        }
    }
}

} // verus!
