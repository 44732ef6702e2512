//! The burn proof: knowledge of `(b, s, h_id, sk_id)` with `y = G1·s`,
//! `sk_id = h_id·s`, and a ciphertext `(c1, c2)` that decrypts to `b` under
//! `sk_id`.
use vstd::prelude::*;
use crate::errors::ZkError;
use crate::group::{
    Scalar, G1Elem, G2Elem, GtElem, SecureRng, pairing, md, g1_bytes_of, g2_bytes_of, le_int, be_int, sha256_of, lemma_md_range,
    lemma_md_small, lemma_md_add, lemma_md_mul, lemma_md_sub,
};
use crate::utils::{hash_to_scalar, hash_scalar_of};
use crate::zk::{is_canonical_encoder, gt_code, encode_gt, concat, lemma_schnorr, lemma_ratio, lemma_unmask};

verus! {

#[derive(Clone, Copy)]
pub struct BurnStatement {
    pub y: G1Elem,
    pub c1_id: G1Elem,
    pub c2_id: GtElem,
}

#[derive(Clone, Copy)]
pub struct BurnWitness {
    pub b: Scalar,
    pub s: Scalar,
    pub h_id: G2Elem,
    pub sk_id: G2Elem,
}

#[derive(Clone, Copy)]
pub struct BurnProof {
    pub x: Scalar,
    pub zb: Scalar,
    pub zs: Scalar,
    pub z_id: G2Elem,
    pub z_sk: G2Elem,
}

/// The prover's blinding values, drawn afresh for every proof.
#[derive(Clone, Copy)]
pub struct BurnBlinding {
    pub mb: Scalar,
    pub ms: Scalar,
    pub m_id: G2Elem,
    pub m_sk: G2Elem,
}

/// The three commitments `(d_y, r, d_id)` that the challenge hashes.
#[derive(Clone, Copy)]
pub struct BurnCommitments {
    pub d_y: G1Elem,
    pub r: GtElem,
    pub d_id: GtElem,
}

impl BurnStatement {
    pub open spec fn wf(&self) -> bool {
        self.y.wf() && self.c1_id.wf() && self.c2_id.wf()
    }
}

impl BurnWitness {
    pub open spec fn wf(&self) -> bool {
        self.b.wf() && self.s.wf() && self.h_id.wf() && self.sk_id.wf()
    }

    /// The witness is honest for the statement.
    pub open spec fn holds_for(&self, st: BurnStatement) -> bool {
        &&& st.y@ == self.s@
        &&& self.sk_id@ == md(self.h_id@ * self.s@)
        &&& md(st.c2_id@ - st.c1_id@ * self.sk_id@) == self.b@
    }
}

impl BurnBlinding {
    pub open spec fn wf(&self) -> bool {
        self.mb.wf() && self.ms.wf() && self.m_id.wf() && self.m_sk.wf()
    }
}

impl BurnCommitments {
    pub open spec fn logs(&self) -> (int, int, int) {
        (self.d_y@, self.r@, self.d_id@)
    }
}

/// The exponents of the prover's commitments:
/// `d_y = G1·ms`, `r = e(y, m_id)·e(G1, m_sk)^(-1)`, `d_id = e(G1,G2)^mb · e(c1, m_sk)`.
pub open spec fn burn_prover_logs(st: BurnStatement, m: BurnBlinding) -> (int, int, int) {
    (md(m.ms@), md(st.y@ * m.m_id@ - m.m_sk@), md(m.mb@ + st.c1_id@ * m.m_sk@))
}

/// The exponents of the commitments that the verifier rebuilds from the
/// responses: `d_y = G1·zs − y·x`, `r = e(y, z_id)·e(G1, z_sk)^(-1)`,
/// `d_id = e(G1,G2)^zb · e(c1, z_sk) · c2^(-x)`.
pub open spec fn burn_verifier_logs(st: BurnStatement, p: BurnProof) -> (int, int, int) {
    (
        md(p.zs@ - st.y@ * p.x@),
        md(st.y@ * p.z_id@ - p.z_sk@),
        md(p.zb@ + st.c1_id@ * p.z_sk@ - st.c2_id@ * p.x@),
    )
}

/// The bytes that the challenge hashes.
pub open spec fn burn_transcript<E: Fn(&GtElem) -> Vec<u8>>(enc: &E, logs: (int, int, int)) -> Seq<u8> {
    g1_bytes_of(logs.0) + gt_code(enc, logs.1) + gt_code(enc, logs.2)
}

/// The responses to challenge `x`, in the Schnorr form `x·witness + blinding`.
pub open spec fn burn_responds(p: BurnProof, w: BurnWitness, m: BurnBlinding) -> bool {
    &&& p.zb@ == md(p.x@ * w.b@ + m.mb@)
    &&& p.zs@ == md(p.x@ * w.s@ + m.ms@)
    &&& p.z_id@ == md(w.h_id@ * p.x@ + m.m_id@)
    &&& p.z_sk@ == md(w.sk_id@ * p.x@ + m.m_sk@)
}

impl BurnProof {
    /// The byte form of the proof: the encodings of `x`, `zb`, `zs`, `z_id`
    /// and `z_sk`, in that order.
    pub fn to_bytes(&self) -> (r: Vec<u8>)
        ensures
            r@.len() == 352,
            le_int(r@.subrange(0, 32)) == self.x@,
            le_int(r@.subrange(32, 64)) == self.zb@,
            le_int(r@.subrange(64, 96)) == self.zs@,
            r@.subrange(96, 224) == g2_bytes_of(self.z_id@),
            r@.subrange(224, 352) == g2_bytes_of(self.z_sk@),
    {
        let a = self.x.to_bytes();
        let b = self.zb.to_bytes();
        let c = self.zs.to_bytes();
        let d = self.z_id.to_bytes();
        let e = self.z_sk.to_bytes();
        let r = concat(concat(concat(concat(a, b), c), d), e);
        proof {
            assert(r@.subrange(0, 32) =~= a@);
            assert(r@.subrange(32, 64) =~= b@);
            assert(r@.subrange(64, 96) =~= c@);
            assert(r@.subrange(96, 224) =~= d@);
            assert(r@.subrange(224, 352) =~= e@);
        }
        r
    }
}

/// The verifier accepts `p` for `st`.
pub open spec fn burn_accepts<E: Fn(&GtElem) -> Vec<u8>>(enc: &E, st: BurnStatement, p: BurnProof) -> bool {
    p.x@ == hash_scalar_of(burn_transcript(enc, burn_verifier_logs(st, p)))
}

/// Completeness: for an honest witness, the commitments that the verifier
/// rebuilds from the responses are the prover's commitments, whatever the
/// challenge.
pub proof fn lemma_burn_commitments_agree(st: BurnStatement, w: BurnWitness, m: BurnBlinding, p: BurnProof)
    requires
        st.wf(),
        w.wf(),
        m.wf(),
        p.x.wf(),
        w.holds_for(st),
        burn_responds(p, w, m),
    ensures
        burn_verifier_logs(st, p) == burn_prover_logs(st, m),
{
    let x = p.x@;
    lemma_schnorr(w.s@, m.ms@, x);
    lemma_ratio(w.s@, w.h_id@, m.m_id@, m.m_sk@, x);
    lemma_unmask(st.c1_id@, w.sk_id@, st.c2_id@, w.b@, m.mb@, m.m_sk@, x);
}

/// The prover; it owns the randomness that blinds its proofs.
pub struct BurnProver {
    rng: SecureRng,
}

impl BurnProver {
    /// The randomness source that this value draws from.
    pub closed spec fn source(&self) -> SecureRng {
        self.rng
    }

    pub fn new(rng: SecureRng) -> (r: BurnProver)
        ensures
            r.source() == rng,
    {
        BurnProver { rng }
    }

    /// The prover's commitments for given blinding values.
    pub fn commit(statement: &BurnStatement, m: &BurnBlinding) -> (c: BurnCommitments)
        ensures
            c.logs() == burn_prover_logs(*statement, *m),
    {
        let g1 = G1Elem::one();
        let d_y = g1.mul(&m.ms);
        let r = pairing(&statement.y, &m.m_id).mul(&pairing(&g1.neg(), &m.m_sk));
        let gt = pairing(&g1, &G2Elem::one());
        let d_id = gt.pow(&m.mb).mul(&pairing(&statement.c1_id, &m.m_sk));
        proof {
            lemma_md_small(1);
            assert(1 * m.ms@ == m.ms@);
            assert(gt@ * m.mb@ == m.mb@) by (nonlinear_arith)
                requires gt@ == 1;
            lemma_md_mul(-1, m.m_sk@);
            lemma_md_add(statement.y@ * m.m_id@, -1 * m.m_sk@);
            lemma_md_add(m.mb@, statement.c1_id@ * m.m_sk@);
        }
        BurnCommitments { d_y, r, d_id }
    }

    /// The proof for given blinding values: the challenge hashes the
    /// commitments, and each response is `x·witness + blinding`.
    pub fn generate_proof_with<E: Fn(&GtElem) -> Vec<u8>>(
        statement: &BurnStatement,
        witness: &BurnWitness,
        m: &BurnBlinding,
        enc: &E,
    ) -> (p: BurnProof)
        requires
            is_canonical_encoder(enc),
        ensures
            p.x@ == hash_scalar_of(burn_transcript(enc, burn_prover_logs(*statement, *m))),
            burn_responds(p, *witness, *m),
    {
        let c = Self::commit(statement, m);
        let script = concat(concat(c.d_y.to_bytes(), encode_gt(enc, &c.r)), encode_gt(enc, &c.d_id));
        let x = hash_to_scalar(script.as_slice());
        let zb = x.mul(&witness.b).add(&m.mb);
        let zs = x.mul(&witness.s).add(&m.ms);
        let z_id = witness.h_id.mul(&x).add(&m.m_id);
        let z_sk = witness.sk_id.mul(&x).add(&m.m_sk);
        proof {
            lemma_md_add(x@ * witness.b@, m.mb@);
            lemma_md_add(x@ * witness.s@, m.ms@);
            lemma_md_add(witness.h_id@ * x@, m.m_id@);
            lemma_md_add(witness.sk_id@ * x@, m.m_sk@);
            assert(script@ == burn_transcript(enc, burn_prover_logs(*statement, *m)));
        }
        BurnProof { x, zb, zs, z_id, z_sk }
    }

    /// Draws fresh blinding values and proves the statement.
    pub fn generate_proof<E: Fn(&GtElem) -> Vec<u8>>(
        &mut self,
        statement: BurnStatement,
        witness: BurnWitness,
        enc: &E,
    ) -> (p: BurnProof)
        requires
            is_canonical_encoder(enc),
        ensures
            exists|m: BurnBlinding|
                #![trigger burn_responds(p, witness, m)]
                m.wf() && burn_responds(p, witness, m)
                    && p.x@ == hash_scalar_of(burn_transcript(enc, burn_prover_logs(statement, m))),
    {
        let mb = self.rng.scalar();
        let ms = self.rng.scalar();
        let m_id = self.rng.g2();
        let m_sk = self.rng.g2();
        let m = BurnBlinding { mb, ms, m_id, m_sk };
        Self::generate_proof_with(&statement, &witness, &m, enc)
    }
}

pub struct BurnVerifier;

impl BurnVerifier {
    /// The commitments rebuilt from the responses.
    pub fn recompute(statement: &BurnStatement, proof: &BurnProof) -> (c: BurnCommitments)
        ensures
            c.logs() == burn_verifier_logs(*statement, *proof),
    {
        let g1 = G1Elem::one();
        let d_y = g1.mul(&proof.zs).sub(&statement.y.mul(&proof.x));
        let r = pairing(&statement.y, &proof.z_id).mul(&pairing(&g1.neg(), &proof.z_sk));
        let gt = pairing(&g1, &G2Elem::one());
        let inv = statement.c2_id.pow(&proof.x).inverse().unwrap();
        let d_id = gt.pow(&proof.zb).mul(&pairing(&statement.c1_id, &proof.z_sk)).mul(&inv);
        proof {
            let st = *statement;
            let p = *proof;
            lemma_md_small(1);
            assert(1 * p.zs@ == p.zs@);
            lemma_md_sub(p.zs@, st.y@ * p.x@);
            lemma_md_sub(md(p.zs@), st.y@ * p.x@);
            lemma_md_mul(-1, p.z_sk@);
            lemma_md_add(st.y@ * p.z_id@, -1 * p.z_sk@);
            assert(gt@ * p.zb@ == p.zb@) by (nonlinear_arith)
                requires gt@ == 1;
            lemma_md_add(p.zb@, st.c1_id@ * p.z_sk@);
            lemma_md_sub(p.zb@ + st.c1_id@ * p.z_sk@, st.c2_id@ * p.x@);
            lemma_md_sub(md(p.zb@ + st.c1_id@ * p.z_sk@), st.c2_id@ * p.x@);
            lemma_md_add(md(p.zb@ + st.c1_id@ * p.z_sk@), md(-md(st.c2_id@ * p.x@)));
            lemma_md_sub(md(p.zb@ + st.c1_id@ * p.z_sk@), md(st.c2_id@ * p.x@));
        }
        BurnCommitments { d_y, r, d_id }
    }

    /// Accepts exactly when the challenge recomputed from the rebuilt
    /// commitments equals the proof's challenge.
    pub fn verify_proof<E: Fn(&GtElem) -> Vec<u8>>(statement: BurnStatement, proof: BurnProof, enc: &E) -> (r: Result<(), ZkError>)
        requires
            is_canonical_encoder(enc),
        ensures
            r is Ok <==> burn_accepts(enc, statement, proof),
            r matches Err(e) ==> e == ZkError::VerificationError,
    {
        let c = Self::recompute(&statement, &proof);
        let script = concat(concat(c.d_y.to_bytes(), encode_gt(enc, &c.r)), encode_gt(enc, &c.d_id));
        let x = hash_to_scalar(script.as_slice());
        if x.equals(&proof.x) {
            Ok(())
        } else {
            Err(ZkError::VerificationError)
        }
    }
}

/// An honestly generated burn proof is accepted.
pub proof fn lemma_burn_completeness<E: Fn(&GtElem) -> Vec<u8>>(
    enc: &E,
    st: BurnStatement,
    w: BurnWitness,
    m: BurnBlinding,
    p: BurnProof,
)
    requires
        st.wf(),
        w.wf(),
        m.wf(),
        w.holds_for(st),
        p.x@ == hash_scalar_of(burn_transcript(enc, burn_prover_logs(st, m))),
        burn_responds(p, w, m),
    ensures
        burn_accepts(enc, st, p),
{
    lemma_md_range(be_int(sha256_of(burn_transcript(enc, burn_prover_logs(st, m)))));
    lemma_burn_commitments_agree(st, w, m, p);
}

} // verus!
