//! The Boneh–Franklin identity-based encryption engine.
//!
//! A ciphertext of `msg` for identity `id` under master public key `mpk`,
//! with randomness `r`, is `(G1::one()·r, e(g1,g2)^msg · e(mpk, H(id))^r)`.
use vstd::prelude::*;
use vstd::string::StringSliceAdditionalSpecFns;
use crate::errors::IbeError;
use crate::group::{
    Scalar, G1Elem, G2Elem, GtElem, SecureRng, pairing, md, order, lemma_md_range,
    lemma_md_small, lemma_md_add, lemma_md_mul, lemma_md_sub,
};
use crate::utils::{hash_to_g2, hash_scalar_of, baby_step_giant_step, stride_of};

verus! {

pub type CipherText = (G1Elem, GtElem);

pub type PlainData = Scalar;

pub type MasterSecretKey = Scalar;

pub type MasterPublicKey = G1Elem;

pub type IdSecretKey = G2Elem;

/// The discrete log of the hashed identity `H(id)` in G2.
pub open spec fn id_log(id: Seq<u8>) -> int {
    hash_scalar_of(id)
}

/// The exponent of the second ciphertext component: `msg + mpk·h·r`.
pub open spec fn c2_of(msg: int, mpk: int, h: int, r: int) -> int {
    md(msg + mpk * h * r)
}

/// The exponent that decryption recovers from `(c1, c2)` with key `sk`:
/// that of `c2 · e(c1, sk)^(-1)`.
pub open spec fn unmasked_of(c1: int, c2: int, sk: int) -> int {
    md(c2 - c1 * sk)
}

/// Encryption to one identity and decryption with its secret key give back
/// the message.
pub proof fn lemma_round_trip(msk: int, id: Seq<u8>, msg: int, r: int)
    requires
        0 <= msk < order(),
        0 <= msg < order(),
        0 <= r < order(),
    ensures
        unmasked_of(r, c2_of(msg, msk, id_log(id), r), md(id_log(id) * msk)) == msg,
{
    let h = id_log(id);
    lemma_md_sub(msg + msk * h * r, r * md(h * msk));
    lemma_md_mul(r, h * msk);
    lemma_md_sub(msg + msk * h * r, r * (h * msk));
    assert(msg + msk * h * r - r * (h * msk) == msg) by (nonlinear_arith);
    lemma_md_small(msg);
}

/// The sum of two ciphertexts to one identity decrypts to the sum of the
/// messages, whatever randomness each encryption drew.
pub proof fn lemma_homomorphism(msk: int, id: Seq<u8>, m1: int, m2: int, r1: int, r2: int)
    requires
        0 <= msk < order(),
        0 <= m1,
        0 <= m2,
        m1 + m2 < order(),
        0 <= r1 < order(),
        0 <= r2 < order(),
    ensures
        unmasked_of(
            md(r1 + r2),
            md(c2_of(m1, msk, id_log(id), r1) + c2_of(m2, msk, id_log(id), r2)),
            md(id_log(id) * msk),
        ) == m1 + m2,
{
    let h = id_log(id);
    let sk = md(h * msk);
    let a = m1 + msk * h * r1;
    let b = m2 + msk * h * r2;
    lemma_md_add(a, b);
    lemma_md_add(md(a), b);
    lemma_md_mul(r1 + r2, sk);
    lemma_md_mul(r1 + r2, h * msk);
    lemma_md_sub(a + b, md(r1 + r2) * sk);
    lemma_md_mul(md(r1 + r2), sk);
    lemma_md_mul(md(r1 + r2), h * msk);
    lemma_md_mul(r1 + r2, h * msk);
    lemma_md_sub(a + b, md(r1 + r2) * (h * msk));
    lemma_md_sub(a + b, (r1 + r2) * (h * msk));
    assert(a + b - (r1 + r2) * (h * msk) == m1 + m2) by (nonlinear_arith)
        requires a == m1 + msk * h * r1, b == m2 + msk * h * r2;
    lemma_md_small(m1 + m2);
}

/// The Boneh–Franklin scheme, with the randomness source that its
/// probabilistic operations draw from.
pub struct BFIbe {
    rng: SecureRng,
}

impl BFIbe {
    /// The randomness source that this value draws from.
    pub closed spec fn source(&self) -> SecureRng {
        self.rng
    }

    pub fn new(rng: SecureRng) -> (r: BFIbe)
        ensures
            r.source() == rng,
    {
        BFIbe { rng }
    }

    /// Encrypts `msg` for `id` under `mpk` with randomness `r`, and returns the
    /// ciphertext with the hashed identity.
    pub fn encrypt_internal(&self, msg: &PlainData, id: &str, mpk: &MasterPublicKey, r: Scalar) -> (res: (CipherText, G2Elem))
        requires
            r.wf(),
        ensures
            res.1@ == id_log(id.spec_bytes()),
            res.0.0@ == r@,
            res.0.1@ == c2_of(msg@, mpk@, id_log(id.spec_bytes()), r@),
    {
        let hash_id = hash_to_g2(id.as_bytes());
        let c1 = G1Elem::one().mul(&r);
        let gt = pairing(&G1Elem::one(), &G2Elem::one());
        let c2_part1 = gt.pow(msg);
        let c2_part2 = pairing(mpk, &hash_id).pow(&r);
        let c2 = c2_part1.mul(&c2_part2);
        proof {
            let h = id_log(id.spec_bytes());
            lemma_md_small(1);
            lemma_md_small(r@);
            lemma_md_mul(mpk@ * h, r@);
            lemma_md_add(msg@, mpk@ * h * r@);
            assert(gt@ * msg@ == msg@) by (nonlinear_arith)
                requires gt@ == 1;
        }
        ((c1, c2), hash_id)
    }

    /// Encrypts `msg` for two identities with one shared randomness `r`: both
    /// ciphertexts carry the same first component. Returns the ciphertexts,
    /// the two hashed identities and `r`.
    pub fn encrypt_correlated_internal(
        &mut self,
        msg: &PlainData,
        ids: (&str, &str),
        mpks: (&MasterPublicKey, &MasterPublicKey),
    ) -> (res: ((CipherText, CipherText), (G2Elem, G2Elem), Scalar))
        ensures
            res.2.wf(),
            res.0.0.0 == res.0.1.0,
            res.0.0.0@ == res.2@,
            res.1.0@ == id_log(ids.0.spec_bytes()),
            res.1.1@ == id_log(ids.1.spec_bytes()),
            res.0.0.1@ == c2_of(msg@, mpks.0@, id_log(ids.0.spec_bytes()), res.2@),
            res.0.1.1@ == c2_of(msg@, mpks.1@, id_log(ids.1.spec_bytes()), res.2@),
    {
        let r = self.rng.scalar();
        let c1 = G1Elem::one().mul(&r);
        let c2_part1 = pairing(&G1Elem::one(), &G2Elem::one().mul(msg));
        let hash_id1 = hash_to_g2(ids.0.as_bytes());
        let c2_part2 = pairing(mpks.0, &hash_id1.mul(&r));
        let cipher_1 = (c1, c2_part1.mul(&c2_part2));
        let hash_id2 = hash_to_g2(ids.1.as_bytes());
        let c2_part2 = pairing(mpks.1, &hash_id2.mul(&r));
        let cipher_2 = (c1, c2_part1.mul(&c2_part2));
        proof {
            lemma_md_small(r@);
            lemma_md_range(msg@);
            lemma_md_small(md(msg@));
            let h1 = id_log(ids.0.spec_bytes());
            let h2 = id_log(ids.1.spec_bytes());
            lemma_md_mul(mpks.0@, h1 * r@);
            lemma_md_mul(mpks.1@, h2 * r@);
            assert(mpks.0@ * (h1 * r@) == mpks.0@ * h1 * r@) by (nonlinear_arith);
            assert(mpks.1@ * (h2 * r@) == mpks.1@ * h2 * r@) by (nonlinear_arith);
            lemma_md_add(msg@, mpks.0@ * h1 * r@);
            lemma_md_add(msg@, mpks.1@ * h2 * r@);
        }
        ((cipher_1, cipher_2), (hash_id1, hash_id2), r)
    }

    /// The master public key `G1::one() · msk`.
    pub fn msk_to_mpk(msk: &MasterSecretKey) -> (r: MasterPublicKey)
        ensures
            r@ == md(msk@),
    {
        G1Elem::one().mul(msk)
    }

    /// The homomorphic sum of two ciphertexts.
    pub fn add_ciphers(ct1: &CipherText, ct2: &CipherText) -> (r: CipherText)
        ensures
            r.0@ == md(ct1.0@ + ct2.0@),
            r.1@ == md(ct1.1@ + ct2.1@),
    {
        let x = ct1.0.add(&ct2.0);
        let y = ct1.1.mul(&ct2.1);
        (x, y)
    }

    /// The pairing value `e(mpk, H(id))` of an identity.
    pub fn pk_id(mpk: &MasterPublicKey, id: &str) -> (r: GtElem)
        ensures
            r@ == md(mpk@ * id_log(id.spec_bytes())),
    {
        let hash_id = hash_to_g2(id.as_bytes());
        pairing(mpk, &hash_id)
    }

    /// A fresh uniformly drawn scalar.
    pub fn random_scalar(&mut self) -> (r: Scalar)
        ensures
            r.wf(),
    {
        self.rng.scalar()
    }

    /// Draws a master secret key and returns it with its public key.
    pub fn generate_key(&mut self) -> (r: (MasterSecretKey, MasterPublicKey))
        ensures
            r.0.wf(),
            r.1@ == r.0@,
    {
        let msk = self.rng.scalar();
        let mpk = G1Elem::one().mul(&msk);
        proof {
            lemma_md_small(msk@);
        }
        (msk, mpk)
    }

    /// Encrypts `msg` for `id` under `mpk` with randomness `r`.
    pub fn encrypt_with_randomness(&self, msg: &PlainData, id: &str, mpk: &MasterPublicKey, r: Scalar) -> (c: CipherText)
        requires
            r.wf(),
        ensures
            c.0@ == r@,
            c.1@ == c2_of(msg@, mpk@, id_log(id.spec_bytes()), r@),
    {
        let (c, _h) = self.encrypt_internal(msg, id, mpk, r);
        c
    }

    /// Encrypts `msg` for `id` under `mpk` with fresh randomness, which is
    /// the exponent of the first component.
    pub fn encrypt(&mut self, msg: &PlainData, id: &str, mpk: &MasterPublicKey) -> (c: CipherText)
        ensures
            c.0.wf(),
            c.1@ == c2_of(msg@, mpk@, id_log(id.spec_bytes()), c.0@),
    {
        let r = self.rng.scalar();
        self.encrypt_with_randomness(msg, id, mpk, r)
    }

    /// Correlated encryption: two ciphertexts of `msg` that share their first
    /// component.
    pub fn encrypt_correlated(
        &mut self,
        msg: &PlainData,
        ids: (&str, &str),
        mpks: (&MasterPublicKey, &MasterPublicKey),
    ) -> (res: (CipherText, CipherText))
        ensures
            res.0.0 == res.1.0,
            res.0.0.wf(),
            res.0.1@ == c2_of(msg@, mpks.0@, id_log(ids.0.spec_bytes()), res.0.0@),
            res.1.1@ == c2_of(msg@, mpks.1@, id_log(ids.1.spec_bytes()), res.0.0@),
    {
        let (c, _h, _r) = self.encrypt_correlated_internal(msg, ids, mpks);
        c
    }

    /// The secret key of `id`: `H(id) · msk`.
    pub fn extract(&self, id: &str, msk: &MasterSecretKey) -> (r: IdSecretKey)
        ensures
            r@ == md(id_log(id.spec_bytes()) * msk@),
    {
        let hash_id = hash_to_g2(id.as_bytes());
        hash_id.mul(msk)
    }

    /// Decrypts with the secret key `sk`: solves `c2 · e(c1, sk)^(-1) = e(g1,g2)^x`
    /// for `x` below `bound`, or up to `m·(m+1)` where the solver's walk
    /// reaches. The pairing value of a group element is always
    /// invertible, so the only failure is a value out of reach.
    pub fn decrypt(&self, cipher: &CipherText, id: &str, sk: &IdSecretKey, bound: u64) -> (r: Result<PlainData, IbeError>)
        ensures
            r matches Ok(x) ==> x@ == unmasked_of(cipher.0@, cipher.1@, sk@),
            unmasked_of(cipher.0@, cipher.1@, sk@) < bound ==> r is Ok,
            unmasked_of(cipher.0@, cipher.1@, sk@) <= stride_of(bound as int) * (stride_of(bound as int) + 1)
                ==> r is Ok,
            r matches Err(e) ==> e == IbeError::OutOfBoundError,
            stride_of(bound as int) * (stride_of(bound as int) + 1) < unmasked_of(cipher.0@, cipher.1@, sk@)
                ==> r is Err,
    {
        let (c1, c2) = cipher;
        let inv = pairing(c1, sk).inverse();
        let inv = match inv {
            Some(v) => v,
            None => {
                return Err(IbeError::GtInverseError);
            },
        };
        let masked = c2.mul(&inv);
        let gt = pairing(&G1Elem::one(), &G2Elem::one());
        proof {
            lemma_md_small(1);
            lemma_md_sub(c2@, c1@ * sk@);
            lemma_md_range(c2@ - c1@ * sk@);
        }
        baby_step_giant_step(&masked, &gt, bound)
    }
}

} // verus!
