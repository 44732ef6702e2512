use aibe::bf_ibe::BFIbe;
use aibe::errors::ZkError;
use aibe::group::{GtElem, SecureRng};
use aibe::utils::{hash_to_g2, pedersen_commitment, u64_to_scalar};
use aibe::zk::burn::{BurnProof, BurnProver, BurnStatement, BurnVerifier, BurnWitness};
use aibe::zk::transfer::{TransferProof, TransferProver, TransferStatement, TransferVerifier, TransferWitness};
use std::cell::RefCell;

/// Encodes each target-group element by the order in which distinct values
/// were first seen: equal elements get equal encodings within one run.
fn codebook() -> impl Fn(&GtElem) -> Vec<u8> {
    let seen: RefCell<Vec<GtElem>> = RefCell::new(Vec::new());
    move |e: &GtElem| {
        let mut s = seen.borrow_mut();
        let i = match s.iter().position(|v| v.equals(e)) {
            Some(i) => i,
            None => {
                s.push(*e);
                s.len() - 1
            }
        };
        (i as u64).to_le_bytes().to_vec()
    }
}

fn transfer_setup() -> (TransferStatement, TransferWitness) {
    let mut rng = SecureRng::new();
    let b = u64_to_scalar(60);
    let b_star = u64_to_scalar(40);
    let b_prime = b.sub(&b_star);

    let mut ibe = BFIbe::new(SecureRng::new());
    let (msk1, mpk1) = ibe.generate_key();
    let (_msk2, mpk2) = ibe.generate_key();
    let sk1 = ibe.extract("zico1", &msk1);
    let c_balance = ibe.encrypt(&b, "zico1", &mpk1);
    let ((c_transfer, c_transfer_bar), (h_id, h_id_bar), r) =
        ibe.encrypt_correlated_internal(&b_star, ("zico1", "zico2"), (&mpk1, &mpk2));

    let h1 = rng.g1();
    let (r_star, c_b_star) = pedersen_commitment(&b_star, &h1, &mut rng);
    let (r_prime, c_b_prime) = pedersen_commitment(&b_prime, &h1, &mut rng);

    let statement = TransferStatement {
        h1,
        y: mpk1,
        y_bar: mpk2,
        c1: c_transfer.0,
        c2: c_transfer.1,
        c2_bar: c_transfer_bar.1,
        c1_tilde: c_balance.0.sub(&c_transfer.0),
        c2_tilde: c_balance.1.mul(&c_transfer.1.inverse().unwrap()),
        c_b_star,
        c_b_prime,
    };
    let witness = TransferWitness {
        r,
        s: msk1,
        r_star,
        r_prime,
        b_star,
        b_prime,
        h_id,
        h_id_bar,
        sk_id: sk1,
    };
    (statement, witness)
}

fn transfer_proved<E: Fn(&GtElem) -> Vec<u8>>(enc: &E) -> (TransferStatement, TransferProof) {
    let (statement, witness) = transfer_setup();
    let mut prover = TransferProver::new(SecureRng::new());
    let proof = prover.generate_proof(statement, witness, enc);
    (statement, proof)
}

#[test]
fn test_zk_transfer() {
    let enc = codebook();
    let (statement, proof) = transfer_proved(&enc);
    let result = TransferVerifier::verify_proof(statement, proof, &enc);
    assert!(result.is_ok());
}

#[test]
fn transfer_rejects_corrupted_zb_star() {
    let enc = codebook();
    let (statement, proof) = transfer_proved(&enc);
    let mut bad = proof;
    bad.zb_star = bad.zb_star.add(&u64_to_scalar(1));
    assert_eq!(TransferVerifier::verify_proof(statement, bad, &enc).err(), Some(ZkError::VerificationError));
}

#[test]
fn transfer_rejects_corrupted_scalar_responses() {
    let enc = codebook();
    let (statement, proof) = transfer_proved(&enc);
    let one = u64_to_scalar(1);
    let mut cases: Vec<TransferProof> = Vec::new();
    let mut p = proof; p.x = p.x.add(&one); cases.push(p);
    let mut p = proof; p.zr = p.zr.add(&one); cases.push(p);
    let mut p = proof; p.zs = p.zs.add(&one); cases.push(p);
    let mut p = proof; p.zr_star = p.zr_star.add(&one); cases.push(p);
    let mut p = proof; p.zr_prime = p.zr_prime.add(&one); cases.push(p);
    let mut p = proof; p.zb_prime = p.zb_prime.add(&one); cases.push(p);
    for bad in cases {
        assert!(TransferVerifier::verify_proof(statement, bad, &enc).is_err());
    }
}

#[test]
fn transfer_rejects_corrupted_point_responses() {
    let enc = codebook();
    let (statement, proof) = transfer_proved(&enc);
    let g2 = aibe::group::G2Elem::one();
    let mut cases: Vec<TransferProof> = Vec::new();
    let mut p = proof; p.z_id = p.z_id.add(&g2); cases.push(p);
    let mut p = proof; p.z_id_prime = p.z_id_prime.add(&g2); cases.push(p);
    let mut p = proof; p.z_id_bar = p.z_id_bar.add(&g2); cases.push(p);
    let mut p = proof; p.z_id_bar_prime = p.z_id_bar_prime.add(&g2); cases.push(p);
    let mut p = proof; p.z_sk = p.z_sk.add(&g2); cases.push(p);
    for bad in cases {
        assert!(TransferVerifier::verify_proof(statement, bad, &enc).is_err());
    }
}

#[test]
fn transfer_rejects_altered_g1_statement_fields() {
    let enc = codebook();
    let (statement, proof) = transfer_proved(&enc);
    let g1 = aibe::group::G1Elem::one();
    let mut cases: Vec<TransferStatement> = Vec::new();
    let mut s = statement; s.h1 = s.h1.add(&g1); cases.push(s);
    let mut s = statement; s.y = s.y.add(&g1); cases.push(s);
    let mut s = statement; s.y_bar = s.y_bar.add(&g1); cases.push(s);
    let mut s = statement; s.c1 = s.c1.add(&g1); cases.push(s);
    let mut s = statement; s.c1_tilde = s.c1_tilde.add(&g1); cases.push(s);
    let mut s = statement; s.c_b_star = s.c_b_star.add(&g1); cases.push(s);
    let mut s = statement; s.c_b_prime = s.c_b_prime.add(&g1); cases.push(s);
    for bad in cases {
        assert!(TransferVerifier::verify_proof(bad, proof, &enc).is_err());
    }
}

#[test]
fn transfer_rejects_altered_target_statement_fields() {
    let enc = codebook();
    let (statement, proof) = transfer_proved(&enc);
    let gt = aibe::group::pairing(&aibe::group::G1Elem::one(), &aibe::group::G2Elem::one());
    let mut cases: Vec<TransferStatement> = Vec::new();
    let mut s = statement; s.c2 = s.c2.mul(&gt); cases.push(s);
    let mut s = statement; s.c2_bar = s.c2_bar.mul(&gt); cases.push(s);
    let mut s = statement; s.c2_tilde = s.c2_tilde.mul(&gt); cases.push(s);
    for bad in cases {
        assert!(TransferVerifier::verify_proof(bad, proof, &enc).is_err());
    }
}

fn burn_proved<E: Fn(&GtElem) -> Vec<u8>>(enc: &E) -> (BurnStatement, BurnProof) {
    let mut ibe = BFIbe::new(SecureRng::new());
    let plain = u64_to_scalar(35);
    let (msk, mpk) = ibe.generate_key();
    let sk = ibe.extract("zico", &msk);
    let cipher = ibe.encrypt(&plain, "zico", &mpk);
    let statement = BurnStatement { y: mpk, c1_id: cipher.0, c2_id: cipher.1 };
    let witness = BurnWitness { b: plain, s: msk, h_id: hash_to_g2("zico".as_bytes()), sk_id: sk };
    let mut prover = BurnProver::new(SecureRng::new());
    let proof = prover.generate_proof(statement, witness, enc);
    (statement, proof)
}

#[test]
fn burn_proof_is_accepted() {
    let enc = codebook();
    let (statement, proof) = burn_proved(&enc);
    assert!(BurnVerifier::verify_proof(statement, proof, &enc).is_ok());
}

#[test]
fn burn_rejects_any_altered_field() {
    let enc = codebook();
    let (statement, proof) = burn_proved(&enc);
    let one = u64_to_scalar(1);
    let g1 = aibe::group::G1Elem::one();
    let g2 = aibe::group::G2Elem::one();
    let gt = aibe::group::pairing(&g1, &g2);
    let mut proofs: Vec<BurnProof> = Vec::new();
    let mut p = proof; p.x = p.x.add(&one); proofs.push(p);
    let mut p = proof; p.zb = p.zb.add(&one); proofs.push(p);
    let mut p = proof; p.zs = p.zs.add(&one); proofs.push(p);
    let mut p = proof; p.z_id = p.z_id.add(&g2); proofs.push(p);
    let mut p = proof; p.z_sk = p.z_sk.add(&g2); proofs.push(p);
    for bad in proofs {
        assert_eq!(BurnVerifier::verify_proof(statement, bad, &enc).err(), Some(ZkError::VerificationError));
    }
    let mut statements: Vec<BurnStatement> = Vec::new();
    let mut s = statement; s.y = s.y.add(&g1); statements.push(s);
    let mut s = statement; s.c1_id = s.c1_id.add(&g1); statements.push(s);
    let mut s = statement; s.c2_id = s.c2_id.mul(&gt); statements.push(s);
    for bad in statements {
        assert!(BurnVerifier::verify_proof(bad, proof, &enc).is_err());
    }
}

#[test]
fn burn_proof_for_wrong_amount_is_rejected() {
    let enc = codebook();
    let mut ibe = BFIbe::new(SecureRng::new());
    let (msk, mpk) = ibe.generate_key();
    let sk = ibe.extract("zico", &msk);
    let cipher = ibe.encrypt(&u64_to_scalar(35), "zico", &mpk);
    let statement = BurnStatement { y: mpk, c1_id: cipher.0, c2_id: cipher.1 };
    let witness = BurnWitness { b: u64_to_scalar(36), s: msk, h_id: hash_to_g2("zico".as_bytes()), sk_id: sk };
    let mut prover = BurnProver::new(SecureRng::new());
    let proof = prover.generate_proof(statement, witness, &enc);
    assert!(BurnVerifier::verify_proof(statement, proof, &enc).is_err());
}

#[test]
fn proofs_have_fixed_byte_forms() {
    let enc = codebook();
    let (_statement, proof) = burn_proved(&enc);
    let bytes = proof.to_bytes();
    assert_eq!(bytes.len(), 352);
    assert_eq!(bytes[0..32].to_vec(), proof.x.to_bytes());
    assert_eq!(bytes[224..352].to_vec(), proof.z_sk.to_bytes());
    let (_statement, proof) = transfer_proved(&enc);
    let bytes = proof.to_bytes();
    assert_eq!(bytes.len(), 864);
    assert_eq!(bytes[160..192].to_vec(), proof.zb_star.to_bytes());
    assert_eq!(bytes[736..864].to_vec(), proof.z_sk.to_bytes());
}
