use aibe::bf_ibe::BFIbe;
use aibe::errors::IbeError;
use aibe::group::{pairing, G1Elem, G2Elem, GtElem, SecureRng};
use aibe::utils::{
    baby_step_giant_step, ceil_sqrt, hash_to_g2, hash_to_scalar, i32_to_scalar, u64_to_scalar,
};
use rand::Rng;

fn gt_generator() -> GtElem {
    pairing(&G1Elem::one(), &G2Elem::one())
}

#[test]
fn test_bf_ibe() {
    let mut rng = rand::thread_rng();
    let bound: u64 = 100;
    let plain: u64 = rng.gen_range(0..bound);
    println!("Groud truth: {:?}", plain);

    let mut ibe = BFIbe::new(SecureRng::new());
    let (msk, mpk) = ibe.generate_key();
    let sk = ibe.extract("zico", &msk);
    let cipher = ibe.encrypt(&u64_to_scalar(plain), "zico", &mpk);
    let result = ibe.decrypt(&cipher, "zico", &sk, bound);

    assert!(result.is_ok());
    assert!(result.unwrap().equals(&u64_to_scalar(plain)));
}

#[test]
fn decrypts_thirty_five_for_zico() {
    let mut ibe = BFIbe::new(SecureRng::new());
    let (msk, mpk) = ibe.generate_key();
    let sk = ibe.extract("zico", &msk);
    let cipher = ibe.encrypt(&u64_to_scalar(35), "zico", &mpk);
    let result = ibe.decrypt(&cipher, "zico", &sk, 100).ok().unwrap();
    assert!(result.equals(&u64_to_scalar(35)));
}

#[test]
fn round_trip_edges_of_bound() {
    let mut ibe = BFIbe::new(SecureRng::new());
    let (msk, mpk) = ibe.generate_key();
    let sk = ibe.extract("alice", &msk);
    for m in [0u64, 1, 98, 99] {
        let cipher = ibe.encrypt(&u64_to_scalar(m), "alice", &mpk);
        let result = ibe.decrypt(&cipher, "alice", &sk, 100).ok().unwrap();
        assert!(result.equals(&u64_to_scalar(m)));
    }
}

#[test]
fn homomorphic_sum_decrypts_to_sum() {
    let mut ibe = BFIbe::new(SecureRng::new());
    let (msk, mpk) = ibe.generate_key();
    let sk = ibe.extract("zico", &msk);
    let a = ibe.encrypt(&u64_to_scalar(60), "zico", &mpk);
    let b = ibe.encrypt(&u64_to_scalar(39), "zico", &mpk);
    let sum = BFIbe::add_ciphers(&a, &b);
    let result = ibe.decrypt(&sum, "zico", &sk, 100).ok().unwrap();
    assert!(result.equals(&u64_to_scalar(99)));
}

#[test]
fn correlated_ciphertexts_share_first_component() {
    let mut ibe = BFIbe::new(SecureRng::new());
    let (msk1, mpk1) = ibe.generate_key();
    let (msk2, mpk2) = ibe.generate_key();
    let (c1, c2) = ibe.encrypt_correlated(&u64_to_scalar(40), ("zico1", "zico2"), (&mpk1, &mpk2));
    assert!(c1.0.equals(&c2.0));
    let sk1 = ibe.extract("zico1", &msk1);
    let sk2 = ibe.extract("zico2", &msk2);
    assert!(ibe.decrypt(&c1, "zico1", &sk1, 100).ok().unwrap().equals(&u64_to_scalar(40)));
    assert!(ibe.decrypt(&c2, "zico2", &sk2, 100).ok().unwrap().equals(&u64_to_scalar(40)));
}

#[test]
fn wrong_identity_is_out_of_bound() {
    let mut ibe = BFIbe::new(SecureRng::new());
    let (msk, mpk) = ibe.generate_key();
    let sk_other = ibe.extract("bob", &msk);
    let cipher = ibe.encrypt(&u64_to_scalar(7), "alice", &mpk);
    let result = ibe.decrypt(&cipher, "bob", &sk_other, 100);
    assert_eq!(result.err(), Some(IbeError::OutOfBoundError));
}

#[test]
fn fixed_randomness_gives_fixed_ciphertext() {
    let ibe = BFIbe::new(SecureRng::new());
    let msk = u64_to_scalar(12345);
    let mpk = BFIbe::msk_to_mpk(&msk);
    let r = u64_to_scalar(777);
    let a = ibe.encrypt_with_randomness(&u64_to_scalar(5), "carol", &mpk, r);
    let b = ibe.encrypt_with_randomness(&u64_to_scalar(5), "carol", &mpk, r);
    assert!(a.0.equals(&b.0) && a.1.equals(&b.1));
    assert!(a.0.equals(&G1Elem::one().mul(&r)));
    // c2 = e(g1,g2)^msg · pk_id^r
    let pk = BFIbe::pk_id(&mpk, "carol");
    let expected = gt_generator().pow(&u64_to_scalar(5)).mul(&pk.pow(&r));
    assert!(a.1.equals(&expected));
    let sk = ibe.extract("carol", &msk);
    assert!(sk.equals(&hash_to_g2("carol".as_bytes()).mul(&msk)));
}

#[test]
fn solver_finds_every_log_below_small_bounds() {
    let g = gt_generator();
    for bound in [1u64, 10, 100] {
        for x in 0..bound {
            let h = g.pow(&u64_to_scalar(x));
            let r = baby_step_giant_step(&h, &g, bound).ok().unwrap();
            assert!(r.equals(&u64_to_scalar(x)));
        }
    }
}

#[test]
fn solver_finds_logs_below_ten_thousand() {
    let g = gt_generator();
    for x in [0u64, 1, 100, 101, 102, 5000, 9898, 9999] {
        let h = g.pow(&u64_to_scalar(x));
        let r = baby_step_giant_step(&h, &g, 10000).ok().unwrap();
        assert!(r.equals(&u64_to_scalar(x)));
    }
}

#[test]
fn solver_rejects_logs_beyond_its_reach() {
    let g = gt_generator();
    // bound 100: m = 11, the walk covers logs up to 11 * 12 = 132
    for x in [133u64, 1000, 123456] {
        let h = g.pow(&u64_to_scalar(x));
        assert_eq!(baby_step_giant_step(&h, &g, 100).err(), Some(IbeError::OutOfBoundError));
    }
    let h = g.pow(&i32_to_scalar(-1));
    assert_eq!(baby_step_giant_step(&h, &g, 100).err(), Some(IbeError::OutOfBoundError));
    // bound 0: m = 1, the walk covers logs up to 2
    let h = g.pow(&u64_to_scalar(3));
    assert_eq!(baby_step_giant_step(&h, &g, 0).err(), Some(IbeError::OutOfBoundError));
}

#[test]
fn ceil_sqrt_values() {
    assert_eq!(ceil_sqrt(0), 0);
    assert_eq!(ceil_sqrt(1), 1);
    assert_eq!(ceil_sqrt(2), 2);
    assert_eq!(ceil_sqrt(4), 2);
    assert_eq!(ceil_sqrt(5), 3);
    assert_eq!(ceil_sqrt(100), 10);
    assert_eq!(ceil_sqrt(10000), 100);
    assert_eq!(ceil_sqrt(10001), 101);
    assert_eq!(ceil_sqrt(u64::MAX), 1u64 << 32);
}

#[test]
fn hashing_is_deterministic_and_separates_inputs() {
    let a = hash_to_scalar(b"zico");
    let b = hash_to_scalar(b"zico");
    let c = hash_to_scalar(b"zicp");
    assert!(a.equals(&b));
    assert!(!a.equals(&c));
    assert!(!a.equals(&u64_to_scalar(0)));
    assert!(hash_to_g2(b"zico").equals(&G2Elem::one().mul(&a)));
}

#[test]
fn signed_scalars_wrap_around_the_order() {
    let minus_five = i32_to_scalar(-5);
    assert!(minus_five.add(&u64_to_scalar(5)).equals(&u64_to_scalar(0)));
    assert!(i32_to_scalar(7).equals(&u64_to_scalar(7)));
    assert!(i32_to_scalar(i32::MIN).add(&u64_to_scalar(1u64 << 31)).equals(&u64_to_scalar(0)));
}

#[test]
fn target_group_inverse_cancels() {
    let g = gt_generator().pow(&u64_to_scalar(9));
    let inv = g.inverse().unwrap();
    assert!(g.mul(&inv).equals(&GtElem::one()));
}

#[test]
fn scalars_convert_back_to_integers() {
    assert_eq!(aibe::utils::scalar_to_u64(u64_to_scalar(35)), 35);
    assert_eq!(aibe::utils::scalar_to_u64(u64_to_scalar(u64::MAX)), u64::MAX);
    let sum = u64_to_scalar(u64::MAX).add(&u64_to_scalar(2));
    assert_eq!(aibe::utils::scalar_to_u64(sum), 1);
}

#[test]
fn decrypted_amount_reads_as_integer() {
    let mut ibe = BFIbe::new(SecureRng::new());
    let (msk, mpk) = ibe.generate_key();
    let sk = ibe.extract("zico", &msk);
    let cipher = ibe.encrypt(&u64_to_scalar(35), "zico", &mpk);
    let result = ibe.decrypt(&cipher, "zico", &sk, 100).ok().unwrap();
    assert_eq!(aibe::utils::scalar_to_u64(result), 35);
}

#[test]
fn g1_encoding_is_fixed_width_and_separates_points() {
    let g = G1Elem::one();
    let a = g.to_bytes();
    let b = g.add(&g).to_bytes();
    assert_eq!(a.len(), 64);
    assert_eq!(b.len(), 64);
    assert_ne!(a, b);
    assert_eq!(a, g.mul(&u64_to_scalar(1)).to_bytes());
}

#[test]
fn solver_finds_logs_the_walk_reaches_above_bound() {
    let g = gt_generator();
    // bound 100: m = 11, logs up to 132 are reached
    for x in [100u64, 121, 131, 132] {
        let h = g.pow(&u64_to_scalar(x));
        let r = baby_step_giant_step(&h, &g, 100).ok().unwrap();
        assert!(r.equals(&u64_to_scalar(x)));
    }
}

#[test]
fn solver_works_for_another_base() {
    let g = gt_generator().pow(&u64_to_scalar(7));
    for x in [0u64, 1, 42, 99] {
        let h = g.pow(&u64_to_scalar(x));
        let r = baby_step_giant_step(&h, &g, 100).ok().unwrap();
        assert!(g.pow(&r).equals(&h));
    }
}

#[test]
fn decrypt_reaches_past_bound_within_the_walk() {
    let mut ibe = BFIbe::new(SecureRng::new());
    let (msk, mpk) = ibe.generate_key();
    let sk = ibe.extract("zico", &msk);
    let cipher = ibe.encrypt(&u64_to_scalar(120), "zico", &mpk);
    let result = ibe.decrypt(&cipher, "zico", &sk, 100).ok().unwrap();
    assert!(result.equals(&u64_to_scalar(120)));
}

#[test]
fn scalar_and_g2_encodings() {
    let one = u64_to_scalar(1).to_bytes();
    assert_eq!(one.len(), 32);
    assert_eq!(one[0], 1);
    assert!(one[1..].iter().all(|b| *b == 0));
    let big = u64_to_scalar(0x0102).to_bytes();
    assert_eq!(big[0], 2);
    assert_eq!(big[1], 1);
    let g = G2Elem::one();
    let a = g.to_bytes();
    assert_eq!(a.len(), 128);
    assert_ne!(a, g.add(&g).to_bytes());
    assert_eq!(a, g.mul(&u64_to_scalar(1)).to_bytes());
}
