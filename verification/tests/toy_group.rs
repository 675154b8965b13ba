use zkp_auth::{Natural, ZKP};

fn toy() -> ZKP {
    ZKP {
        q: Natural::from_u32(11),
        p: Natural::from_u32(23),
        alpha: Natural::from_u32(4),
        beta: Natural::from_u32(9),
    }
}

#[test]
fn test_toy_example() {
    let alpha = Natural::from_u32(4);
    let beta = Natural::from_u32(9);
    let p = Natural::from_u32(23);
    let q = Natural::from_u32(11);
    let zkp = ZKP {
        q: q.clone(),
        p: p.clone(),
        alpha: alpha.clone(),
        beta: beta.clone(),
    };

    let x = Natural::from_u32(6);
    let k = Natural::from_u32(7);

    let c = Natural::from_u32(4);

    let y1 = ZKP::exponentiate(&alpha, &x, &p);
    let y2 = ZKP::exponentiate(&beta, &x, &p);

    assert_eq!(y1, Natural::from_u32(2));
    assert_eq!(y2, Natural::from_u32(3));

    let r1 = ZKP::exponentiate(&alpha, &k, &p);
    let r2 = ZKP::exponentiate(&beta, &k, &p);
    assert_eq!(r1, Natural::from_u32(8));
    assert_eq!(r2, Natural::from_u32(4));

    let s = zkp.solve(&k, &c, &x);
    assert_eq!(s, Natural::from_u32(5));

    let x_fake = Natural::from_u32(7);
    let s_fake = zkp.solve(&k, &c, &x_fake);

    let result = zkp.verify(&r1, &r2, &y1, &y2, &c, &s_fake);
    assert_eq!(result, false);
}

#[test]
fn test_toy_example_with_random() {
    let alpha = Natural::from_u32(4);
    let beta = Natural::from_u32(9);
    let p = Natural::from_u32(23);
    let q = Natural::from_u32(11);
    let zkp = ZKP {
        q: q.clone(),
        p: p.clone(),
        alpha: alpha.clone(),
        beta: beta.clone(),
    };

    let x = Natural::from_u32(6);
    let k = ZKP::generate_random_below(&q);

    let c = ZKP::generate_random_below(&q);

    let y1 = ZKP::exponentiate(&alpha, &x, &p);
    let y2 = ZKP::exponentiate(&beta, &x, &p);

    let r1 = ZKP::exponentiate(&alpha, &k, &p);
    let r2 = ZKP::exponentiate(&beta, &k, &p);
    let s = zkp.solve(&k, &c, &x);

    let result = zkp.verify(&r1, &r2, &y1, &y2, &c, &s);
    assert_eq!(result, true);
}

#[test]
fn test_1024_bits_constants() {
    let p = Natural::from_bytes_be(
        &hex::decode("B10B8F96A080E01DDE92DE5EAE5D54EC52C99FBCFB06A3C69A6A9DCA52D23B616073E28675A23D189838EF1E2EE652C013ECB4AEA906112324975C3CD49B83BFACCBDD7D90C4BD7098488E9C219A73724EFFD6FAE5644738FAA31A4FF55BCCC0A151AF5F0DC8B4BD45BF37DF365C1A65E68CFDA76D4DA708DF1FB2BC2E4A4371").expect("Invalid hex string"),
    );
    let q = Natural::from_bytes_be(
        &hex::decode("801C0D34C58D93FE997177101F80535A4738CEBCBF389A99B36371EB").expect("Invalid hex string"),
    );

    let alpha = Natural::from_bytes_be(
        &hex::decode("AC4032EF4F2D9AE39DF30B5C8FFDAC506CDEBE7B89998CAF74866A08CFE4FFE3A6824A4E10B9A6F0DD921F01A70C4AFAAB739D7700C29F52C57DB17C620A8652BE5E9001A8D66AD7C17669101999024AF4D027275AC1348BB8A762D0521BC98AE247150422EA1ED409939D54DA7460CDB5F6C6B250717CBEF180EB34118E98D119529A45D6F834566E3025E316A330EFBB77A86F0C1AB15B051AE3D428C8F8ACB70A8137150B8EEB10E183EDD19963DDD9E263E4770589EF6AA21E7F5F2FF381B539CCE3409D13CD566AFBB48D6C019181E1BCFE94B30269EDFE72FE9B6AA4BD7B5A0F1C71CFFF4C19C418E1F6EC017981BC087F2A7065B384B890D3191F2BFA").expect("Invalid hex string"),
    );

    let beta = alpha.modpow(&ZKP::generate_random_below(&q), &p);

    let zkp = ZKP {
        q: q.clone(),
        p: p.clone(),
        alpha: alpha.clone(),
        beta: beta.clone(),
    };

    let x = ZKP::generate_random_below(&q);
    let k = ZKP::generate_random_below(&q);

    let c = ZKP::generate_random_below(&q);

    let (y1, y2) = zkp.compute_commitments(&x);
    let (r1, r2) = zkp.compute_commitments(&k);
    let s = zkp.solve(&k, &c, &x);
    assert!(!s.at_least(&q));
    let _ = (y1, y2, r1, r2);
}

#[test]
fn toy_vector_is_accepted() {
    let zkp = toy();
    let x = Natural::from_u32(6);
    let k = Natural::from_u32(7);
    let c = Natural::from_u32(4);
    let (y1, y2) = zkp.compute_commitments(&x);
    let (r1, r2) = zkp.compute_commitments(&k);
    let s = zkp.solve(&k, &c, &x);
    assert_eq!((y1.clone(), y2.clone()), (Natural::from_u32(2), Natural::from_u32(3)));
    assert_eq!((r1.clone(), r2.clone()), (Natural::from_u32(8), Natural::from_u32(4)));
    assert_eq!(s, Natural::from_u32(5));
    assert!(zkp.verify(&r1, &r2, &y1, &y2, &c, &s));
}

#[test]
fn toy_vector_with_wrong_secret_is_rejected() {
    let zkp = toy();
    let k = Natural::from_u32(7);
    let c = Natural::from_u32(4);
    let (y1, y2) = zkp.compute_commitments(&Natural::from_u32(6));
    let (r1, r2) = zkp.compute_commitments(&k);
    let s_fake = zkp.solve(&k, &c, &Natural::from_u32(7));
    assert_eq!(s_fake, Natural::from_u32(1));
    assert!(!zkp.verify(&r1, &r2, &y1, &y2, &c, &s_fake));
}

#[test]
fn every_honest_proof_in_the_toy_group_is_accepted() {
    let zkp = toy();
    for x in 0..11u32 {
        let xn = Natural::from_u32(x);
        let (y1, y2) = zkp.compute_commitments(&xn);
        for k in 0..11u32 {
            let kn = Natural::from_u32(k);
            let (r1, r2) = zkp.compute_commitments(&kn);
            for c in 0..11u32 {
                let cn = Natural::from_u32(c);
                let s = zkp.solve(&kn, &cn, &xn);
                assert!(!s.at_least(&zkp.q));
                assert!(zkp.verify(&r1, &r2, &y1, &y2, &cn, &s));
            }
        }
    }
}

#[test]
fn solve_takes_the_direct_branch() {
    let zkp = toy();
    // 10 - 2 * 3 = 4
    let s = zkp.solve(&Natural::from_u32(10), &Natural::from_u32(2), &Natural::from_u32(3));
    assert_eq!(s, Natural::from_u32(4));
    // 40 - 2 * 3 = 34 = 3 * 11 + 1
    let s = zkp.solve(&Natural::from_u32(40), &Natural::from_u32(2), &Natural::from_u32(3));
    assert_eq!(s, Natural::from_u32(1));
    // equal: 6 - 2 * 3 = 0
    let s = zkp.solve(&Natural::from_u32(6), &Natural::from_u32(2), &Natural::from_u32(3));
    assert_eq!(s, Natural::from_u32(0));
}

#[test]
fn solve_takes_the_underflow_branch() {
    let zkp = toy();
    // 7 - 24 = -17 = -2 * 11 + 5
    let s = zkp.solve(&Natural::from_u32(7), &Natural::from_u32(4), &Natural::from_u32(6));
    assert_eq!(s, Natural::from_u32(5));
    // 0 - 22 = -22: a multiple of q gives 0, not q
    let s = zkp.solve(&Natural::from_u32(0), &Natural::from_u32(2), &Natural::from_u32(11));
    assert_eq!(s, Natural::from_u32(0));
    // 1 - 3 = -2 = -11 + 9
    let s = zkp.solve(&Natural::from_u32(1), &Natural::from_u32(1), &Natural::from_u32(3));
    assert_eq!(s, Natural::from_u32(9));
    // 0 - 1000 * 1000 = -1000000 = -90910 * 11 + 10
    let s = zkp.solve(&Natural::from_u32(0), &Natural::from_u32(1000), &Natural::from_u32(1000));
    assert_eq!(s, Natural::from_u32(10));
}

#[test]
fn verify_gives_the_same_answer_each_time() {
    let zkp = toy();
    let args = [8u32, 4, 2, 3, 4, 5].map(Natural::from_u32);
    let first = zkp.verify(&args[0], &args[1], &args[2], &args[3], &args[4], &args[5]);
    for _ in 0..5 {
        assert_eq!(zkp.verify(&args[0], &args[1], &args[2], &args[3], &args[4], &args[5]), first);
    }
    assert!(first);
}

#[test]
fn verify_needs_both_commitments_to_match() {
    let zkp = toy();
    let n = Natural::from_u32;
    assert!(zkp.verify(&n(8), &n(4), &n(2), &n(3), &n(4), &n(5)));
    assert!(!zkp.verify(&n(9), &n(4), &n(2), &n(3), &n(4), &n(5)));
    assert!(!zkp.verify(&n(8), &n(5), &n(2), &n(3), &n(4), &n(5)));
    // a commitment that is right modulo p but not reduced does not match
    assert!(!zkp.verify(&n(8 + 23), &n(4), &n(2), &n(3), &n(4), &n(5)));
}

#[test]
fn exponentiate_reduces_modulo_the_modulus() {
    let n = Natural::from_u32;
    assert_eq!(ZKP::exponentiate(&n(4), &n(6), &n(23)), n(2));
    assert_eq!(ZKP::exponentiate(&n(2), &n(10), &n(1000)), n(24));
    assert_eq!(ZKP::exponentiate(&n(5), &n(0), &n(7)), n(1));
    assert_eq!(ZKP::exponentiate(&n(5), &n(0), &n(1)), n(0));
    assert_eq!(ZKP::exponentiate(&n(0), &n(3), &n(7)), n(0));
}

#[test]
fn generate_commitment_commits_to_its_nonce() {
    let zkp = toy();
    let (r1, r2) = zkp.generate_commitment(&Natural::from_u32(7));
    assert_eq!((r1, r2), (Natural::from_u32(8), Natural::from_u32(4)));
    for _ in 0..20 {
        let k = ZKP::generate_random_below(&zkp.q);
        let (r1, r2) = zkp.generate_commitment(&k);
        assert_eq!(r1, ZKP::exponentiate(&zkp.alpha, &k, &zkp.p));
        assert_eq!(r2, ZKP::exponentiate(&zkp.beta, &k, &zkp.p));
    }
}

#[test]
fn random_values_stay_below_the_limit() {
    let one = Natural::from_u32(1);
    for _ in 0..20 {
        assert_eq!(ZKP::generate_random_below(&one), Natural::from_u32(0));
    }
    let limit = Natural::from_u32(1000);
    for _ in 0..200 {
        assert!(!ZKP::generate_random_below(&limit).at_least(&limit));
    }
}

#[test]
fn random_strings_are_alphanumeric() {
    for size in [0usize, 1, 12, 64] {
        let s = ZKP::generate_random_string(size);
        assert_eq!(s.chars().count(), size);
        assert!(s.chars().all(|c| c.is_ascii_alphanumeric()));
    }
    assert_ne!(ZKP::generate_random_string(32), ZKP::generate_random_string(32));
}

#[test]
fn groups_are_checked_for_validity() {
    assert!(toy().is_valid());
    let (alpha, beta, p, q) = ZKP::get_constants();
    assert!(ZKP { q, p, alpha, beta }.is_valid());
    let n = Natural::from_u32;
    // 5 does not have order 11 modulo 23
    assert!(!ZKP { q: n(11), p: n(23), alpha: n(5), beta: n(9) }.is_valid());
    assert!(!ZKP { q: n(11), p: n(23), alpha: n(4), beta: n(5) }.is_valid());
    assert!(!ZKP { q: n(0), p: n(23), alpha: n(4), beta: n(9) }.is_valid());
    assert!(!ZKP { q: n(11), p: n(0), alpha: n(4), beta: n(9) }.is_valid());
    assert!(!ZKP { q: n(11), p: n(1), alpha: n(4), beta: n(9) }.is_valid());
}

#[test]
fn every_wrong_secret_in_the_toy_group_is_rejected() {
    let zkp = toy();
    for x in 0..11u32 {
        let (y1, y2) = zkp.compute_commitments(&Natural::from_u32(x));
        for x_fake in 0..11u32 {
            if x_fake == x {
                continue;
            }
            for k in [0u32, 3, 10] {
                let kn = Natural::from_u32(k);
                let (r1, r2) = zkp.compute_commitments(&kn);
                for c in 1..11u32 {
                    let cn = Natural::from_u32(c);
                    let s_fake = zkp.solve(&kn, &cn, &Natural::from_u32(x_fake));
                    assert!(!zkp.verify(&r1, &r2, &y1, &y2, &cn, &s_fake));
                }
                // with the challenge 0 the secret is not used at all
                let zero = Natural::from_u32(0);
                let s = zkp.solve(&kn, &zero, &Natural::from_u32(x_fake));
                assert!(zkp.verify(&r1, &r2, &y1, &y2, &zero, &s));
            }
        }
    }
}
