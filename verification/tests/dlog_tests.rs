use schnorr_zk_dlog::dlog::{DLogProof, DiscreteLogProof};
use schnorr_zk_dlog::point::Point;
use schnorr_zk_dlog::scalar::{generate_random_scalar, Scalar};

#[test]
fn test_hash_points_basic() {
    // The hash of a non-empty list of points is not zero.
    let sid = "test_session";
    let pid = 1;
    let points = vec![Point::generator(), Point::generator().mul(&Scalar::one())];
    let hash = DLogProof::hash_points(sid, pid, &points).expect("Hash computation failed");
    assert_ne!(hash, Scalar::zero(), "Hash should not be zero");
}

#[test]
fn test_hash_points_different_sids() {
    // The hash differs between two session IDs.
    let pid = 1;
    let points = vec![Point::generator()];
    let hash1 = DLogProof::hash_points("session1", pid, &points).expect("Hash computation failed");
    let hash2 = DLogProof::hash_points("session2", pid, &points).expect("Hash computation failed");
    assert_ne!(hash1, hash2, "Different session IDs should produce different hashes");
}

#[test]
fn test_hash_points_different_pids() {
    // The hash differs between two participant IDs.
    let sid = "test_session";
    let points = vec![Point::generator()];
    let hash1 = DLogProof::hash_points(sid, 1, &points).expect("Hash computation failed");
    let hash2 = DLogProof::hash_points(sid, 2, &points).expect("Hash computation failed");
    assert_ne!(hash1, hash2, "Different PIDs should produce different hashes");
}

#[test]
fn test_hash_points_empty_list() {
    // The hash of an empty list of points is not zero.
    let sid = "test_session";
    let pid = 1;
    let points: Vec<Point> = vec![];
    let hash = DLogProof::hash_points(sid, pid, &points).expect("Hash computation failed");
    assert_ne!(hash, Scalar::zero(), "Hash of empty points list should not be zero");
}

#[test]
fn test_basic_prove_and_verify() {
    // A proof that was made correctly verifies.
    let sid = "test_session";
    let pid = 1;
    let x = generate_random_scalar();
    let base_point = Point::generator();
    let y = base_point.mul(&x);

    let proof = DLogProof::prove(sid, pid, &x, &y, &base_point).expect("Proof generation failed");
    let result = proof.verify(sid, pid, &y, &base_point).expect("Verification failed");
    assert!(result, "Valid proof should verify");
}

#[test]
fn test_verify_with_wrong_session() {
    // A proof does not verify under another session ID.
    let sid = "test_session";
    let wrong_sid = "wrong_session";
    let pid = 1;
    let x = generate_random_scalar();
    let base_point = Point::generator();
    let y = base_point.mul(&x);

    let proof = DLogProof::prove(sid, pid, &x, &y, &base_point).expect("Proof generation failed");
    let result = proof
        .verify(wrong_sid, pid, &y, &base_point)
        .expect("Verification failed");
    assert!(!result, "Proof should not verify with wrong session ID");
}

#[test]
fn test_verify_with_wrong_pid() {
    // A proof does not verify under another participant ID.
    let sid = "test_session";
    let pid = 1;
    let wrong_pid = 2;
    let x = generate_random_scalar();
    let base_point = Point::generator();
    let y = base_point.mul(&x);

    let proof = DLogProof::prove(sid, pid, &x, &y, &base_point).expect("Proof generation failed");
    let result = proof
        .verify(sid, wrong_pid, &y, &base_point)
        .expect("Verification failed");
    assert!(!result, "Proof should not verify with wrong PID");
}

#[test]
fn test_verify_with_wrong_public_key() {
    // A proof does not verify against another public key.
    let sid = "test_session";
    let pid = 1;
    let x = generate_random_scalar();
    let base_point = Point::generator();
    let y = base_point.mul(&x);

    // The wrong public key comes from a different scalar.
    let wrong_y = base_point.mul(&x.add(&Scalar::one()));

    let proof = DLogProof::prove(sid, pid, &x, &y, &base_point).expect("Proof generation failed");
    let result = proof
        .verify(sid, pid, &wrong_y, &base_point)
        .expect("Verification failed");
    assert!(!result, "Proof should not verify with wrong public key");
}

#[test]
fn test_multiple_proofs_same_secret() {
    let sid = "test_session";
    let pid = 1;
    let x = generate_random_scalar();
    let base_point = Point::generator();
    let y = base_point.mul(&x);

    let proof1 = DLogProof::prove(sid, pid, &x, &y, &base_point).expect("First proof generation failed");
    let proof2 = DLogProof::prove(sid, pid, &x, &y, &base_point).expect("Second proof generation failed");

    assert_ne!(proof1, proof2, "Different proofs for same secret should be different");

    let result1 = proof1.verify(sid, pid, &y, &base_point).expect("First verification failed");
    let result2 = proof2.verify(sid, pid, &y, &base_point).expect("Second verification failed");

    assert!(result1, "First proof should verify");
    assert!(result2, "Second proof should verify");
}

#[test]
fn test_random_scalar_uniqueness() {
    // Scalars drawn one after another differ from each other.
    let mut scalars = Vec::new();
    for _ in 0..100 {
        scalars.push(generate_random_scalar());
    }

    for i in 0..scalars.len() {
        for j in (i + 1)..scalars.len() {
            assert_ne!(scalars[i], scalars[j], "Generated scalars should be unique");
        }
    }
}

#[test]
fn test_random_scalar_range() {
    // A drawn scalar is not zero.
    for _ in 0..100 {
        let scalar = generate_random_scalar();
        assert_ne!(scalar, Scalar::zero(), "Random scalar should not be zero");
    }
}

#[test]
fn test_proof_tamper_resistance() {
    // A proof does not verify once any of its values was tampered with.
    let sid = "test_session";
    let pid = 1;
    let x = generate_random_scalar();
    let base_point = Point::generator();
    let y = base_point.mul(&x);

    let proof = DLogProof::prove(sid, pid, &x, &y, &base_point).expect("Proof generation failed");
    let test_scalar = Scalar::one().add(&Scalar::one());

    let tampered_proofs = vec![
        DLogProof {
            t: proof.t.clone(),
            s: proof.s.add(&Scalar::one()),
        },
        DLogProof {
            t: proof.t.mul(&test_scalar),
            s: proof.s,
        },
        DLogProof {
            t: proof.t.add(&base_point),
            s: proof.s,
        },
    ];

    for (i, tampered_proof) in tampered_proofs.iter().enumerate() {
        let result = tampered_proof
            .verify(sid, pid, &y, &base_point)
            .expect("Verification failed");
        assert!(!result, "Tampered proof {} should not verify", i);
    }
}
