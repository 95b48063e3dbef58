use trusty_ipc::ec::{
    coords_from_nist_pub_key, coords_from_p256_pub_key, coords_from_p384_pub_key,
    ed25519_coord_from_params, find_bytes_param, key_requirements, nist_coords_from_params,
    Algorithm, BoringEcDh, BoringEcDsa, Digest, EllipticCurve, Error, ErrorCode, KeyParam,
    KeyPlan, KeyType, KeyUse, SignKeyKind, PARAM_X, PARAM_Y,
};

fn sec1(x: &[u8], y: &[u8]) -> Vec<u8> {
    let mut key = vec![0x04];
    key.extend_from_slice(x);
    key.extend_from_slice(y);
    key
}

#[test]
fn p256_coordinates() {
    let x: Vec<u8> = (0..32).collect();
    let y: Vec<u8> = (100..132).collect();
    assert_eq!(coords_from_p256_pub_key(&sec1(&x, &y)), Ok((x.clone(), y.clone())));
    assert_eq!(coords_from_p384_pub_key(&sec1(&x, &y)), Err(Error(ErrorCode::InternalError)));
}

#[test]
fn p384_coordinates() {
    let x: Vec<u8> = (0..48).collect();
    let y: Vec<u8> = (100..148).collect();
    assert_eq!(coords_from_p384_pub_key(&sec1(&x, &y)), Ok((x.clone(), y.clone())));
    assert_eq!(coords_from_p256_pub_key(&sec1(&x, &y)), Err(Error(ErrorCode::InternalError)));
}

#[test]
fn malformed_public_keys_have_no_coordinates() {
    let internal = Err(Error(ErrorCode::InternalError));
    assert_eq!(coords_from_nist_pub_key(&[], 0), internal);
    assert_eq!(coords_from_nist_pub_key(&[4], 1), internal);
    assert_eq!(coords_from_nist_pub_key(&[4, 1, 2, 3], 1), internal);
    assert_eq!(coords_from_nist_pub_key(&[3, 1, 2], 1), internal);
    assert_eq!(coords_from_nist_pub_key(&[2, 1, 2], 1), internal);
    assert_eq!(coords_from_nist_pub_key(&[4, 1, 2], usize::MAX), internal);
    assert_eq!(coords_from_nist_pub_key(&[4, 1, 2], usize::MAX / 2 + 1), internal);
    assert_eq!(coords_from_nist_pub_key(&[4, 1, 2], 1), Ok((vec![1], vec![2])));
    assert_eq!(coords_from_nist_pub_key(&[4], 0), Ok((vec![], vec![])));
}

fn param(label: Option<i64>, bytes: Option<&[u8]>) -> KeyParam {
    KeyParam { label, bytes: bytes.map(|b| b.to_vec()) }
}

#[test]
fn coordinates_are_the_first_byte_parameters_with_their_labels() {
    let params = vec![
        param(Some(-1), Some(&[9])),
        param(Some(PARAM_X), None),
        param(None, Some(&[8])),
        param(Some(PARAM_Y), Some(&[2])),
        param(Some(PARAM_X), Some(&[1])),
        param(Some(PARAM_X), Some(&[7])),
    ];
    assert_eq!(find_bytes_param(&params, PARAM_X), Some(&vec![1]));
    assert_eq!(find_bytes_param(&params, PARAM_Y), Some(&vec![2]));
    assert_eq!(find_bytes_param(&params, -4), None);
    assert_eq!(
        nist_coords_from_params(&params, ErrorCode::InvalidPeerKeKey),
        Ok((&vec![1], &vec![2]))
    );
    assert_eq!(ed25519_coord_from_params(&params), Ok(&vec![1]));
}

#[test]
fn missing_coordinates_fail_with_the_given_code() {
    let only_x = vec![param(Some(PARAM_X), Some(&[1]))];
    let only_y = vec![param(Some(PARAM_Y), Some(&[2]))];
    assert_eq!(
        nist_coords_from_params(&only_x, ErrorCode::InvalidPeerKeKey),
        Err(Error(ErrorCode::InvalidPeerKeKey))
    );
    assert_eq!(
        nist_coords_from_params(&only_y, ErrorCode::InvalidCertChain),
        Err(Error(ErrorCode::InvalidCertChain))
    );
    assert_eq!(ed25519_coord_from_params(&only_y), Err(Error(ErrorCode::InvalidCertChain)));
    assert_eq!(ed25519_coord_from_params(&vec![]), Err(Error(ErrorCode::InvalidCertChain)));
}

#[test]
fn key_plans() {
    let ecdsa = BoringEcDsa;
    assert_eq!(
        ecdsa.key_plan(EllipticCurve::P256),
        Ok(KeyPlan::Nist { curve: EllipticCurve::P256, algorithm: Algorithm::ES256, coord_len: 32 })
    );
    assert_eq!(
        ecdsa.key_plan(EllipticCurve::P384),
        Ok(KeyPlan::Nist { curve: EllipticCurve::P384, algorithm: Algorithm::ES384, coord_len: 48 })
    );
    assert_eq!(ecdsa.key_plan(EllipticCurve::Ed25519), Ok(KeyPlan::Ed25519));
    for curve in [
        EllipticCurve::P521,
        EllipticCurve::X25519,
        EllipticCurve::X448,
        EllipticCurve::Ed448,
        EllipticCurve::Secp256k1,
    ] {
        assert_eq!(ecdsa.key_plan(curve), Err(Error(ErrorCode::Unimplemented)));
    }
    assert_eq!(
        BoringEcDh.key_plan(),
        KeyPlan::Nist {
            curve: EllipticCurve::P256,
            algorithm: Algorithm::EcdhEsHkdf256,
            coord_len: 32
        }
    );
}

#[test]
fn digests_and_verdicts() {
    let ecdsa = BoringEcDsa;
    assert_eq!(ecdsa.digest_for(SignKeyKind::Ed25519), None);
    assert_eq!(ecdsa.digest_for(SignKeyKind::P256), Some(Digest::Sha256));
    assert_eq!(ecdsa.digest_for(SignKeyKind::P384), Some(Digest::Sha384));
    assert_eq!(ecdsa.key_use_for(SignKeyKind::Ed25519), KeyUse::Ed25519);
    assert_eq!(ecdsa.key_use_for(SignKeyKind::P256), KeyUse::P256Ecdsa);
    assert_eq!(ecdsa.key_use_for(SignKeyKind::P384), KeyUse::P384Ecdsa);
    assert_eq!(ecdsa.verdict(true), Ok(()));
    assert_eq!(ecdsa.verdict(false), Err(Error(ErrorCode::InvalidSignature)));
}

#[test]
fn requirements_of_keys() {
    let r = key_requirements(KeyUse::P256Ecdh);
    assert_eq!(
        (r.kty, r.algorithm, r.curve, r.err_code),
        (KeyType::EC2, Algorithm::EcdhEsHkdf256, EllipticCurve::P256, ErrorCode::InvalidPeerKeKey)
    );
    let r = key_requirements(KeyUse::P256Ecdsa);
    assert_eq!(
        (r.kty, r.algorithm, r.curve, r.err_code),
        (KeyType::EC2, Algorithm::ES256, EllipticCurve::P256, ErrorCode::InvalidCertChain)
    );
    let r = key_requirements(KeyUse::P384Ecdsa);
    assert_eq!(
        (r.kty, r.algorithm, r.curve, r.err_code),
        (KeyType::EC2, Algorithm::ES384, EllipticCurve::P384, ErrorCode::InvalidCertChain)
    );
    let r = key_requirements(KeyUse::Ed25519);
    assert_eq!(
        (r.kty, r.algorithm, r.curve, r.err_code),
        (KeyType::OKP, Algorithm::EdDSA, EllipticCurve::Ed25519, ErrorCode::InvalidCertChain)
    );
}
