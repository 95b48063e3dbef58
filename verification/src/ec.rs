//! The choices around elliptic-curve keys: how a public key is laid out,
//! which curve goes with which algorithm and digest, and where the
//! coordinates of a key are found among its parameters. The arithmetic on
//! the curves is not done here.

use vstd::prelude::*;

verus! {

/// Initial byte of the encoding of a public key that is not compressed.
pub const SEC1_UNCOMPRESSED_PREFIX: u8 = 0x04;

/// Length of a coordinate on the curve P-256.
pub const P256_COORD_LEN: usize = 32;

/// Length of a coordinate on the curve P-384.
pub const P384_COORD_LEN: usize = 48;

/// Label of the parameter of a key that holds the first coordinate.
pub const PARAM_X: i64 = -2;

/// Label of the parameter of a key that holds the second coordinate.
pub const PARAM_Y: i64 = -3;

/// The kind of a failure.
#[derive(Clone, Copy, Debug, PartialEq, Eq, Structural)]
pub enum ErrorCode {
    /// The library is in a state it should not be in.
    InternalError,
    /// The key of the peer for key exchange is not acceptable.
    InvalidPeerKeKey,
    /// A key of a certificate chain is not acceptable.
    InvalidCertChain,
    /// A signature does not verify.
    InvalidSignature,
    /// The request is understood but not supported.
    Unimplemented,
}

/// A failure.
#[derive(Clone, Copy, Debug, PartialEq, Eq, Structural)]
pub struct Error(pub ErrorCode);

/// A curve.
#[derive(Clone, Copy, Debug, PartialEq, Eq, Structural)]
pub enum EllipticCurve {
    P256,
    P384,
    P521,
    X25519,
    X448,
    Ed25519,
    Ed448,
    Secp256k1,
}

/// An algorithm that a key is meant for.
#[derive(Clone, Copy, Debug, PartialEq, Eq, Structural)]
pub enum Algorithm {
    ES256,
    ES384,
    EdDSA,
    EcdhEsHkdf256,
}

/// The type of a key.
#[derive(Clone, Copy, Debug, PartialEq, Eq, Structural)]
pub enum KeyType {
    /// A key on a curve with two coordinates.
    EC2,
    /// A key on a curve with one coordinate.
    OKP,
}

/// The digest that is applied to data before it is signed.
#[derive(Clone, Copy, Debug, PartialEq, Eq, Structural)]
pub enum Digest {
    Sha256,
    Sha384,
}

/// The kind of a signing key or of a key that verifies signatures.
#[derive(Clone, Copy, Debug, PartialEq, Eq, Structural)]
pub enum SignKeyKind {
    Ed25519,
    P256,
    P384,
}

/// How a pair of keys is made.
#[derive(Clone, Copy, Debug, PartialEq, Eq, Structural)]
pub enum KeyPlan {
    /// On a NIST curve, for the algorithm, with coordinates of the length.
    Nist { curve: EllipticCurve, algorithm: Algorithm, coord_len: usize },
    /// On the curve Ed25519, for EdDSA.
    Ed25519,
}

/// What a key must say of itself to be used, and the failure if it does not.
#[derive(Clone, Copy, Debug, PartialEq, Eq, Structural)]
pub struct KeyRequirements {
    pub kty: KeyType,
    pub algorithm: Algorithm,
    pub curve: EllipticCurve,
    pub err_code: ErrorCode,
}

/// What a key is used for.
#[derive(Clone, Copy, Debug, PartialEq, Eq, Structural)]
pub enum KeyUse {
    /// Key exchange on P-256.
    P256Ecdh,
    /// Signatures on P-256.
    P256Ecdsa,
    /// Signatures on P-384.
    P384Ecdsa,
    /// Signatures on Ed25519.
    Ed25519,
}

/// The coordinates in an encoded public key: the key must be the prefix
/// followed by two coordinates of `coord_len` bytes each.
pub open spec fn coords(pub_key: Seq<u8>, coord_len: nat) -> Option<(Seq<u8>, Seq<u8>)> {
    if pub_key.len() != 1 + 2 * coord_len || pub_key[0] != SEC1_UNCOMPRESSED_PREFIX {
        None
    } else {
        Some(
            (
                pub_key.subrange(1, 1 + coord_len as int),
                pub_key.subrange(1 + coord_len as int, pub_key.len() as int),
            ),
        )
    }
}

/// The encoding of the public key with the coordinates.
pub open spec fn sec1(x: Seq<u8>, y: Seq<u8>) -> Seq<u8> {
    seq![SEC1_UNCOMPRESSED_PREFIX] + x + y
}

/// The coordinates of a key are read back from its encoding.
pub proof fn lemma_coords_of_sec1(x: Seq<u8>, y: Seq<u8>)
    requires
        x.len() == y.len(),
    ensures
        coords(sec1(x, y), x.len()) == Some((x, y)),
{
    let key = sec1(x, y);
    assert(key.subrange(1, 1 + x.len() as int) =~= x);
    assert(key.subrange(1 + x.len() as int, key.len() as int) =~= y);
}

/// An encoding that has coordinates is the encoding of its coordinates.
pub proof fn lemma_sec1_of_coords(pub_key: Seq<u8>, coord_len: nat)
    requires
        coords(pub_key, coord_len) is Some,
    ensures
        sec1(coords(pub_key, coord_len)->Some_0.0, coords(pub_key, coord_len)->Some_0.1) == pub_key,
{
    let c = coords(pub_key, coord_len)->Some_0;
    assert(sec1(c.0, c.1) =~= pub_key);
}

/// The coordinates of a public key on P-256.
pub fn coords_from_p256_pub_key(pub_key: &[u8]) -> (r: Result<(Vec<u8>, Vec<u8>), Error>)
    ensures
        match coords(pub_key@, P256_COORD_LEN as nat) {
            Some(c) => r matches Ok(xy) && xy.0@ == c.0 && xy.1@ == c.1,
            None => r == Err::<(Vec<u8>, Vec<u8>), Error>(Error(ErrorCode::InternalError)),
        },
{
    coords_from_nist_pub_key(pub_key, P256_COORD_LEN)
}

/// The coordinates of a public key on P-384.
pub fn coords_from_p384_pub_key(pub_key: &[u8]) -> (r: Result<(Vec<u8>, Vec<u8>), Error>)
    ensures
        match coords(pub_key@, P384_COORD_LEN as nat) {
            Some(c) => r matches Ok(xy) && xy.0@ == c.0 && xy.1@ == c.1,
            None => r == Err::<(Vec<u8>, Vec<u8>), Error>(Error(ErrorCode::InternalError)),
        },
{
    coords_from_nist_pub_key(pub_key, P384_COORD_LEN)
}

/// The coordinates of a public key whose coordinates have `coord_len`
/// bytes; `InternalError` for a key of another length or without the
/// prefix.
pub fn coords_from_nist_pub_key(pub_key: &[u8], coord_len: usize) -> (r: Result<
    (Vec<u8>, Vec<u8>),
    Error,
>)
    ensures
        match coords(pub_key@, coord_len as nat) {
            Some(c) => r matches Ok(xy) && xy.0@ == c.0 && xy.1@ == c.1,
            None => r == Err::<(Vec<u8>, Vec<u8>), Error>(Error(ErrorCode::InternalError)),
        },
{
    let len = pub_key.len();
    if coord_len > (usize::MAX - 1) / 2 || len != 1 + 2 * coord_len {
        return Err(Error(ErrorCode::InternalError));
    }
    if pub_key[0] != SEC1_UNCOMPRESSED_PREFIX {
        return Err(Error(ErrorCode::InternalError));
    }
    let x = vstd::slice::slice_to_vec(vstd::slice::slice_subrange(pub_key, 1, 1 + coord_len));
    let y = vstd::slice::slice_to_vec(
        vstd::slice::slice_subrange(pub_key, 1 + coord_len, pub_key.len()),
    );
    Ok((x, y))
}

/// One parameter of a key, as far as this library reads it: its label, if
/// the label is a number, and its value, if the value is a string of bytes.
#[derive(Debug)]
pub struct KeyParam {
    pub label: Option<i64>,
    pub bytes: Option<Vec<u8>>,
}

/// Whether the parameter has the label and holds bytes.
pub open spec fn holds_bytes(param: KeyParam, label: i64) -> bool {
    param.label == Some(label) && param.bytes is Some
}

/// The position of the first parameter with the label that holds bytes;
/// the number of parameters if there is none.
pub open spec fn first_with(params: Seq<KeyParam>, label: i64) -> int
    decreases params.len(),
{
    if params.len() == 0 || holds_bytes(params[0], label) {
        0
    } else {
        1 + first_with(params.drop_first(), label)
    }
}

/// A position before which no parameter has the label and holds bytes, and
/// which does or is the end, is the first such position.
pub proof fn lemma_first_with_is(params: Seq<KeyParam>, label: i64, at: int)
    requires
        0 <= at <= params.len(),
        forall|j: int| 0 <= j < at ==> !holds_bytes(#[trigger] params[j], label),
        at < params.len() ==> holds_bytes(params[at], label),
    ensures
        first_with(params, label) == at,
    decreases params.len(),
{
    if params.len() > 0 && !holds_bytes(params[0], label) {
        let rest = params.drop_first();
        assert forall|j: int| 0 <= j < at - 1 implies !holds_bytes(#[trigger] rest[j], label) by {
            assert(rest[j] == params[j + 1]);
        }
        lemma_first_with_is(rest, label, at - 1);
    }
}

/// The bytes of the first parameter with the label that holds bytes.
pub fn find_bytes_param(params: &Vec<KeyParam>, label: i64) -> (r: Option<&Vec<u8>>)
    ensures
        r is Some <==> first_with(params@, label) < params@.len(),
        r matches Some(data) ==> Some(*data) == params@[first_with(params@, label)].bytes,
{
    let mut i: usize = 0;
    while i < params.len()
        invariant
            i <= params@.len(),
            forall|j: int| 0 <= j < i ==> !holds_bytes(#[trigger] params@[j], label),
        decreases params@.len() - i,
    {
        if let Some(l) = params[i].label {
            if l == label {
                if let Some(data) = &params[i].bytes {
                    proof {
                        lemma_first_with_is(params@, label, i as int);
                    }
                    return Some(data);
                }
            }
        }
        i = i + 1;
    }
    proof {
        lemma_first_with_is(params@, label, i as int);
    }
    None
}

/// The two coordinates among the parameters of a key on a NIST curve; the
/// failure `err_code` if one of them is missing.
pub fn nist_coords_from_params(params: &Vec<KeyParam>, err_code: ErrorCode) -> (r: Result<
    (&Vec<u8>, &Vec<u8>),
    Error,
>)
    ensures
        r is Ok <==> first_with(params@, PARAM_X) < params@.len() && first_with(params@, PARAM_Y)
            < params@.len(),
        r matches Ok(xy) ==> Some(*xy.0) == params@[first_with(params@, PARAM_X)].bytes && Some(
            *xy.1,
        ) == params@[first_with(params@, PARAM_Y)].bytes,
        r matches Err(e) ==> e == Error(err_code),
{
    let x = match find_bytes_param(params, PARAM_X) {
        Some(x) => x,
        None => {
            return Err(Error(err_code));
        },
    };
    let y = match find_bytes_param(params, PARAM_Y) {
        Some(y) => y,
        None => {
            return Err(Error(err_code));
        },
    };
    Ok((x, y))
}

/// The coordinate among the parameters of a key on Ed25519;
/// `InvalidCertChain` if it is missing.
pub fn ed25519_coord_from_params(params: &Vec<KeyParam>) -> (r: Result<&Vec<u8>, Error>)
    ensures
        r is Ok <==> first_with(params@, PARAM_X) < params@.len(),
        r matches Ok(x) ==> Some(*x) == params@[first_with(params@, PARAM_X)].bytes,
        r matches Err(e) ==> e == Error(ErrorCode::InvalidCertChain),
{
    match find_bytes_param(params, PARAM_X) {
        Some(x) => Ok(x),
        None => Err(Error(ErrorCode::InvalidCertChain)),
    }
}

/// What a key must say of itself to be used for `key_use`.
pub fn key_requirements(key_use: KeyUse) -> (r: KeyRequirements)
    ensures
        r == match key_use {
            KeyUse::P256Ecdh => KeyRequirements {
                kty: KeyType::EC2,
                algorithm: Algorithm::EcdhEsHkdf256,
                curve: EllipticCurve::P256,
                err_code: ErrorCode::InvalidPeerKeKey,
            },
            KeyUse::P256Ecdsa => KeyRequirements {
                kty: KeyType::EC2,
                algorithm: Algorithm::ES256,
                curve: EllipticCurve::P256,
                err_code: ErrorCode::InvalidCertChain,
            },
            KeyUse::P384Ecdsa => KeyRequirements {
                kty: KeyType::EC2,
                algorithm: Algorithm::ES384,
                curve: EllipticCurve::P384,
                err_code: ErrorCode::InvalidCertChain,
            },
            KeyUse::Ed25519 => KeyRequirements {
                kty: KeyType::OKP,
                algorithm: Algorithm::EdDSA,
                curve: EllipticCurve::Ed25519,
                err_code: ErrorCode::InvalidCertChain,
            },
        },
{
    match key_use {
        KeyUse::P256Ecdh => KeyRequirements {
            kty: KeyType::EC2,
            algorithm: Algorithm::EcdhEsHkdf256,
            curve: EllipticCurve::P256,
            err_code: ErrorCode::InvalidPeerKeKey,
        },
        KeyUse::P256Ecdsa => KeyRequirements {
            kty: KeyType::EC2,
            algorithm: Algorithm::ES256,
            curve: EllipticCurve::P256,
            err_code: ErrorCode::InvalidCertChain,
        },
        KeyUse::P384Ecdsa => KeyRequirements {
            kty: KeyType::EC2,
            algorithm: Algorithm::ES384,
            curve: EllipticCurve::P384,
            err_code: ErrorCode::InvalidCertChain,
        },
        KeyUse::Ed25519 => KeyRequirements {
            kty: KeyType::OKP,
            algorithm: Algorithm::EdDSA,
            curve: EllipticCurve::Ed25519,
            err_code: ErrorCode::InvalidCertChain,
        },
    }
}

/// Key exchange on P-256.
pub struct BoringEcDh;

impl BoringEcDh {
    /// How a key for key exchange is made.
    pub fn key_plan(&self) -> (r: KeyPlan)
        ensures
            r == (KeyPlan::Nist {
                curve: EllipticCurve::P256,
                algorithm: Algorithm::EcdhEsHkdf256,
                coord_len: P256_COORD_LEN,
            }),
    {
        KeyPlan::Nist {
            curve: EllipticCurve::P256,
            algorithm: Algorithm::EcdhEsHkdf256,
            coord_len: P256_COORD_LEN,
        }
    }
}

/// Signatures on P-256, P-384 and Ed25519.
pub struct BoringEcDsa;

impl BoringEcDsa {
    /// How a signing key on `curve` is made; `Unimplemented` for a curve
    /// that is not one of the three.
    pub fn key_plan(&self, curve: EllipticCurve) -> (r: Result<KeyPlan, Error>)
        ensures
            r == match curve {
                EllipticCurve::P256 => Ok::<KeyPlan, Error>(
                    KeyPlan::Nist { curve, algorithm: Algorithm::ES256, coord_len: P256_COORD_LEN },
                ),
                EllipticCurve::P384 => Ok::<KeyPlan, Error>(
                    KeyPlan::Nist { curve, algorithm: Algorithm::ES384, coord_len: P384_COORD_LEN },
                ),
                EllipticCurve::Ed25519 => Ok::<KeyPlan, Error>(KeyPlan::Ed25519),
                _ => Err::<KeyPlan, Error>(Error(ErrorCode::Unimplemented)),
            },
    {
        match curve {
            EllipticCurve::P256 => Ok(
                KeyPlan::Nist { curve, algorithm: Algorithm::ES256, coord_len: P256_COORD_LEN },
            ),
            EllipticCurve::P384 => Ok(
                KeyPlan::Nist { curve, algorithm: Algorithm::ES384, coord_len: P384_COORD_LEN },
            ),
            EllipticCurve::Ed25519 => Ok(KeyPlan::Ed25519),
            _ => Err(Error(ErrorCode::Unimplemented)),
        }
    }

    /// The digest that goes with a key: none for Ed25519, which has its
    /// own, SHA-256 for P-256 and SHA-384 for P-384.
    pub fn digest_for(&self, kind: SignKeyKind) -> (r: Option<Digest>)
        ensures
            r == match kind {
                SignKeyKind::Ed25519 => None::<Digest>,
                SignKeyKind::P256 => Some(Digest::Sha256),
                SignKeyKind::P384 => Some(Digest::Sha384),
            },
    {
        match kind {
            SignKeyKind::Ed25519 => None,
            SignKeyKind::P256 => Some(Digest::Sha256),
            SignKeyKind::P384 => Some(Digest::Sha384),
        }
    }

    /// What a key that verifies signatures of the kind is used for.
    pub fn key_use_for(&self, kind: SignKeyKind) -> (r: KeyUse)
        ensures
            r == match kind {
                SignKeyKind::Ed25519 => KeyUse::Ed25519,
                SignKeyKind::P256 => KeyUse::P256Ecdsa,
                SignKeyKind::P384 => KeyUse::P384Ecdsa,
            },
    {
        match kind {
            SignKeyKind::Ed25519 => KeyUse::Ed25519,
            SignKeyKind::P256 => KeyUse::P256Ecdsa,
            SignKeyKind::P384 => KeyUse::P384Ecdsa,
        }
    }

    /// The result of a verification: a signature that does not verify is
    /// `InvalidSignature`.
    pub fn verdict(&self, verified: bool) -> (r: Result<(), Error>)
        ensures
            r == if verified {
                Ok::<(), Error>(())
            } else {
                Err::<(), Error>(Error(ErrorCode::InvalidSignature))
            },
    {
        if verified {
            Ok(())
        } else {
            Err(Error(ErrorCode::InvalidSignature))
        }
    }
}

} // verus!
