//! Parsing of an upstream's authority public key from its textual
//! encoding: base58 with checksum, a two-byte little-endian version, and
//! a 32-byte x-only key.

use vstd::prelude::*;

verus! {

#[verifier::external_type_specification]
#[verifier::external_body]
pub struct ExXOnlyPublicKey(secp256k1::XOnlyPublicKey);

/// What base58 check-decoding yields on a given text: the decoded bytes
/// when the text is well-formed base58 whose checksum holds, nothing
/// otherwise.
pub uninterp spec fn base58check_of(s: Seq<char>) -> Option<Seq<u8>>;

/// Whether 32 bytes are a valid x-only public key (an x coordinate on
/// the curve).
pub uninterp spec fn is_xonly_key(b: Seq<u8>) -> bool;

/// Relies on `bs58::decode` with `with_check`: decodes base58 text and
/// verifies its checksum; the result depends on the text alone.
#[verifier::external_body]
fn base58check_decode(s: &str) -> (r: Option<Vec<u8>>)
    ensures
        match r {
            Some(v) => base58check_of(s@) == Some(v@),
            None => base58check_of(s@) is None,
        },
{
    bs58::decode(s).with_check(None).into_vec().ok()
}

/// Relies on `secp256k1::XOnlyPublicKey::from_slice`: succeeds exactly on
/// a 32-byte slice holding a valid x coordinate.
#[verifier::external_body]
fn xonly_from_slice(b: &Vec<u8>) -> (r: Option<secp256k1::XOnlyPublicKey>)
    ensures
        r is Some <==> (b@.len() == 32 && is_xonly_key(b@)),
{
    secp256k1::XOnlyPublicKey::from_slice(b.as_slice()).ok()
}

/// Why a key text was rejected.
#[derive(Clone, Copy, Debug, PartialEq, Eq, Structural)]
pub enum KeyError {
    /// Not well-formed base58, or its checksum fails.
    BadEncoding,
    /// Decoded to fewer bytes than a version and a key take.
    TooShort,
    /// The two-byte version is not the supported one.
    BadVersion,
    /// The key bytes are not a valid x-only public key.
    BadKey,
}

/// The little-endian value of the two version bytes.
pub open spec fn key_version_of(d: Seq<u8>) -> nat {
    (d[0] as nat) + 256 * (d[1] as nat)
}

/// The key bytes: everything after the version.
pub open spec fn key_bytes_of(d: Seq<u8>) -> Seq<u8> {
    d.subrange(2, d.len() as int)
}

/// An upstream authority public key.
#[derive(Debug)]
pub struct Secp256k1PublicKey(pub secp256k1::XOnlyPublicKey);

impl Secp256k1PublicKey {
    /// Parses a key from its textual encoding. The text must check-decode
    /// under base58, carry at least 34 bytes, open with version 1, and
    /// close with exactly a valid 32-byte x-only key.
    pub fn from_str(s: &str) -> (r: Result<Secp256k1PublicKey, KeyError>)
        ensures
            match r {
                Ok(_) => match base58check_of(s@) {
                    Some(d) => d.len() == 34 && key_version_of(d) == 1 && is_xonly_key(
                        key_bytes_of(d),
                    ),
                    None => false,
                },
                Err(KeyError::BadEncoding) => base58check_of(s@) is None,
                Err(KeyError::TooShort) => match base58check_of(s@) {
                    Some(d) => d.len() < 34,
                    None => false,
                },
                Err(KeyError::BadVersion) => match base58check_of(s@) {
                    Some(d) => d.len() >= 34 && key_version_of(d) != 1,
                    None => false,
                },
                Err(KeyError::BadKey) => match base58check_of(s@) {
                    Some(d) => d.len() >= 34 && key_version_of(d) == 1 && !(d.len() == 34
                        && is_xonly_key(key_bytes_of(d))),
                    None => false,
                },
            },
    {
        let decoded = match base58check_decode(s) {
            Some(d) => d,
            None => {
                return Err(KeyError::BadEncoding);
            },
        };
        if decoded.len() < 34 {
            return Err(KeyError::TooShort);
        }
        let version: u32 = decoded[0] as u32 + 256 * (decoded[1] as u32);
        if version != 1 {
            return Err(KeyError::BadVersion);
        }
        let n = decoded.len();
        let mut key_bytes: Vec<u8> = Vec::new();
        let mut i: usize = 2;
        while i < n
            invariant
                2 <= i <= n == decoded@.len(),
                key_bytes@ =~= decoded@.subrange(2, i as int),
            decreases n - i,
        {
            key_bytes.push(decoded[i]);
            proof {
                assert(decoded@.subrange(2, i + 1) =~= decoded@.subrange(2, i as int).push(
                    decoded@[i as int],
                ));
            }
            i = i + 1;
        }
        proof {
            assert(key_bytes@ =~= key_bytes_of(decoded@));
        }
        match xonly_from_slice(&key_bytes) {
            Some(key) => Ok(Secp256k1PublicKey(key)),
            None => Err(KeyError::BadKey),
        }
    }
}

} // verus!
