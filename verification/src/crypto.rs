//! Base64, SHA-256 and ECDSA keys on the curve P-256.
use base64::engine::general_purpose::STANDARD;
use base64::Engine;
use ring::rand::SystemRandom;
use ring::signature::EcdsaKeyPair;
use ring::signature::KeyPair;
use ring::signature::ECDSA_P256_SHA256_FIXED_SIGNING;
use vstd::prelude::*;

use crate::outside::document_was_refused;
use crate::outside::key_making_failed;
use crate::outside::key_was_made;
use crate::outside::raw_keys_were_refused;
use crate::outside::signing_failed;

verus! {

/// The text that the standard base64 engine writes for octets.
pub uninterp spec fn base64_encoding(octets: Seq<u8>) -> Seq<char>;

/// The octets that the standard base64 engine reads from a text, or its message about a text that
/// is not base64.
pub uninterp spec fn base64_decoding(text: Seq<char>) -> Result<Seq<u8>, Seq<char>>;

/// The result of decoding that gives these octets.
pub open spec fn decoded(octets: Seq<u8>) -> Result<Seq<u8>, Seq<char>> {
    Ok(octets)
}

/// A character of the standard base64 alphabet, or its padding.
pub open spec fn base64_char(c: char) -> bool {
    ||| 'A' <= c <= 'Z'
    ||| 'a' <= c <= 'z'
    ||| '0' <= c <= '9'
    ||| c == '+'
    ||| c == '/'
    ||| c == '='
}

/// Calls `base64::Engine::encode` of the standard engine. The text depends on the octets alone,
/// holds only the characters of the alphabet and the padding, and decodes to the octets again.
#[verifier::external_body]
pub(crate) fn encode_base64(octets: &[u8]) -> (r: String)
    ensures
        r@ == base64_encoding(octets@),
        forall|i: int| 0 <= i < r@.len() ==> base64_char(#[trigger] r@[i]),
        base64_decoding(r@) == decoded(octets@),
{
    STANDARD.encode(octets)
}

/// The octets that were decoded, or the message about what is wrong.
pub open spec fn decoded_view(decoded: Result<Vec<u8>, String>) -> Result<Seq<u8>, Seq<char>> {
    match decoded {
        Ok(octets) => Ok(octets@),
        Err(message) => Err(message@),
    }
}

/// Calls `base64::Engine::decode` of the standard engine, and gives its error as text. What comes
/// out depends on the text alone.
#[verifier::external_body]
pub(crate) fn decode_base64(text: &str) -> (r: Result<Vec<u8>, String>)
    ensures
        decoded_view(r) == base64_decoding(text@),
{
    STANDARD.decode(text).map_err(|e| e.to_string())
}

/// The SHA-256 digest of octets.
pub uninterp spec fn sha256(octets: Seq<u8>) -> Seq<u8>;

/// Calls `ring::digest::digest` with SHA-256, whose digest has 32 octets.
#[verifier::external_body]
pub(crate) fn digest_sha256(octets: &[u8]) -> (r: Vec<u8>)
    ensures
        r@ == sha256(octets@),
        r@.len() == 32,
{
    ring::digest::digest(&ring::digest::SHA256, octets).as_ref().to_vec()
}

/// `ring::signature::EcdsaKeyPair`, a private key with its public key.
#[verifier::external_type_specification]
#[verifier::external_body]
pub struct ExEcdsaKeyPair(ring::signature::EcdsaKeyPair);

/// Whether a key pair is for ECDSA on P-256 with SHA-256 and signatures of a fixed form, as made
/// for `ring::signature::ECDSA_P256_SHA256_FIXED_SIGNING`. The type has pairs for other algorithms
/// too.
pub uninterp spec fn is_p256_fixed(key: EcdsaKeyPair) -> bool;

/// The public key of a key pair, as an uncompressed point.
pub uninterp spec fn key_pair_public_key(key: EcdsaKeyPair) -> Seq<u8>;

/// The public key that belongs to the private key in a PKCS#8 document, if
/// `ring::signature::EcdsaKeyPair::from_pkcs8` takes the document.
pub uninterp spec fn pkcs8_public_key(document: Seq<u8>) -> Option<Seq<u8>>;

/// Whether `ring::signature::EcdsaKeyPair::from_private_key_and_public_key` takes a private key
/// and the public key that belongs to it.
pub uninterp spec fn raw_keys_match(private: Seq<u8>, public: Seq<u8>) -> bool;

/// Whether `ring::signature::UnparsedPublicKey::verify` accepts the signature of a message under
/// a public key.
pub uninterp spec fn ecdsa_verifies(public: Seq<u8>, message: Seq<u8>, signature: Seq<u8>) -> bool;

/// `public` has the form of an uncompressed point: the octet 4 and two coordinates.
pub open spec fn uncompressed_point(public: Seq<u8>) -> bool {
    public.len() == 65 && public[0] == 4
}

/// Calls `ring::signature::EcdsaKeyPair::generate_pkcs8`, which makes a new key at random. The
/// document has 138 octets and holds a key that can be read again. The call fails where the
/// system gives no random octets. The document is one that was made, and without one the making
/// failed.
#[verifier::external_body]
pub(crate) fn generate_pkcs8() -> (r: Option<Vec<u8>>)
    ensures
        r matches Some(document) ==> document@.len() == 138 && pkcs8_public_key(document@) is Some,
        r matches Some(document) ==> key_was_made(document@),
        r is None ==> key_making_failed(),
{
    let alg = &ECDSA_P256_SHA256_FIXED_SIGNING;
    let document = EcdsaKeyPair::generate_pkcs8(alg, &SystemRandom::new()).ok()?;
    Some(document.as_ref().to_vec())
}

/// Calls `ring::signature::EcdsaKeyPair::from_pkcs8` for P-256 with signatures of a fixed form. The
/// public key of what is read depends on the document alone. The call fails where it refuses the
/// document or the system gives no random octets; which of the two happened is not said, but that
/// the document was refused.
#[verifier::external_body]
fn key_from_pkcs8(document: &[u8]) -> (r: Option<EcdsaKeyPair>)
    ensures
        r matches Some(key) ==> is_p256_fixed(key) && pkcs8_public_key(document@) == Some(
            key_pair_public_key(key),
        ),
        r is None ==> document_was_refused(document@),
{
    EcdsaKeyPair::from_pkcs8(&ECDSA_P256_SHA256_FIXED_SIGNING, document, &SystemRandom::new()).ok()
}

/// Calls `ring::signature::EcdsaKeyPair::from_private_key_and_public_key` for P-256 with signatures
/// of a fixed form, which keeps the public key. The call fails where the two do not belong together
/// or the system gives no random octets; which of the two happened is not said, but that the keys
/// were refused.
#[verifier::external_body]
fn key_from_parts(private: &[u8], public: &[u8]) -> (r: Option<EcdsaKeyPair>)
    ensures
        r matches Some(key) ==> is_p256_fixed(key) && raw_keys_match(private@, public@)
            && key_pair_public_key(key) == public@,
        r is None ==> raw_keys_were_refused(private@, public@),
{
    let alg = &ECDSA_P256_SHA256_FIXED_SIGNING;
    EcdsaKeyPair::from_private_key_and_public_key(alg, private, public, &SystemRandom::new()).ok()
}

/// Calls `ring::signature::KeyPair::public_key`, which gives an uncompressed point for a pair on
/// P-256.
#[verifier::external_body]
fn public_key_of(key: &EcdsaKeyPair) -> (r: Vec<u8>)
    requires
        is_p256_fixed(*key),
    ensures
        r@ == key_pair_public_key(*key),
        uncompressed_point(r@),
{
    key.public_key().as_ref().to_vec()
}

/// Calls `ring::signature::EcdsaKeyPair::sign`. The signature of a pair on P-256 with the fixed
/// form has 64 octets and verifies under the public key of the pair. It is made with random octets,
/// and the call fails where the system gives none. Without a signature, signing failed.
#[verifier::external_body]
fn ecdsa_sign(key: &EcdsaKeyPair, message: &[u8]) -> (r: Option<Vec<u8>>)
    requires
        is_p256_fixed(*key),
    ensures
        r matches Some(signature) ==> signature@.len() == 64 && ecdsa_verifies(
            key_pair_public_key(*key),
            message@,
            signature@,
        ),
        r is None ==> signing_failed(key_pair_public_key(*key), message@),
{
    let signature = key.sign(&SystemRandom::new(), message).ok()?;
    Some(signature.as_ref().to_vec())
}

/// A key that signs: a private key on P-256 with its public key.
pub struct SigningKey {
    pair: EcdsaKeyPair,
}

impl SigningKey {
    #[verifier::type_invariant]
    spec fn is_for_signing(self) -> bool {
        is_p256_fixed(self.pair)
    }

    /// The key under which the signatures verify, as an uncompressed point.
    pub closed spec fn verifying_key(&self) -> Seq<u8> {
        key_pair_public_key(self.pair)
    }

    /// Reads the key in a PKCS#8 document.
    pub fn from_pkcs8(document: &[u8]) -> (r: Option<SigningKey>)
        ensures
            r matches Some(key) ==> pkcs8_public_key(document@) == Some(key.verifying_key()),
            r is None ==> document_was_refused(document@),
    {
        match key_from_pkcs8(document) {
            Some(pair) => Some(SigningKey { pair }),
            None => None,
        }
    }

    /// The key that a private key and the public key that belongs to it make.
    pub fn from_parts(private: &[u8], public: &[u8]) -> (r: Option<SigningKey>)
        ensures
            r matches Some(key) ==> raw_keys_match(private@, public@) && key.verifying_key()
                == public@,
            r is None ==> raw_keys_were_refused(private@, public@),
    {
        match key_from_parts(private, public) {
            Some(pair) => Some(SigningKey { pair }),
            None => None,
        }
    }

    /// The key under which the signatures verify, as an uncompressed point.
    pub fn public_key(&self) -> (r: Vec<u8>)
        ensures
            r@ == self.verifying_key(),
            uncompressed_point(r@),
    {
        proof {
            use_type_invariant(self);
        }
        public_key_of(&self.pair)
    }

    /// Signs a message, unless the system gives no random octets.
    pub fn sign(&self, message: &[u8]) -> (r: Option<Vec<u8>>)
        ensures
            r matches Some(signature) ==> signature@.len() == 64 && ecdsa_verifies(
                self.verifying_key(),
                message@,
                signature@,
            ),
            r is None ==> signing_failed(self.verifying_key(), message@),
    {
        proof {
            use_type_invariant(self);
        }
        ecdsa_sign(&self.pair, message)
    }
}

} // verus!
