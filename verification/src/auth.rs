//! Wallet authentication for realtime sessions.
//!
//! On connect the server hands out a nonce. The client signs
//! `ekza-space:auth:<nonce>` with its wallet and sends back its public key and
//! the signature, both in base58. The nonce belongs to one connection and is
//! replaced on the first success, so a captured signature is of no use on
//! another connection or a second time.

use crate::pubkey::{self, Pubkey};
use vstd::prelude::*;
use vstd::string::*;
use vstd::utf8::*;

verus! {

pub const AUTH_MESSAGE_PREFIX: &'static str = "ekza-space:auth:";

/// How many random bytes go into a nonce.
pub const NONCE_BYTES: usize = 24;

#[derive(Clone, Copy, Debug, PartialEq, Eq, Structural)]
pub enum AuthError {
    BadPubkey,
    BadSignature,
    Mismatch,
}

// ----------------------------------------------------------- outside calls

/// The base58 text that `bs58::encode` makes of some bytes.
pub uninterp spec fn base58_text(bytes: Seq<u8>) -> Seq<char>;

/// The bytes that `bs58::decode` reads from a base58 text, if it is one.
pub uninterp spec fn base58_bytes(s: Seq<char>) -> Option<Seq<u8>>;

/// Whether `ed25519_dalek::VerifyingKey::from_bytes` takes the bytes for a key.
pub uninterp spec fn ed25519_key(bytes: Seq<u8>) -> bool;

/// Whether `ed25519_dalek`'s `verify` finds the signature over the message valid
/// for the key.
pub uninterp spec fn ed25519_signed(key: Seq<u8>, message: Seq<u8>, signature: Seq<u8>) -> bool;

/// `rand`'s `RngCore::fill_bytes` on the thread's generator. Nothing can be
/// said of the bytes beyond their number.
#[verifier::external_body]
fn random_bytes() -> (r: [u8; 24]) {
    let mut bytes = [0u8; 24];
    rand::RngCore::fill_bytes(&mut rand::thread_rng(), &mut bytes);
    bytes
}

/// `bs58::encode(..).into_string()`. The text is known by the name
/// [`base58_text`], and `bs58::decode` gives the same bytes back.
#[verifier::external_body]
fn bs58_encode(bytes: &[u8]) -> (r: String)
    ensures
        r@ == base58_text(bytes@),
        base58_bytes(r@) == Some(bytes@),
{
    bs58::encode(bytes).into_string()
}

/// `bs58::decode(..).into_vec()`, known by the name [`base58_bytes`].
#[verifier::external_body]
fn bs58_decode(s: &str) -> (r: Option<Vec<u8>>)
    ensures
        match r {
            Some(bytes) => base58_bytes(s@) == Some(bytes@),
            None => base58_bytes(s@) is None,
        },
{
    bs58::decode(s).into_vec().ok()
}

/// `ed25519_dalek::VerifyingKey::from_bytes`: whether it succeeds, known by the
/// name [`ed25519_key`].
#[verifier::external_body]
fn dalek_key(bytes: &[u8; 32]) -> (r: bool)
    ensures
        r == ed25519_key(bytes@),
{
    ed25519_dalek::VerifyingKey::from_bytes(bytes).is_ok()
}

/// `ed25519_dalek`'s `Verifier::verify` on the key and signature made of the
/// given bytes: whether it succeeds, known by the name [`ed25519_signed`].
#[verifier::external_body]
fn dalek_verify(key: &[u8; 32], message: &[u8], signature: &[u8; 64]) -> (r: bool)
    requires
        ed25519_key(key@),
    ensures
        r == ed25519_signed(key@, message@, signature@),
{
    let signature = ed25519_dalek::Signature::from_bytes(signature);
    match ed25519_dalek::VerifyingKey::from_bytes(key) {
        Ok(key) => ed25519_dalek::Verifier::verify(&key, message, &signature).is_ok(),
        Err(_) => false,
    }
}

// -------------------------------------------------------------------- nonce

/// The nonce made of the given random bytes.
pub fn nonce_from(bytes: &[u8; 24]) -> (r: String)
    ensures
        r@ == base58_text(bytes@),
        base58_bytes(r@) == Some(bytes@),
{
    bs58_encode(bytes.as_slice())
}

/// A fresh nonce: random bytes in base58.
pub fn new_nonce() -> (r: String)
    ensures
        exists|bytes: Seq<u8>| bytes.len() == NONCE_BYTES && r@ == #[trigger] base58_text(bytes),
        base58_bytes(r@) matches Some(bytes) && bytes.len() == NONCE_BYTES,
{
    let bytes = random_bytes();
    nonce_from(&bytes)
}

/// The text that a wallet signs for a nonce.
pub open spec fn message_for(nonce: Seq<char>) -> Seq<char> {
    AUTH_MESSAGE_PREFIX@ + nonce
}

/// The text that a wallet signs for a nonce.
pub fn auth_message(nonce: &str) -> (r: String)
    ensures
        r@ == message_for(nonce@),
{
    let mut out: String = AUTH_MESSAGE_PREFIX.to_owned();
    out.append(nonce);
    out
}

/// Different nonces call for signatures over different messages.
pub proof fn messages_differ(a: Seq<char>, b: Seq<char>)
    requires
        a != b,
    ensures
        message_for(a) != message_for(b),
        encode_utf8(message_for(a)) != encode_utf8(message_for(b)),
{
    let n = AUTH_MESSAGE_PREFIX@.len() as int;
    if message_for(a) == message_for(b) {
        assert(a =~= message_for(a).subrange(n, n + a.len()));
        assert(b =~= message_for(b).subrange(n, n + b.len()));
        assert(a.len() == message_for(a).len() - n);
    }
    encode_utf8_decode_utf8(message_for(a));
    encode_utf8_decode_utf8(message_for(b));
}

// ------------------------------------------------------------- verification

/// What is made of a claim: the key read from its text, whether it is a key of
/// the curve, the bytes of the signature, and whether the signature fits.
pub open spec fn judged(
    key: Option<Seq<u8>>,
    on_curve: bool,
    signature: Option<Seq<u8>>,
    fits: bool,
) -> Result<Seq<u8>, AuthError> {
    match key {
        None => Err(AuthError::BadPubkey),
        Some(bytes) => if !on_curve {
            Err(AuthError::BadPubkey)
        } else {
            match signature {
                None => Err(AuthError::BadSignature),
                Some(s) => if s.len() != 64 {
                    Err(AuthError::BadSignature)
                } else if fits {
                    Ok(bytes)
                } else {
                    Err(AuthError::Mismatch)
                },
            }
        },
    }
}

/// The outcome of [`verify`] for the texts of a key, a signature and a nonce.
pub open spec fn verification(
    pubkey_b58: Seq<char>,
    signature_b58: Seq<char>,
    nonce: Seq<char>,
) -> Result<Seq<u8>, AuthError> {
    let key = pubkey::pubkey_from_text(pubkey_b58);
    let signature = base58_bytes(signature_b58);
    judged(
        key,
        ed25519_key(key->0),
        signature,
        ed25519_signed(key->0, encode_utf8(message_for(nonce)), signature->0),
    )
}

/// A claim is accepted only for the key that it names, and only with a signature
/// of that key over the message made of this very nonce.
pub proof fn accepted_claims_sign_the_nonce(
    pubkey_b58: Seq<char>,
    signature_b58: Seq<char>,
    nonce: Seq<char>,
)
    ensures
        verification(pubkey_b58, signature_b58, nonce) matches Ok(key) ==> {
            &&& pubkey::pubkey_from_text(pubkey_b58) == Some(key)
            &&& ed25519_key(key)
            &&& base58_bytes(signature_b58) matches Some(signature)
            &&& signature.len() == 64
            &&& ed25519_signed(key, encode_utf8(message_for(nonce)), signature)
        },
{
}

/// The bytes of the key in an outcome.
pub open spec fn outcome(r: Result<Pubkey, AuthError>) -> Result<Seq<u8>, AuthError> {
    match r {
        Ok(key) => Ok(key.bytes@),
        Err(e) => Err(e),
    }
}

/// Judges a claim from what was found out about its parts.
pub fn judge(
    key: Option<Pubkey>,
    on_curve: bool,
    signature: Option<Vec<u8>>,
    fits: bool,
) -> (r: Result<Pubkey, AuthError>)
    ensures
        outcome(r) == judged(
            match key {
                Some(k) => Some(k.bytes@),
                None => None,
            },
            on_curve,
            match signature {
                Some(s) => Some(s@),
                None => None,
            },
            fits,
        ),
{
    match key {
        None => Err(AuthError::BadPubkey),
        Some(key) => if !on_curve {
            Err(AuthError::BadPubkey)
        } else {
            match signature {
                None => Err(AuthError::BadSignature),
                Some(signature) => if signature.len() != 64 {
                    Err(AuthError::BadSignature)
                } else if fits {
                    Ok(key)
                } else {
                    Err(AuthError::Mismatch)
                },
            }
        },
    }
}

/// The 64 bytes of a signature of that length.
fn signature_array(bytes: &Vec<u8>) -> (r: [u8; 64])
    requires
        bytes.len() == 64,
    ensures
        r@ == bytes@,
{
    let mut out: [u8; 64] = [0; 64];
    let mut i: usize = 0;
    while i < 64
        invariant
            i <= 64,
            bytes.len() == 64,
            forall|k: int| 0 <= k < i ==> out@[k] == bytes@[k],
        decreases 64 - i,
    {
        out[i] = bytes[i];
        i = i + 1;
    }
    proof {
        assert(out@ =~= bytes@);
    }
    out
}

/// Checks that `signature_b58` is a valid ed25519 signature over
/// `auth_message(nonce)` by `pubkey_b58`, and gives the key.
pub fn verify(pubkey_b58: &str, signature_b58: &str, nonce: &str) -> (r: Result<Pubkey, AuthError>)
    ensures
        outcome(r) == verification(pubkey_b58@, signature_b58@, nonce@),
{
    let key = Pubkey::parse(pubkey_b58);
    let on_curve: bool = match &key {
        Some(key) => dalek_key(&key.bytes),
        None => false,
    };
    let signature = bs58_decode(signature_b58);
    let fits: bool = match (&key, &signature) {
        (Some(key), Some(signature)) => if on_curve && signature.len() == 64 {
            let message = auth_message(nonce);
            let signature = signature_array(signature);
            dalek_verify(&key.bytes, message.as_str().as_bytes(), &signature)
        } else {
            false
        },
        _ => false,
    };
    judge(key, on_curve, signature, fits)
}

} // verus!
