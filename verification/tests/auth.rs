use ed25519_dalek::{Signer, SigningKey};
use rand::RngCore;
use server::auth::{auth_message, judge, new_nonce, nonce_from, verify, AuthError};
use server::pubkey::Pubkey;

fn keypair() -> (SigningKey, String) {
    let mut seed = [0u8; 32];
    rand::thread_rng().fill_bytes(&mut seed);
    let sk = SigningKey::from_bytes(&seed);
    let pk = bs58::encode(sk.verifying_key().to_bytes()).into_string();
    (sk, pk)
}

#[test]
fn accepts_valid_signature() {
    let (sk, pk) = keypair();
    let nonce = new_nonce();
    let sig = sk.sign(auth_message(&nonce).as_bytes());
    let sig_b58 = bs58::encode(sig.to_bytes()).into_string();
    let got = verify(&pk, &sig_b58, &nonce).unwrap();
    assert_eq!(got.to_text(), pk);
}

#[test]
fn rejects_wrong_nonce_and_wrong_key() {
    let (sk, pk) = keypair();
    let (_, other_pk) = keypair();
    let nonce = new_nonce();
    let sig = sk.sign(auth_message(&nonce).as_bytes());
    let sig_b58 = bs58::encode(sig.to_bytes()).into_string();
    assert_eq!(
        verify(&pk, &sig_b58, "other-nonce"),
        Err(AuthError::Mismatch)
    );
    assert_eq!(
        verify(&other_pk, &sig_b58, &nonce),
        Err(AuthError::Mismatch)
    );
    assert_eq!(
        verify("not-a-key", &sig_b58, &nonce),
        Err(AuthError::BadPubkey)
    );
    assert_eq!(verify(&pk, "zz", &nonce), Err(AuthError::BadSignature));
}

#[test]
fn rejects_bytes_that_are_no_key() {
    // 32 bytes that no point of the curve compresses to.
    let off_curve = bs58::encode([2u8; 32]).into_string();
    assert_eq!(verify(&off_curve, "zz", "n"), Err(AuthError::BadPubkey));
    // A point of the curve: only the signature is at fault.
    let on_curve = bs58::encode([3u8; 32]).into_string();
    assert_eq!(verify(&on_curve, "zz", "n"), Err(AuthError::BadSignature));
}

#[test]
fn rejects_signatures_that_are_not_base58() {
    let (_, pk) = keypair();
    assert_eq!(verify(&pk, "0OIl", "n"), Err(AuthError::BadSignature));
}

#[test]
fn nonces_are_24_random_bytes() {
    let a = new_nonce();
    let b = new_nonce();
    assert_ne!(a, b);
    assert_eq!(bs58::decode(&a).into_vec().unwrap().len(), 24);
}

#[test]
fn nonce_is_the_base58_text_of_its_bytes() {
    assert_eq!(nonce_from(&[0u8; 24]), "1".repeat(24));
    assert_eq!(
        nonce_from(&[255u8; 24]),
        bs58::encode([255u8; 24]).into_string()
    );
}

#[test]
fn messages_carry_the_prefix() {
    assert_eq!(auth_message("abc"), "ekza-space:auth:abc");
    assert_ne!(auth_message("a"), auth_message("b"));
}

#[test]
fn judging_takes_every_part_into_account() {
    let key = Pubkey { bytes: [1; 32] };
    let sig = vec![0u8; 64];
    assert_eq!(
        judge(None, true, Some(sig.clone()), true),
        Err(AuthError::BadPubkey)
    );
    assert_eq!(
        judge(Some(key), false, Some(sig.clone()), true),
        Err(AuthError::BadPubkey)
    );
    assert_eq!(judge(Some(key), true, None, true), Err(AuthError::BadSignature));
    assert_eq!(
        judge(Some(key), true, Some(vec![0; 63]), true),
        Err(AuthError::BadSignature)
    );
    assert_eq!(
        judge(Some(key), true, Some(sig.clone()), false),
        Err(AuthError::Mismatch)
    );
    assert_eq!(judge(Some(key), true, Some(sig), true), Ok(key));
}

#[test]
fn keys_read_back_from_their_text() {
    let key = Pubkey { bytes: [7; 32] };
    let text = key.to_text();
    assert_eq!(text, bs58::encode([7u8; 32]).into_string());
    assert_eq!(Pubkey::parse(&text), Some(key));
    assert_eq!(Pubkey::parse("nope"), None);
    assert_eq!(Pubkey::parse(""), None);
}
