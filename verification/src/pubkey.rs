//! Wallet and account addresses.

use vstd::prelude::*;
use vstd::string::*;

verus! {

/// A 32-byte public key. As text it is written in base58.
#[derive(Clone, Copy, Debug, Eq)]
pub struct Pubkey {
    pub bytes: [u8; 32],
}

impl PartialEq for Pubkey {
    fn eq(&self, other: &Pubkey) -> (r: bool) {
        let mut i: usize = 0;
        while i < 32
            invariant
                i <= 32,
                forall|k: int| 0 <= k < i ==> self.bytes@[k] == other.bytes@[k],
            decreases 32 - i,
        {
            if self.bytes[i] != other.bytes[i] {
                return false;
            }
            i = i + 1;
        }
        proof {
            assert(self.bytes@ =~= other.bytes@);
            assert(self.bytes =~= other.bytes);
        }
        true
    }
}

impl vstd::std_specs::cmp::PartialEqSpecImpl for Pubkey {
    open spec fn obeys_eq_spec() -> bool {
        true
    }

    open spec fn eq_spec(&self, other: &Pubkey) -> bool {
        *self == *other
    }
}

/// The key that `solana_pubkey::Pubkey::from_str` reads from a text, if any.
pub uninterp spec fn pubkey_from_text(s: Seq<char>) -> Option<Seq<u8>>;

/// How `solana_pubkey::Pubkey` displays a key: its bytes in base58.
pub uninterp spec fn pubkey_text(bytes: Seq<u8>) -> Seq<char>;

/// `solana_pubkey::Pubkey::from_str`: whether the text is read, and as which 32
/// bytes, is known by the name [`pubkey_from_text`].
#[verifier::external_body]
fn solana_from_str(s: &str) -> (r: Option<[u8; 32]>)
    ensures
        match r {
            Some(bytes) => pubkey_from_text(s@) == Some(bytes@),
            None => pubkey_from_text(s@) is None,
        },
{
    s.parse::<solana_pubkey::Pubkey>().ok().map(|key| key.to_bytes())
}

/// `solana_pubkey::Pubkey`'s `Display`: the text is known by the name
/// [`pubkey_text`], and `from_str` reads the same key back from it.
#[verifier::external_body]
fn solana_to_string(bytes: &[u8; 32]) -> (r: String)
    ensures
        r@ == pubkey_text(bytes@),
        pubkey_from_text(r@) == Some(bytes@),
{
    solana_pubkey::Pubkey::new_from_array(*bytes).to_string()
}

/// The place of `key` in a list of keys: whether it is there at all.
pub fn contains_key(keys: &Vec<Pubkey>, key: &Pubkey) -> (r: bool)
    ensures
        r == keys@.contains(*key),
{
    let mut i: usize = 0;
    while i < keys.len()
        invariant
            i <= keys.len(),
            forall|k: int| 0 <= k < i ==> keys@[k] != *key,
        decreases keys.len() - i,
    {
        if keys[i] == *key {
            return true;
        }
        i = i + 1;
    }
    false
}

impl Pubkey {
    /// Reads a key from its text.
    pub fn parse(s: &str) -> (r: Option<Pubkey>)
        ensures
            match r {
                Some(key) => pubkey_from_text(s@) == Some(key.bytes@),
                None => pubkey_from_text(s@) is None,
            },
    {
        match solana_from_str(s) {
            Some(bytes) => Some(Pubkey { bytes }),
            None => None,
        }
    }

    /// The key as text; [`Pubkey::parse`] reads it back.
    pub fn to_text(&self) -> (r: String)
        ensures
            r@ == pubkey_text(self.bytes@),
            pubkey_from_text(r@) == Some(self.bytes@),
    {
        solana_to_string(&self.bytes)
    }
}

} // verus!
