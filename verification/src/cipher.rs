//! Ciphers that make a secret unreadable to those without the key.
use vstd::prelude::*;

verus! {

/// A way to turn a secret and a shared key into a ciphered message.
pub trait Cipher {
    /// The ciphered message that this cipher makes of `secret` under `key`.
    spec fn ciphertext(&self, secret: Seq<char>, key: Seq<char>) -> Seq<char>;

    /// Ciphers `secret` under `key`.
    fn transform(&self, secret: &str, key: &str) -> (ciphered: String)
        ensures
            ciphered@ == self.ciphertext(secret@, key@),
    ;
}

} // verus!
