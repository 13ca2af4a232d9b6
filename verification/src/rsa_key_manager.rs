//! The key pair by which the runner proves who it is.
use vstd::prelude::*;

use rsa::pkcs8::{EncodePrivateKey, EncodePublicKey};

verus! {

/// The size of a key, in bits.
pub const RSA_KEY_SIZE: usize = 2048;

/// The permissions of the file that holds the private key: its owner can read and write it.
pub const KEY_FILE_MODE: u32 = 0o600;

/// A key pair, each key in PEM form.
#[derive(Debug)]
pub struct KeyPair {
    pub private_pem: String,
    pub public_pem: String,
}

/// The public key, in PEM form, of the private key that `private_pem` holds in PEM form, as
/// `to_public_key_pem` writes it.
pub uninterp spec fn public_pem_of(private_pem: Seq<char>) -> Seq<char>;

/// `rsa::RsaPrivateKey::new`, with the new key as `to_pkcs8_pem` writes it and its public key
/// as `to_public_key_pem` does, or the text of the error. The key is drawn at random; of every
/// key, the public one belongs to the private one. Whether a key comes of it is left unsaid.
/// Other sizes are left out: for small ones no key may be found.
#[verifier::external_body]
pub(crate) fn new_key_pair(bits: usize) -> (r: Result<KeyPair, String>)
    requires
        bits == RSA_KEY_SIZE,
    ensures
        match r {
            Ok(pair) => pair.public_pem@ == public_pem_of(pair.private_pem@),
            Err(_) => true,
        },
{
    let key = rsa::RsaPrivateKey::new(&mut rand::thread_rng(), bits).map_err(|e| e.to_string())?;
    let private = key.to_pkcs8_pem(rsa::pkcs8::LineEnding::LF).map_err(|e| e.to_string())?;
    let public = key.to_public_key();
    let public = public.to_public_key_pem(rsa::pkcs8::LineEnding::LF).map_err(|e| e.to_string())?;
    Ok(KeyPair { private_pem: private.to_string(), public_pem: public })
}

/// How a new key is kept.
#[derive(Debug)]
pub struct KeyFile {
    /// Whether there is a file to be deleted first.
    pub replaces: bool,
    pub content: String,
    /// The permissions of the file, where the system has such.
    pub mode: u32,
}

/// Makes key pairs.
pub struct RsaKeyManager;

impl RsaKeyManager {
    /// How the private key of a pair is kept, and the public key that is sent to the server.
    pub fn keep(pair: KeyPair, has_key: bool) -> (r: (KeyFile, String))
        ensures
            r.0.replaces == has_key,
            r.0.content@ == pair.private_pem@,
            r.0.mode == 0o600,
            r.1@ == pair.public_pem@,
    {
        (
            KeyFile { replaces: has_key, content: pair.private_pem, mode: KEY_FILE_MODE },
            pair.public_pem,
        )
    }

    /// The same for what came of making a pair: where there is none, the reason is handed on.
    pub fn keep_made(made: Result<KeyPair, String>, has_key: bool) -> (r: Result<
        (KeyFile, String),
        String,
    >)
        ensures
            match (made, r) {
                (Ok(pair), Ok((file, public_pem))) => {
                    &&& file.replaces == has_key
                    &&& file.content@ == pair.private_pem@
                    &&& file.mode == 0o600
                    &&& public_pem@ == pair.public_pem@
                },
                (Err(reason), Err(e)) => e@ == reason@,
                _ => false,
            },
    {
        match made {
            Ok(pair) => Ok(RsaKeyManager::keep(pair, has_key)),
            Err(e) => Err(e),
        }
    }

    /// A new key: how its private part is kept, and its public part, or why there is none.
    pub fn generate_key(has_key: bool) -> (r: Result<(KeyFile, String), String>)
        ensures
            match r {
                Ok((file, public_pem)) => {
                    &&& file.replaces == has_key
                    &&& file.mode == 0o600
                    &&& public_pem@ == public_pem_of(file.content@)
                },
                Err(_) => true,
            },
    {
        RsaKeyManager::keep_made(new_key_pair(RSA_KEY_SIZE), has_key)
    }
}

} // verus!
