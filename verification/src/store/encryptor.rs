//! The symmetric codec guarding what leaves the process for a remote
//! key-value backend: AES-256 in CBC mode, ciphertext rendered as standard
//! base64. The scheme is deterministic for a given key, and decryption
//! inverts encryption — the codec round-trip the store relies on.

use vstd::prelude::*;
use vstd::string::StringExecFns;
use vstd::string::StringSliceAdditionalSpecFns;

use magic_crypt::MagicCryptTrait;

use crate::model::store::Error;
use crate::Encryptor;

verus! {

#[verifier::external_type_specification]
#[verifier::external_body]
pub struct ExMagicCrypt256(magic_crypt::MagicCrypt256);

/// The base64 ciphertext that AES-256-CBC under `key` produces for `plain`;
/// a function of the two alone, as the cipher derives its key material and
/// IV from the pass phrase at construction.
pub uninterp spec fn enc_of(key: Seq<char>, plain: Seq<char>) -> Seq<char>;

/// The payload that decryption under `key` recovers from `cipher`, or
/// nothing when `cipher` is no valid ciphertext.
pub uninterp spec fn dec_of(key: Seq<char>, cipher: Seq<char>) -> Option<Seq<char>>;

/// The codec: a pre-initialized AES-256 cipher. The pass phrase is kept
/// (privately) so that the contracts can name the key the cipher was built
/// from.
pub struct MagicEncryptor {
    cipher: magic_crypt::MagicCrypt256,
    key: String,
}

/// Relies on magic_crypt::MagicCryptTrait::new for MagicCrypt256: the AES
/// key is the SHA-256 of the pass phrase, the IV the default zero block, so
/// the cipher is a function of the pass phrase alone.
#[verifier::external_body]
fn new_cipher(key: &str) -> magic_crypt::MagicCrypt256 {
    <magic_crypt::MagicCrypt256 as magic_crypt::MagicCryptTrait>::new(key, None::<&[u8]>)
}

impl MagicEncryptor {
    /// The pass phrase this codec was built from.
    pub closed spec fn key_view(&self) -> Seq<char> {
        self.key@
    }

    /// A codec for the given key; keys shorter than 16 bytes are rejected.
    pub fn new(key: &str) -> (r: Result<MagicEncryptor, Error>)
        ensures
            r is Err <==> key.len() < 16,
            r matches Err(e) ==> e@ == crate::model::store::ErrorView::Other(
                "encryption key length must >= 16"@,
            ),
            r matches Ok(enc) ==> enc.key_view() == key@,
    {
        if key.len() < 16 {
            return Err(Error::Other(String::from_str("encryption key length must >= 16")));
        }
        Ok(MagicEncryptor { cipher: new_cipher(key), key: key.to_owned() })
    }

    /// Relies on magic_crypt::MagicCryptTrait::encrypt_str_to_base64:
    /// deterministic for a given cipher, and decrypt_base64_to_string
    /// recovers exactly the payload from its result.
    #[verifier::external_body]
    fn encrypt_raw(&self, data: &str) -> (r: String)
        ensures
            r@ == enc_of(self.key_view(), data@),
            dec_of(self.key_view(), r@) == Some(data@),
    {
        self.cipher.encrypt_str_to_base64(data)
    }

    /// Relies on magic_crypt::MagicCryptTrait::decrypt_base64_to_string: it
    /// fails exactly on inputs that are not valid base64 ciphertext under
    /// this cipher, deterministically.
    #[verifier::external_body]
    fn decrypt_raw(&self, data: &str) -> (r: Option<String>)
        ensures
            r matches Some(p) ==> dec_of(self.key_view(), data@) == Some(p@),
            r is None ==> dec_of(self.key_view(), data@) is None,
    {
        self.cipher.decrypt_base64_to_string(data).ok()
    }
}

impl Encryptor for MagicEncryptor {
    open spec fn spec_encrypt(&self, data: Seq<char>) -> Seq<char> {
        enc_of(self.key_view(), data)
    }

    open spec fn spec_decrypt(&self, data: Seq<char>) -> Option<Seq<char>> {
        dec_of(self.key_view(), data)
    }

    fn encrypt(&self, data: &str) -> (r: String) {
        self.encrypt_raw(data)
    }

    fn decrypt(&self, data: &str) -> (r: Result<String, String>) {
        match self.decrypt_raw(data) {
            Some(p) => Ok(p),
            None => Err(String::from_str("can not decrypt the value")),
        }
    }
}

} // verus!
