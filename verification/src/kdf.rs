//! Key derivation: PBKDF2-HMAC-SHA256 for password-derived material, the
//! keyed HMAC-SHA256 digest used by the ownership gate, and fresh random
//! key material for generated keys.

use vstd::prelude::*;

use crypto::mac::Mac;
use rand::RngCore;

use crate::DIGEST_SIZE;
use crate::IV_SIZE;
use crate::KEY_SIZE;

verus! {

/// The bytes that PBKDF2-HMAC-SHA256 derives from a password and a salt in
/// the given number of cycles, at the given output width. The result is a
/// function of these arguments alone.
pub uninterp spec fn pbkdf2_of(password: Seq<u8>, salt: Seq<u8>, cycles: u32, width: nat) -> Seq<
    u8,
>;

/// The HMAC-SHA256 code of a message under a key: a function of the key and
/// the message alone, 32 bytes wide.
pub uninterp spec fn hmac_sha256_of(key: Seq<u8>, data: Seq<u8>) -> Seq<u8>;

/// Derives `width` bytes from a password and a salt.
///
/// Relies on `crypto::pbkdf2::pbkdf2` over an HMAC-SHA256 instance keyed
/// with the password: it fills the whole output buffer deterministically.
/// It asserts that the cycle count is positive, and panics on outputs
/// wider than its block-index limit; the `requires` keep both out.
#[verifier::external_body]
pub(crate) fn pbkdf2_sha256(password: &[u8], salt: &[u8], cycles: u32, width: usize) -> (r: Vec<u8>)
    requires
        cycles >= 1,
        width <= u32::MAX,
    ensures
        r@ == pbkdf2_of(password@, salt@, cycles, width as nat),
        r@.len() == width,
{
    let mut mac = crypto::hmac::Hmac::new(crypto::sha2::Sha256::new(), password);
    let mut out = vec![0u8; width];
    crypto::pbkdf2::pbkdf2(&mut mac, salt, cycles, &mut out);
    out
}

/// Computes the HMAC-SHA256 code of `data` under `mac_key`.
///
/// Relies on `crypto::hmac::Hmac` over `crypto::sha2::Sha256`: the code is
/// a function of the key and the data alone and is 32 bytes wide.
#[verifier::external_body]
pub fn hmac_256_digest(mac_key: &[u8], data: &[u8]) -> (r: Vec<u8>)
    ensures
        r@ == hmac_sha256_of(mac_key@, data@),
        r@.len() == DIGEST_SIZE,
{
    let mut mac = crypto::hmac::Hmac::new(crypto::sha2::Sha256::new(), mac_key);
    mac.input(data);
    let result = mac.result();
    result.code().to_vec()
}

/// Fills a fresh buffer with random bytes.
///
/// Relies on `rand::thread_rng` and `rand::RngCore::fill_bytes`: nothing
/// holds of the contents beyond the length.
#[verifier::external_body]
fn random_bytes(width: usize) -> (r: Vec<u8>)
    ensures
        r@.len() == width,
{
    let mut rng = rand::thread_rng();
    let mut out = vec![0u8; width];
    rng.fill_bytes(&mut out);
    out
}

/// Generates random key material for a freshly generated key.
pub fn generate_key() -> (r: Vec<u8>)
    ensures
        r@.len() == KEY_SIZE,
{
    random_bytes(KEY_SIZE)
}

/// Generates a random initialization vector.
pub fn generate_iv() -> (r: Vec<u8>)
    ensures
        r@.len() == IV_SIZE,
{
    random_bytes(IV_SIZE)
}

} // verus!
