//! The authenticated key: derived or generated key material, the keyed
//! digest that identifies it, and the encrypt/decrypt operations over
//! self-identifying ciphertext envelopes.

use vstd::pervasive::unreached;
use vstd::prelude::*;
use vstd::slice::slice_subrange;

use crate::cipher::aes_cbc_enc;
use crate::cipher::cbc_open_of;
use crate::cipher::open;
use crate::cipher::pkcs_unpad_spec;
use crate::cipher::seal;
use crate::cipher::CipherError;
use crate::codec::b64_dec;
use crate::codec::b64_of;
use crate::codec::b64decode;
use crate::codec::b64encode;
use crate::config::Config;
use crate::config::CyclesConfig;
use crate::kdf::generate_iv;
use crate::kdf::generate_key;
use crate::kdf::hmac_256_digest;
use crate::kdf::hmac_sha256_of;
use crate::kdf::pbkdf2_of;
use crate::BLOCK_SIZE;
use crate::DIGEST_SIZE;
use crate::IV_SIZE;
use crate::KEY_SIZE;

verus! {

/// Offset of the encryption key in the derived key material.
pub const ENC_KEY_START: usize = 0;

/// End of the encryption key range: AES-256 takes a 32-byte key.
pub const ENC_KEY_END: usize = 32;

/// Offset of the MAC key in the derived key material, leaving a gap after
/// the encryption key.
pub const MAC_KEY_START: usize = 64;

/// End of the MAC key range.
pub const MAC_KEY_END: usize = 96;

/// The identifier of the cipher/mode this crate implements.
pub open spec fn spec_algo() -> Seq<char> {
    "aes-256-cbc"@
}

/// Failure cases of `Key::decrypt`.
#[derive(Clone, Copy, Debug, PartialEq, Eq, Structural)]
pub enum DecryptError {
    /// The envelope's digest prefix was not produced by this key; the
    /// ciphertext is left untouched and can be retried with another key.
    KeyMismatch,
    /// The envelope carries this key's digest but its body is corrupt.
    Cipher(CipherError),
}

/// The mathematical content of a `Key`: its four text fields and the
/// recorded derivation cycles.
#[verifier::ext_equal]
pub struct KeyModel {
    /// The cipher/mode identifier.
    pub algo: Seq<char>,
    /// The base64 text of the encryption key.
    pub key_text: Seq<char>,
    /// The base64 text of the MAC key.
    pub mac_text: Seq<char>,
    /// The base64 text of the initialization vector.
    pub iv_text: Seq<char>,
    /// The derivation cycles, where the key was derived from a password.
    pub magic: Option<Seq<u32>>,
}

/// The view of an optional cycles vector.
pub open spec fn magic_view(magic: Option<Vec<u32>>) -> Option<Seq<u32>> {
    match magic {
        Some(v) => Some(v@),
        None => None,
    }
}

/// The bytes a base64 text decodes to; the empty sequence where the text
/// is not valid base64.
pub open spec fn decoded(text: Seq<char>) -> Seq<u8> {
    match b64_dec(text) {
        Some(b) => b,
        None => Seq::empty(),
    }
}

/// The encryption-key bytes of a key.
pub open spec fn key_bytes_of(m: KeyModel) -> Seq<u8> {
    decoded(m.key_text)
}

/// The MAC-key bytes of a key.
pub open spec fn mac_bytes_of(m: KeyModel) -> Seq<u8> {
    decoded(m.mac_text)
}

/// The initialization-vector bytes of a key.
pub open spec fn iv_bytes_of(m: KeyModel) -> Seq<u8> {
    decoded(m.iv_text)
}

/// The keyed digest that identifies a key: the HMAC-SHA256 code of its
/// initialization vector under its MAC key. A fingerprint of the key
/// material itself, not of any plaintext.
pub open spec fn digest_of(m: KeyModel) -> Seq<u8> {
    hmac_sha256_of(mac_bytes_of(m), iv_bytes_of(m))
}

/// The ciphertext envelope a key produces for a plaintext: its digest,
/// followed by the sealed plaintext.
pub open spec fn envelope_of(m: KeyModel, plain: Seq<u8>) -> Seq<u8> {
    digest_of(m) + aes_cbc_enc(key_bytes_of(m), iv_bytes_of(m), plain)
}

/// The key that password derivation produces: the initialization vector,
/// the salt and the key material are each derived from the password alone
/// by PBKDF2-HMAC-SHA256, so the whole key is a function of the password
/// and the cycle counts. The encryption and MAC keys are disjoint ranges
/// of the key material, with a deliberate gap between them.
pub open spec fn derived_model(password: Seq<u8>, cycles: CyclesConfig) -> KeyModel {
    let iv = pbkdf2_of(password, password, cycles.iv, IV_SIZE as nat);
    let salt = pbkdf2_of(password, password, cycles.salt, KEY_SIZE as nat);
    let material = pbkdf2_of(password, salt, cycles.key, KEY_SIZE as nat);
    KeyModel {
        algo: spec_algo(),
        key_text: b64_of(material.subrange(ENC_KEY_START as int, ENC_KEY_END as int)),
        mac_text: b64_of(material.subrange(MAC_KEY_START as int, MAC_KEY_END as int)),
        iv_text: b64_of(iv),
        magic: Some(seq![cycles.key, cycles.salt, cycles.iv]),
    }
}

/// Constant-structure byte comparison: folds the exclusive-or of every
/// byte pair into an accumulator instead of returning at the first
/// difference, and holds exactly when the two slices are equal.
pub fn bytes_match(a: &[u8], b: &[u8]) -> (r: bool)
    ensures
        r == (a@ == b@),
{
    let n = if a.len() < b.len() {
        a.len()
    } else {
        b.len()
    };
    let mut acc: u8 = 0;
    let mut i: usize = 0;
    while i < n
        invariant
            i <= n,
            n <= a@.len(),
            n <= b@.len(),
            n == a@.len() || n == b@.len(),
            (acc == 0) <==> (forall|j: int| 0 <= j < i ==> a@[j] == b@[j]),
        decreases n - i,
    {
        let x = a[i] ^ b[i];
        proof {
            let ai = a@[i as int];
            let bi = b@[i as int];
            assert((ai ^ bi == 0) == (ai == bi)) by (bit_vector);
            let acc0 = acc;
            let x0 = x;
            assert(((acc0 | x0) == 0) == (acc0 == 0 && x0 == 0)) by (bit_vector);
        }
        acc = acc | x;
        i += 1;
    }
    let r = acc == 0 && a.len() == b.len();
    proof {
        if acc == 0 && a@.len() == b@.len() {
            assert(a@ =~= b@);
        }
    }
    r
}

/// AES-256 key material. The four fields are held as text-safe strings:
/// the cipher identifier and the base64 encodings of the encryption key,
/// the MAC key and the initialization vector; `magic` records the
/// derivation cycles where the key came from a password.
pub struct Key {
    algo: String,
    key: String,
    mac: String,
    iv: String,
    magic: Option<Vec<u32>>,
}

impl View for Key {
    type V = KeyModel;

    closed spec fn view(&self) -> KeyModel {
        KeyModel {
            algo: self.algo@,
            key_text: self.key@,
            mac_text: self.mac@,
            iv_text: self.iv@,
            magic: magic_view(self.magic),
        }
    }
}

impl Key {
    /// The encoded fields decode to byte ranges of the widths the cipher
    /// engine and the digest expect.
    #[verifier::type_invariant]
    spec fn wf(self) -> bool {
        &&& match b64_dec(self.key@) {
            Some(b) => b.len() == ENC_KEY_END - ENC_KEY_START,
            None => false,
        }
        &&& match b64_dec(self.mac@) {
            Some(b) => b.len() == MAC_KEY_END - MAC_KEY_START,
            None => false,
        }
        &&& match b64_dec(self.iv@) {
            Some(b) => b.len() == IV_SIZE,
            None => false,
        }
    }

    /// Derives a key from a password, using the cycle counts of the given
    /// config: the same password and counts always give the same key.
    pub fn from_password(password: &[u8], config: &Config) -> (k: Key)
        requires
            config.wf(),
        ensures
            k@ == derived_model(password@, config.cycles),
    {
        let iv = config.derive_iv(password);
        let salt = config.derive_salt(password);
        let key_material = config.derive_key(password, salt.as_slice());
        let enc_key = slice_subrange(key_material.as_slice(), ENC_KEY_START, ENC_KEY_END);
        let mac_key = slice_subrange(key_material.as_slice(), MAC_KEY_START, MAC_KEY_END);
        let k = Key {
            key: b64encode(enc_key),
            mac: b64encode(mac_key),
            iv: b64encode(iv.as_slice()),
            algo: "aes-256-cbc".to_owned(),
            magic: Some(config.cycles.to_vec()),
        };
        proof {
            assert(k@ =~= derived_model(password@, config.cycles));
        }
        k
    }

    /// Generates a key from fresh random material; `magic` is absent.
    pub fn generate() -> (k: Key)
        ensures
            k@.algo == spec_algo(),
            k@.magic is None,
            key_bytes_of(k@).len() == ENC_KEY_END - ENC_KEY_START,
            mac_bytes_of(k@).len() == MAC_KEY_END - MAC_KEY_START,
            iv_bytes_of(k@).len() == IV_SIZE,
    {
        let iv = generate_iv();
        let key_material = generate_key();
        let enc_key = slice_subrange(key_material.as_slice(), ENC_KEY_START, ENC_KEY_END);
        let mac_key = slice_subrange(key_material.as_slice(), MAC_KEY_START, MAC_KEY_END);
        Key {
            key: b64encode(enc_key),
            mac: b64encode(mac_key),
            iv: b64encode(iv.as_slice()),
            algo: "aes-256-cbc".to_owned(),
            magic: None,
        }
    }

    /// Rebuilds a key from its persisted fields; `None` where a field is
    /// not valid base64 or decodes to the wrong width.
    pub fn from_fields(
        algo: String,
        key: String,
        mac: String,
        iv: String,
        magic: Option<Vec<u32>>,
    ) -> (r: Option<Key>)
        ensures
            r is Some <==> {
                &&& match b64_dec(key@) {
                    Some(b) => b.len() == ENC_KEY_END - ENC_KEY_START,
                    None => false,
                }
                &&& match b64_dec(mac@) {
                    Some(b) => b.len() == MAC_KEY_END - MAC_KEY_START,
                    None => false,
                }
                &&& match b64_dec(iv@) {
                    Some(b) => b.len() == IV_SIZE,
                    None => false,
                }
            },
            r is Some ==> r->0@ == (KeyModel {
                algo: algo@,
                key_text: key@,
                mac_text: mac@,
                iv_text: iv@,
                magic: magic_view(magic),
            }),
    {
        let key_ok = match b64decode(key.as_str()) {
            Some(v) => v.len() == ENC_KEY_END - ENC_KEY_START,
            None => false,
        };
        let mac_ok = match b64decode(mac.as_str()) {
            Some(v) => v.len() == MAC_KEY_END - MAC_KEY_START,
            None => false,
        };
        let iv_ok = match b64decode(iv.as_str()) {
            Some(v) => v.len() == IV_SIZE,
            None => false,
        };
        if key_ok && mac_ok && iv_ok {
            Some(Key { algo, key, mac, iv, magic })
        } else {
            None
        }
    }

    /// The keyed digest identifying this key: the HMAC-SHA256 code of the
    /// initialization vector under the MAC key.
    pub fn digest(&self) -> (d: Vec<u8>)
        ensures
            d@ == digest_of(self@),
            d@.len() == DIGEST_SIZE,
    {
        let mac = self.mac_bytes();
        let iv = self.iv_bytes();
        hmac_256_digest(mac.as_slice(), iv.as_slice())
    }

    /// Whether a buffer holds exactly this key's digest, compared with the
    /// constant-structure `bytes_match`; false also when the widths differ.
    pub fn check_digest(&self, buffer: &[u8]) -> (r: bool)
        ensures
            r == (buffer@ == digest_of(self@)),
    {
        let digest = self.digest();
        bytes_match(buffer, digest.as_slice())
    }

    /// The decoded initialization-vector bytes.
    pub fn iv_bytes(&self) -> (r: Vec<u8>)
        ensures
            r@ == iv_bytes_of(self@),
            r@.len() == IV_SIZE,
    {
        proof {
            use_type_invariant(&*self);
        }
        match b64decode(self.iv.as_str()) {
            Some(v) => v,
            None => unreached(),
        }
    }

    /// The decoded encryption-key bytes.
    pub fn key_bytes(&self) -> (r: Vec<u8>)
        ensures
            r@ == key_bytes_of(self@),
            r@.len() == ENC_KEY_END - ENC_KEY_START,
    {
        proof {
            use_type_invariant(&*self);
        }
        match b64decode(self.key.as_str()) {
            Some(v) => v,
            None => unreached(),
        }
    }

    /// The decoded MAC-key bytes.
    pub fn mac_bytes(&self) -> (r: Vec<u8>)
        ensures
            r@ == mac_bytes_of(self@),
            r@.len() == MAC_KEY_END - MAC_KEY_START,
    {
        proof {
            use_type_invariant(&*self);
        }
        match b64decode(self.mac.as_str()) {
            Some(v) => v,
            None => unreached(),
        }
    }

    /// The cipher/mode identifier, as persisted.
    pub fn algo_text(&self) -> (r: String)
        ensures
            r@ == self@.algo,
    {
        self.algo.clone()
    }

    /// The base64 text of the encryption key, as persisted.
    pub fn key_text(&self) -> (r: String)
        ensures
            r@ == self@.key_text,
    {
        self.key.clone()
    }

    /// The base64 text of the MAC key, as persisted.
    pub fn mac_text(&self) -> (r: String)
        ensures
            r@ == self@.mac_text,
    {
        self.mac.clone()
    }

    /// The base64 text of the initialization vector, as persisted.
    pub fn iv_text(&self) -> (r: String)
        ensures
            r@ == self@.iv_text,
    {
        self.iv.clone()
    }

    /// The recorded derivation cycles: present exactly where the key was
    /// derived from a password.
    pub fn magic(&self) -> (r: Option<Vec<u32>>)
        ensures
            magic_view(r) == self@.magic,
    {
        match &self.magic {
            Some(v) => Some(v.clone()),
            None => None,
        }
    }

    /// Encrypts a buffer: the envelope is this key's digest followed by
    /// the sealed plaintext, and the operation always succeeds.
    pub fn encrypt(&self, data: &[u8]) -> (r: Result<Vec<u8>, CipherError>)
        requires
            data@.len() + BLOCK_SIZE + DIGEST_SIZE <= usize::MAX,
        ensures
            r is Ok,
            r->Ok_0@ == envelope_of(self@, data@),
            r->Ok_0@.len() == DIGEST_SIZE + (data@.len() as int / (BLOCK_SIZE as int) + 1) * (
            BLOCK_SIZE as int),
    {
        let enc_key = self.key_bytes();
        let iv = self.iv_bytes();
        let mut out = self.digest();
        let mut body = seal(enc_key.as_slice(), iv.as_slice(), data);
        out.append(&mut body);
        Ok(out)
    }

    /// Decrypts an envelope. Where the digest prefix is not this key's
    /// digest (or the envelope is too short to carry one), nothing is
    /// decrypted and `KeyMismatch` is reported. Otherwise the body fails
    /// with the cipher engine's error exactly when it is not a whole
    /// number of blocks or its raw decryption carries invalid padding,
    /// and else decrypts to that raw decryption with the padding
    /// stripped; an envelope this key produced decrypts to exactly the
    /// original plaintext.
    pub fn decrypt(&self, cyphertext: &[u8]) -> (r: Result<Vec<u8>, DecryptError>)
        ensures
            r == Err::<Vec<u8>, DecryptError>(DecryptError::KeyMismatch) <==> !(cyphertext@.len()
                >= DIGEST_SIZE && cyphertext@.subrange(0, DIGEST_SIZE as int) == digest_of(self@)),
            r == Err::<Vec<u8>, DecryptError>(DecryptError::Cipher(CipherError::InvalidLength))
                <==> cyphertext@.len() >= DIGEST_SIZE && cyphertext@.subrange(0, DIGEST_SIZE as int)
                == digest_of(self@) && (cyphertext@.len() - DIGEST_SIZE) % (BLOCK_SIZE as int)
                != 0,
            r == Err::<Vec<u8>, DecryptError>(DecryptError::Cipher(CipherError::InvalidPadding))
                <==> cyphertext@.len() >= DIGEST_SIZE && cyphertext@.subrange(0, DIGEST_SIZE as int)
                == digest_of(self@) && (cyphertext@.len() - DIGEST_SIZE) % (BLOCK_SIZE as int) == 0
                && pkcs_unpad_spec(
                cbc_open_of(
                    key_bytes_of(self@),
                    iv_bytes_of(self@),
                    cyphertext@.skip(DIGEST_SIZE as int),
                ),
            ) is None,
            r is Ok ==> Some(r->Ok_0@) == pkcs_unpad_spec(
                cbc_open_of(
                    key_bytes_of(self@),
                    iv_bytes_of(self@),
                    cyphertext@.skip(DIGEST_SIZE as int),
                ),
            ),
            forall|p: Seq<u8>|
                cyphertext@ == envelope_of(self@, p) ==> r is Ok && r->Ok_0@ == p,
            r is Ok ==> cyphertext@.len() >= DIGEST_SIZE && cyphertext@.subrange(
                0,
                DIGEST_SIZE as int,
            ) == digest_of(self@) && (cyphertext@.len() - DIGEST_SIZE) % (BLOCK_SIZE as int) == 0,
    {
        let digest = self.digest();
        if cyphertext.len() < DIGEST_SIZE {
            return Err(DecryptError::KeyMismatch);
        }
        let prefix = slice_subrange(cyphertext, 0, DIGEST_SIZE);
        if !bytes_match(prefix, digest.as_slice()) {
            proof {
                assert forall|p: Seq<u8>| cyphertext@ == envelope_of(self@, p) implies false by {
                    assert(cyphertext@.subrange(0, DIGEST_SIZE as int) =~= digest_of(self@));
                }
            }
            return Err(DecryptError::KeyMismatch);
        }
        let rest = slice_subrange(cyphertext, DIGEST_SIZE, cyphertext.len());
        let enc_key = self.key_bytes();
        let iv = self.iv_bytes();
        proof {
            assert(cyphertext@.subrange(DIGEST_SIZE as int, cyphertext@.len() as int)
                =~= cyphertext@.skip(DIGEST_SIZE as int));
        }
        proof {
            assert forall|p: Seq<u8>| cyphertext@ == envelope_of(self@, p) implies rest@
                == aes_cbc_enc(key_bytes_of(self@), iv_bytes_of(self@), p) by {
                assert(cyphertext@.subrange(
                    DIGEST_SIZE as int,
                    cyphertext@.len() as int,
                ) =~= aes_cbc_enc(key_bytes_of(self@), iv_bytes_of(self@), p));
            }
        }
        match open(enc_key.as_slice(), iv.as_slice(), rest) {
            Ok(plain) => Ok(plain),
            Err(e) => Err(DecryptError::Cipher(e)),
        }
    }
}

/// Round-trip law: decrypting an envelope that `encrypt` just produced
/// returns the plaintext unchanged, for every key and every plaintext.
pub fn encrypt_then_decrypt(key: &Key, data: &[u8]) -> (r: Vec<u8>)
    requires
        data@.len() + BLOCK_SIZE + DIGEST_SIZE <= usize::MAX,
    ensures
        r@ == data@,
{
    let envelope = match key.encrypt(data) {
        Ok(c) => c,
        Err(_) => unreached(),
    };
    match key.decrypt(envelope.as_slice()) {
        Ok(plain) => plain,
        Err(_) => unreached(),
    }
}

/// Determinism law: deriving twice from the same password and the same
/// cycle counts gives the same key, field for field.
pub proof fn lemma_from_password_deterministic(
    k1: KeyModel,
    k2: KeyModel,
    password: Seq<u8>,
    cycles: CyclesConfig,
)
    requires
        k1 == derived_model(password, cycles),
        k2 == derived_model(password, cycles),
    ensures
        k1 == k2,
{
}

/// Ownership law: a key recognises its own digest.
pub fn check_own_digest(key: &Key) -> (r: bool)
    ensures
        r,
{
    let d = key.digest();
    key.check_digest(d.as_slice())
}

} // verus!
