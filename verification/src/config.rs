//! Configuration of the key derivation: the iteration counts for the key,
//! salt and initialization-vector derivations, plus an optional default
//! key-file path.

use vstd::prelude::*;

use crate::kdf::pbkdf2_of;
use crate::kdf::pbkdf2_sha256;
use crate::IV_SIZE;
use crate::KEY_SIZE;

verus! {

/// Built-in number of cycles for a key derivation.
pub const KEY_CYCLES: u32 = 1000;

/// Built-in number of cycles for a salt derivation.
pub const SALT_CYCLES: u32 = 1000;

/// Built-in number of cycles for an initialization-vector derivation.
pub const IV_CYCLES: u32 = 1000;

/// The three PBKDF2 iteration counts, one per derived quantity. Each count
/// must be positive; `wf` states that.
#[derive(Clone, Copy, Debug, PartialEq, Eq, Structural)]
pub struct CyclesConfig {
    pub key: u32,
    pub salt: u32,
    pub iv: u32,
}

impl CyclesConfig {
    /// All three cycle counts are positive.
    pub open spec fn wf(self) -> bool {
        &&& self.key >= 1
        &&& self.salt >= 1
        &&& self.iv >= 1
    }

    /// The three counts as a vector, in key, salt, iv order.
    pub fn to_vec(&self) -> (r: Vec<u32>)
        ensures
            r@ == seq![self.key, self.salt, self.iv],
    {
        let mut cycles: Vec<u32> = Vec::new();
        cycles.push(self.key);
        cycles.push(self.salt);
        cycles.push(self.iv);
        proof {
            assert(cycles@ =~= seq![self.key, self.salt, self.iv]);
        }
        cycles
    }

    /// Reads the three counts back from a vector in key, salt, iv order.
    pub fn from_vec(vec: &[u32; 3]) -> (r: CyclesConfig)
        ensures
            r.key == vec@[0],
            r.salt == vec@[1],
            r.iv == vec@[2],
    {
        CyclesConfig { key: vec[0], salt: vec[1], iv: vec[2] }
    }
}

/// The configuration for a key: the derivation cycles and an optional
/// default key-file path.
#[derive(Debug)]
pub struct Config {
    pub cycles: CyclesConfig,
    pub default_key_path: Option<String>,
}

impl Config {
    /// The cycle counts are positive.
    pub open spec fn wf(self) -> bool {
        self.cycles.wf()
    }

    /// A config with the given counts and no default key path.
    pub fn from_vec(vec: &[u32; 3]) -> (r: Config)
        ensures
            r.cycles.key == vec@[0],
            r.cycles.salt == vec@[1],
            r.cycles.iv == vec@[2],
            r.default_key_path is None,
    {
        Config { cycles: CyclesConfig::from_vec(vec), default_key_path: None }
    }

    /// The built-in config: every derivation runs its built-in number of
    /// cycles.
    pub fn builtin(default_key_path: Option<String>) -> (r: Config)
        ensures
            r.cycles.key == KEY_CYCLES,
            r.cycles.salt == SALT_CYCLES,
            r.cycles.iv == IV_CYCLES,
            r.default_key_path == default_key_path,
            r.wf(),
    {
        Config {
            default_key_path,
            cycles: CyclesConfig { key: KEY_CYCLES, salt: SALT_CYCLES, iv: IV_CYCLES },
        }
    }

    /// The iteration count for the initialization-vector derivation.
    pub fn iv_cycles(&self) -> (r: u32)
        ensures
            r == self.cycles.iv,
    {
        self.cycles.iv
    }

    /// The iteration count for the key derivation.
    pub fn key_cycles(&self) -> (r: u32)
        ensures
            r == self.cycles.key,
    {
        self.cycles.key
    }

    /// The iteration count for the salt derivation.
    pub fn salt_cycles(&self) -> (r: u32)
        ensures
            r == self.cycles.salt,
    {
        self.cycles.salt
    }

    /// Derives the key material from a password and a salt.
    pub fn derive_key(&self, password: &[u8], salt: &[u8]) -> (r: Vec<u8>)
        requires
            self.cycles.key >= 1,
        ensures
            r@ == pbkdf2_of(password@, salt@, self.cycles.key, KEY_SIZE as nat),
            r@.len() == KEY_SIZE,
    {
        pbkdf2_sha256(password, salt, self.key_cycles(), KEY_SIZE)
    }

    /// Derives the salt from the password itself, which makes the whole
    /// derivation reproducible from the password alone.
    pub fn derive_salt(&self, password: &[u8]) -> (r: Vec<u8>)
        requires
            self.cycles.salt >= 1,
        ensures
            r@ == pbkdf2_of(password@, password@, self.cycles.salt, KEY_SIZE as nat),
            r@.len() == KEY_SIZE,
    {
        pbkdf2_sha256(password, password, self.salt_cycles(), KEY_SIZE)
    }

    /// Derives the initialization vector from the password itself.
    pub fn derive_iv(&self, password: &[u8]) -> (r: Vec<u8>)
        requires
            self.cycles.iv >= 1,
        ensures
            r@ == pbkdf2_of(password@, password@, self.cycles.iv, IV_SIZE as nat),
            r@.len() == IV_SIZE,
    {
        pbkdf2_sha256(password, password, self.iv_cycles(), IV_SIZE)
    }
}

} // verus!
