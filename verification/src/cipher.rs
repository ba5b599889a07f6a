//! Cipher engine: AES-256 in cipher-block-chaining mode with PKCS padding.
//!
//! Padding is applied and checked here, in verified code; the block-aligned
//! stream is handed to the outside cipher through a bounded transfer buffer,
//! alternating "feed more input" and "drain more output" until the cipher
//! reports that nothing is pending.

use vstd::arithmetic::div_mod::lemma_fundamental_div_mod;
use vstd::prelude::*;
use vstd::slice::slice_subrange;
use vstd::slice::slice_to_vec;

use crypto::buffer::BufferResult;
use crypto::buffer::ReadBuffer;
use crypto::buffer::WriteBuffer;
use crypto::symmetriccipher::SymmetricCipherError;

use crate::BLOCK_SIZE;

verus! {

/// Size in bytes of the bounded transfer buffer that one feed/drain round
/// of the streaming cipher drains at most.
const BUF_SIZE: usize = 4096;

/// Failure cases of the cipher engine on malformed ciphertext.
#[derive(Clone, Copy, Debug, PartialEq, Eq, Structural)]
pub enum CipherError {
    /// The ciphertext length is not a multiple of the cipher block width.
    InvalidLength,
    /// The final block does not carry valid padding.
    InvalidPadding,
}

/// Number of PKCS padding bytes appended to a message of the given length:
/// between 1 and one full block.
pub open spec fn pkcs_pad_len(len: int) -> int {
    BLOCK_SIZE - len % (BLOCK_SIZE as int)
}

/// A message followed by its PKCS padding: `pkcs_pad_len` copies of the
/// padding length itself, filling the final block exactly.
pub open spec fn pkcs_pad_spec(data: Seq<u8>) -> Seq<u8> {
    data + Seq::new(pkcs_pad_len(data.len() as int) as nat, |i| pkcs_pad_len(data.len() as int) as u8)
}

/// Strips PKCS padding: the final byte names the padding width, which must
/// be between 1 and one block, and every padding byte must repeat it.
pub open spec fn pkcs_unpad_spec(padded: Seq<u8>) -> Option<Seq<u8>> {
    let n = padded.len() as int;
    let pad = padded.last() as int;
    if n >= BLOCK_SIZE && n % (BLOCK_SIZE as int) == 0 && 1 <= pad <= BLOCK_SIZE && (forall|i: int|
        n - pad <= i < n ==> padded[i] == padded.last()) {
        Some(padded.take(n - pad))
    } else {
        None
    }
}

/// Stripping the padding that `pkcs_pad_spec` appended returns the message.
pub proof fn lemma_pkcs_unpad_pad(data: Seq<u8>)
    ensures
        pkcs_unpad_spec(pkcs_pad_spec(data)) == Some(data),
{
    let n = data.len() as int;
    let pad = pkcs_pad_len(n);
    let p = pkcs_pad_spec(data);
    lemma_fundamental_div_mod(n, BLOCK_SIZE as int);
    assert(p.len() == n + pad);
    assert(p.last() == pad as u8);
    assert(1 <= pad <= BLOCK_SIZE);
    assert(forall|i: int| n + pad - pad <= i < n + pad ==> p[i] == p.last());
    assert(p.take(n + pad - pad) =~= data);
}

/// The padded form of a message is one block longer than the message's
/// whole blocks.
pub proof fn lemma_pkcs_pad_spec_len(data: Seq<u8>)
    ensures
        pkcs_pad_spec(data).len() == (data.len() as int / (BLOCK_SIZE as int) + 1) * (
        BLOCK_SIZE as int),
        pkcs_pad_spec(data).len() as int % (BLOCK_SIZE as int) == 0,
{
    let n = data.len() as int;
    lemma_fundamental_div_mod(n, BLOCK_SIZE as int);
    assert((n / 16 + 1) * 16 == 16 * (n / 16) + 16) by (nonlinear_arith);
    lemma_fundamental_div_mod(pkcs_pad_spec(data).len() as int, BLOCK_SIZE as int);
    assert(((n / 16) + 1) * 16 % 16 == 0) by (nonlinear_arith);
}

/// The ciphertext that AES-256 in cipher-block-chaining mode (no padding)
/// produces for block-aligned input under a 32-byte key and a one-block
/// initialization vector: a function of these three alone.
pub uninterp spec fn cbc_seal_of(key: Seq<u8>, iv: Seq<u8>, blocks: Seq<u8>) -> Seq<u8>;

/// AES-256 in cipher-block-chaining mode with PKCS padding.
pub open spec fn aes_cbc_enc(key: Seq<u8>, iv: Seq<u8>, data: Seq<u8>) -> Seq<u8> {
    cbc_seal_of(key, iv, pkcs_pad_spec(data))
}

/// The bytes that AES-256 in cipher-block-chaining mode (no padding)
/// emits when decrypting block-aligned input under a 32-byte key and a
/// one-block initialization vector: a function of these three alone, and
/// the inverse of `cbc_seal_of`.
pub uninterp spec fn cbc_open_of(key: Seq<u8>, iv: Seq<u8>, blocks: Seq<u8>) -> Seq<u8>;

/// The outside crate's streaming AES-256-CBC encryptor, held opaquely. Its
/// state is modelled by `sealer_key`, `sealer_iv`, `sealer_fed` (plaintext
/// consumed so far), `sealer_out` (ciphertext emitted so far) and
/// `sealer_done`.
#[verifier::external_body]
pub struct CbcSealer {
    inner: Box<dyn crypto::symmetriccipher::Encryptor + 'static>,
}

/// The cipher key the sealer was created with.
pub uninterp spec fn sealer_key(s: CbcSealer) -> Seq<u8>;

/// The initialization vector the sealer was created with.
pub uninterp spec fn sealer_iv(s: CbcSealer) -> Seq<u8>;

/// The plaintext bytes the sealer has consumed so far.
pub uninterp spec fn sealer_fed(s: CbcSealer) -> Seq<u8>;

/// The ciphertext bytes the sealer has emitted so far.
pub uninterp spec fn sealer_out(s: CbcSealer) -> Seq<u8>;

/// Whether the sealer has consumed its whole input and emitted all output.
pub uninterp spec fn sealer_done(s: CbcSealer) -> bool;

/// Whether the sealer has been shown the end of its stream: the last round
/// consumed every byte it was given. The engine then holds at most pending
/// output, and no new input bytes may be presented to it.
pub uninterp spec fn sealer_ending(s: CbcSealer) -> bool;

/// Creates a streaming encryptor.
///
/// Relies on `crypto::aes::cbc_encryptor` with `blockmodes::NoPadding`: a
/// fresh encryptor has consumed and emitted nothing.
#[verifier::external_body]
fn new_sealer(key: &[u8], iv: &[u8]) -> (s: CbcSealer)
    requires
        key@.len() == 32,
        iv@.len() == BLOCK_SIZE,
    ensures
        sealer_key(s) == key@,
        sealer_iv(s) == iv@,
        sealer_fed(s) == Seq::<u8>::empty(),
        sealer_out(s) == Seq::<u8>::empty(),
        !sealer_done(s),
        !sealer_ending(s),
{
    CbcSealer {
        inner: crypto::aes::cbc_encryptor(
            crypto::aes::KeySize::KeySize256,
            key,
            iv,
            crypto::blockmodes::NoPadding,
        ),
    }
}

/// One feed/drain round of the streaming encryptor: feeds it the input
/// past `taken` and drains at most one transfer buffer of output. Returns
/// the drained bytes, how many input bytes were consumed, and whether the
/// cipher reports the whole operation complete. The caller must continue
/// the one stream the engine has seen — `data[..taken]` is exactly what
/// was fed so far — and may present no new bytes once a round has consumed
/// the whole stream.
///
/// Relies on `crypto::symmetriccipher::Encryptor::encrypt` of the engine
/// behind `crypto::aes::cbc_encryptor` with `blockmodes::NoPadding`: on a
/// block-aligned stream it never fails, each round that is not yet
/// complete drains at least one byte, raw cipher-block-chaining emits
/// exactly one byte per consumed byte, and a round that reports completion
/// has consumed everything and emitted the whole ciphertext.
#[verifier::external_body]
fn sealer_step(s: &mut CbcSealer, data: &[u8], taken: usize) -> (r: Result<
    (Vec<u8>, usize, bool),
    CipherError,
>)
    requires
        taken <= data@.len(),
        !sealer_done(*old(s)),
        sealer_fed(*old(s)) == data@.take(taken as int),
        sealer_ending(*old(s)) ==> taken == data@.len(),
        data@.len() as int % (BLOCK_SIZE as int) == 0,
    ensures
        r is Ok,
        sealer_key(*final(s)) == sealer_key(*old(s)),
        sealer_iv(*final(s)) == sealer_iv(*old(s)),
        r->Ok_0.1 <= data@.len() - taken,
        sealer_fed(*final(s)) == sealer_fed(*old(s)) + data@.subrange(
            taken as int,
            taken + r->Ok_0.1,
        ),
        sealer_out(*final(s)) == sealer_out(*old(s)) + r->Ok_0.0@,
        sealer_out(*final(s)).len() <= sealer_fed(*final(s)).len(),
        sealer_done(*final(s)) == r->Ok_0.2,
        sealer_ending(*final(s)) == (taken + r->Ok_0.1 == data@.len()),
        !r->Ok_0.2 ==> r->Ok_0.0@.len() > 0,
        r->Ok_0.2 ==> taken + r->Ok_0.1 == data@.len() && sealer_out(*final(s)) == cbc_seal_of(
            sealer_key(*old(s)),
            sealer_iv(*old(s)),
            sealer_fed(*final(s)),
        ) && sealer_out(*final(s)).len() == sealer_fed(*final(s)).len(),
{
    let mut read_buffer = crypto::buffer::RefReadBuffer::new(&data[taken..]);
    let mut buffer = [0u8; BUF_SIZE];
    let mut write_buffer = crypto::buffer::RefWriteBuffer::new(&mut buffer);
    let result = s.inner.encrypt(&mut read_buffer, &mut write_buffer, true);
    let used = read_buffer.position();
    let out = write_buffer.take_read_buffer().take_remaining().to_vec();
    match result {
        Ok(BufferResult::BufferUnderflow) => Ok((out, used, true)),
        Ok(BufferResult::BufferOverflow) => Ok((out, used, false)),
        Err(SymmetricCipherError::InvalidLength) => Err(CipherError::InvalidLength),
        Err(SymmetricCipherError::InvalidPadding) => Err(CipherError::InvalidPadding),
    }
}

/// The outside crate's streaming AES-256-CBC decryptor, held opaquely and
/// modelled like `CbcSealer`: `opener_fed` is the ciphertext consumed so
/// far, `opener_out` the plaintext emitted so far.
#[verifier::external_body]
pub struct CbcOpener {
    inner: Box<dyn crypto::symmetriccipher::Decryptor + 'static>,
}

/// The cipher key the opener was created with.
pub uninterp spec fn opener_key(s: CbcOpener) -> Seq<u8>;

/// The initialization vector the opener was created with.
pub uninterp spec fn opener_iv(s: CbcOpener) -> Seq<u8>;

/// The ciphertext bytes the opener has consumed so far.
pub uninterp spec fn opener_fed(s: CbcOpener) -> Seq<u8>;

/// The plaintext bytes the opener has emitted so far.
pub uninterp spec fn opener_out(s: CbcOpener) -> Seq<u8>;

/// Whether the opener has consumed its whole input and emitted all output.
pub uninterp spec fn opener_done(s: CbcOpener) -> bool;

/// Whether the opener has been shown the end of its stream: the last round
/// consumed every byte it was given. The engine then holds at most pending
/// output, and no new input bytes may be presented to it.
pub uninterp spec fn opener_ending(s: CbcOpener) -> bool;

/// Creates a streaming decryptor.
///
/// Relies on `crypto::aes::cbc_decryptor` with `blockmodes::NoPadding`: a
/// fresh decryptor has consumed and emitted nothing; raw
/// cipher-block-chaining under its key emits exactly one byte per input
/// byte, and decrypting what was encrypted under the same key and
/// initialization vector gives back the blocks.
#[verifier::external_body]
fn new_opener(key: &[u8], iv: &[u8]) -> (s: CbcOpener)
    requires
        key@.len() == 32,
        iv@.len() == BLOCK_SIZE,
    ensures
        opener_key(s) == key@,
        opener_iv(s) == iv@,
        opener_fed(s) == Seq::<u8>::empty(),
        opener_out(s) == Seq::<u8>::empty(),
        !opener_done(s),
        !opener_ending(s),
        forall|blocks: Seq<u8>|
            #[trigger] cbc_seal_of(opener_key(s), opener_iv(s), blocks).len() == blocks.len(),
        forall|blocks: Seq<u8>|
            #[trigger] cbc_open_of(
                opener_key(s),
                opener_iv(s),
                cbc_seal_of(opener_key(s), opener_iv(s), blocks),
            ) == blocks,
{
    CbcOpener {
        inner: crypto::aes::cbc_decryptor(
            crypto::aes::KeySize::KeySize256,
            key,
            iv,
            crypto::blockmodes::NoPadding,
        ),
    }
}

/// One feed/drain round of the streaming decryptor, the mirror of
/// `sealer_step`: the caller continues the one stream the engine has seen
/// and may present no new bytes once a round has consumed the whole
/// stream.
///
/// Relies on `crypto::symmetriccipher::Decryptor::decrypt` of the engine
/// behind `crypto::aes::cbc_decryptor` with `blockmodes::NoPadding`: on a
/// block-aligned stream it never fails, each round that is not yet
/// complete drains at least one byte, and a round that reports completion
/// has consumed everything and emitted the whole raw decryption of the
/// stream.
#[verifier::external_body]
fn opener_step(s: &mut CbcOpener, data: &[u8], taken: usize) -> (r: Result<
    (Vec<u8>, usize, bool),
    CipherError,
>)
    requires
        taken <= data@.len(),
        !opener_done(*old(s)),
        opener_fed(*old(s)) == data@.take(taken as int),
        opener_ending(*old(s)) ==> taken == data@.len(),
        data@.len() as int % (BLOCK_SIZE as int) == 0,
    ensures
        r is Ok,
        opener_key(*final(s)) == opener_key(*old(s)),
        opener_iv(*final(s)) == opener_iv(*old(s)),
        r->Ok_0.1 <= data@.len() - taken,
        opener_fed(*final(s)) == opener_fed(*old(s)) + data@.subrange(
            taken as int,
            taken + r->Ok_0.1,
        ),
        opener_out(*final(s)) == opener_out(*old(s)) + r->Ok_0.0@,
        opener_out(*final(s)).len() <= opener_fed(*final(s)).len(),
        opener_done(*final(s)) == r->Ok_0.2,
        opener_ending(*final(s)) == (taken + r->Ok_0.1 == data@.len()),
        !r->Ok_0.2 ==> r->Ok_0.0@.len() > 0,
        r->Ok_0.2 ==> taken + r->Ok_0.1 == data@.len() && opener_out(*final(s)) == cbc_open_of(
            opener_key(*old(s)),
            opener_iv(*old(s)),
            opener_fed(*final(s)),
        ) && opener_out(*final(s)).len() == opener_fed(*final(s)).len(),
{
    let mut read_buffer = crypto::buffer::RefReadBuffer::new(&data[taken..]);
    let mut buffer = [0u8; BUF_SIZE];
    let mut write_buffer = crypto::buffer::RefWriteBuffer::new(&mut buffer);
    let result = s.inner.decrypt(&mut read_buffer, &mut write_buffer, true);
    let used = read_buffer.position();
    let out = write_buffer.take_read_buffer().take_remaining().to_vec();
    match result {
        Ok(BufferResult::BufferUnderflow) => Ok((out, used, true)),
        Ok(BufferResult::BufferOverflow) => Ok((out, used, false)),
        Err(SymmetricCipherError::InvalidLength) => Err(CipherError::InvalidLength),
        Err(SymmetricCipherError::InvalidPadding) => Err(CipherError::InvalidPadding),
    }
}

/// Appends PKCS padding to a message.
fn pkcs_pad(data: &[u8]) -> (r: Vec<u8>)
    requires
        data@.len() + BLOCK_SIZE <= usize::MAX,
    ensures
        r@ == pkcs_pad_spec(data@),
{
    let pad_len: usize = BLOCK_SIZE - data.len() % BLOCK_SIZE;
    let mut padded = slice_to_vec(data);
    let mut i: usize = 0;
    while i < pad_len
        invariant
            i <= pad_len,
            pad_len == pkcs_pad_len(data@.len() as int),
            1 <= pad_len <= BLOCK_SIZE,
            padded@ == data@ + Seq::new(i as nat, |j| pad_len as u8),
        decreases pad_len - i,
    {
        padded.push(pad_len as u8);
        proof {
            assert(padded@ =~= data@ + Seq::new((i + 1) as nat, |j| pad_len as u8));
        }
        i += 1;
    }
    proof {
        assert(padded@ =~= pkcs_pad_spec(data@));
    }
    padded
}

/// Checks and strips PKCS padding; `None` where the padding is invalid.
fn pkcs_unpad(padded: &[u8]) -> (r: Option<Vec<u8>>)
    ensures
        r is Some <==> pkcs_unpad_spec(padded@) is Some,
        r is Some ==> Some(r->0@) == pkcs_unpad_spec(padded@),
{
    let n = padded.len();
    if n < BLOCK_SIZE || n % BLOCK_SIZE != 0 {
        return None;
    }
    let pad = padded[n - 1];
    if pad < 1 || pad as usize > BLOCK_SIZE {
        return None;
    }
    let pad = pad as usize;
    let mut i: usize = n - pad;
    while i < n
        invariant
            n == padded@.len(),
            BLOCK_SIZE <= n,
            1 <= pad <= BLOCK_SIZE,
            pad == padded@.last() as int,
            n - pad <= i <= n,
            forall|j: int| n - pad <= j < i ==> padded@[j] == padded@.last(),
        decreases n - i,
    {
        if padded[i] != padded[n - 1] {
            return None;
        }
        i += 1;
    }
    Some(slice_to_vec(slice_subrange(padded, 0, n - pad)))
}

/// Seals a message: AES-256-CBC with PKCS padding, streamed through the
/// bounded transfer buffer.
pub fn seal(key: &[u8], iv: &[u8], data: &[u8]) -> (r: Vec<u8>)
    requires
        key@.len() == 32,
        iv@.len() == BLOCK_SIZE,
        data@.len() + BLOCK_SIZE <= usize::MAX,
    ensures
        r@ == aes_cbc_enc(key@, iv@, data@),
        r@.len() == (data@.len() as int / (BLOCK_SIZE as int) + 1) * (BLOCK_SIZE as int),
{
    let padded = pkcs_pad(data);
    proof {
        lemma_pkcs_pad_spec_len(data@);
    }
    let total = padded.len();
    let mut sealer = new_sealer(key, iv);
    let mut out: Vec<u8> = Vec::new();
    let mut fed: usize = 0;
    loop
        invariant_except_break
            !sealer_done(sealer),
        invariant
            key@.len() == 32,
            iv@.len() == BLOCK_SIZE,
            total == padded@.len(),
            padded@ == pkcs_pad_spec(data@),
            padded@.len() as int % (BLOCK_SIZE as int) == 0,
            sealer_key(sealer) == key@,
            sealer_iv(sealer) == iv@,
            fed <= padded@.len(),
            sealer_fed(sealer) == padded@.take(fed as int),
            sealer_ending(sealer) ==> fed == padded@.len(),
            sealer_out(sealer) == out@,
            out@.len() <= fed,
        ensures
            out@ == cbc_seal_of(key@, iv@, padded@),
            out@.len() == padded@.len(),
        decreases padded@.len() - out@.len(),
    {
        match sealer_step(&mut sealer, padded.as_slice(), fed) {
            Ok(step) => {
                let (mut chunk, used, done) = step;
                proof {
                    assert(padded@.take(fed as int) + padded@.subrange(
                        fed as int,
                        fed + used,
                    ) =~= padded@.take(fed + used));
                }
                fed = fed + used;
                out.append(&mut chunk);
                if done {
                    proof {
                        assert(padded@.take(fed as int) =~= padded@);
                    }
                    break ;
                }
            },
            Err(_) => {
                proof {
                    assert(false);
                }
            },
        }
    }
    out
}

/// Opens a sealed message: checks the block alignment, runs the streaming
/// decryptor, and checks and strips the padding.
pub fn open(key: &[u8], iv: &[u8], cipher: &[u8]) -> (r: Result<Vec<u8>, CipherError>)
    requires
        key@.len() == 32,
        iv@.len() == BLOCK_SIZE,
    ensures
        r == Err::<Vec<u8>, CipherError>(CipherError::InvalidLength) <==> cipher@.len() as int % (
        BLOCK_SIZE as int) != 0,
        r == Err::<Vec<u8>, CipherError>(CipherError::InvalidPadding) <==> cipher@.len() as int % (
        BLOCK_SIZE as int) == 0 && pkcs_unpad_spec(cbc_open_of(key@, iv@, cipher@)) is None,
        r is Ok ==> Some(r->Ok_0@) == pkcs_unpad_spec(cbc_open_of(key@, iv@, cipher@)),
        forall|p: Seq<u8>|
            cipher@ == aes_cbc_enc(key@, iv@, p) ==> r is Ok && r->Ok_0@ == p,
        r is Ok ==> r->Ok_0@.len() <= cipher@.len(),
{
    let total = cipher.len();
    let mut opener = new_opener(key, iv);
    if total % BLOCK_SIZE != 0 {
        proof {
            assert forall|p: Seq<u8>| cipher@ == aes_cbc_enc(key@, iv@, p) implies false by {
                lemma_pkcs_pad_spec_len(p);
            }
        }
        return Err(CipherError::InvalidLength);
    }
    let mut raw: Vec<u8> = Vec::new();
    let mut fed: usize = 0;
    loop
        invariant_except_break
            !opener_done(opener),
        invariant
            key@.len() == 32,
            iv@.len() == BLOCK_SIZE,
            total == cipher@.len(),
            cipher@.len() as int % (BLOCK_SIZE as int) == 0,
            opener_key(opener) == key@,
            opener_iv(opener) == iv@,
            fed <= cipher@.len(),
            opener_fed(opener) == cipher@.take(fed as int),
            opener_ending(opener) ==> fed == cipher@.len(),
            opener_out(opener) == raw@,
            raw@.len() <= fed,
        ensures
            raw@.len() == cipher@.len(),
            raw@ == cbc_open_of(key@, iv@, cipher@),
        decreases cipher@.len() - raw@.len(),
    {
        match opener_step(&mut opener, cipher, fed) {
            Ok(step) => {
                let (mut chunk, used, done) = step;
                proof {
                    assert(cipher@.take(fed as int) + cipher@.subrange(
                        fed as int,
                        fed + used,
                    ) =~= cipher@.take(fed + used));
                }
                fed = fed + used;
                raw.append(&mut chunk);
                if done {
                    proof {
                        assert(cipher@.take(fed as int) =~= cipher@);
                    }
                    break ;
                }
            },
            Err(_) => {
                proof {
                    assert(false);
                }
            },
        }
    }
    proof {
        assert forall|p: Seq<u8>| cipher@ == aes_cbc_enc(key@, iv@, p) implies pkcs_unpad_spec(
            raw@,
        ) == Some(p) by {
            assert(cbc_open_of(key@, iv@, cbc_seal_of(key@, iv@, pkcs_pad_spec(p)))
                == pkcs_pad_spec(p));
            lemma_pkcs_unpad_pad(p);
        }
    }
    match pkcs_unpad(raw.as_slice()) {
        Some(plain) => Ok(plain),
        None => Err(CipherError::InvalidPadding),
    }
}

} // verus!
