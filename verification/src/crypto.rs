//! Ciphers, key derivation, random bytes and the wiping of secrets.

use aes::cipher::{block_padding::Pkcs7, BlockDecryptMut, BlockEncryptMut, KeyIvInit};
use aes_gcm::{aead::AeadInPlace, KeyInit};
use rand::RngCore;
use vstd::prelude::*;
use zeroize::Zeroize;

verus! {

/// What AES-256 in CBC mode with PKCS #7 padding makes of a message, under a key
/// of 32 bytes followed by an initialization vector of 16.
pub uninterp spec fn cbc_sealed(key: Seq<u8>, message: Seq<u8>) -> Seq<u8>;

/// The message that AES-256 in CBC mode with PKCS #7 padding reads from a
/// ciphertext, under a key of 32 bytes followed by an initialization vector of
/// 16; none if the ciphertext does not end in such padding.
pub uninterp spec fn cbc_opened(key: Seq<u8>, ciphertext: Seq<u8>) -> Option<Seq<u8>>;

/// `cbc::Encryptor` over `aes::Aes256`, and `encrypt_padded_vec_mut` with PKCS #7
/// padding. The padding fills the last block or adds one, and decryption under
/// the same key gives the message back.
#[verifier::external_body]
pub(crate) fn cbc_encrypt(key: &[u8; 48], message: &[u8]) -> (r: Vec<u8>)
    ensures
        r@ == cbc_sealed(key@, message@),
        r@.len() == (message@.len() / 16 + 1) * 16,
        cbc_opened(key@, r@) == Some(message@),
{
    cbc::Encryptor::<aes::Aes256>::new((&key[..32]).into(), (&key[32..]).into())
        .encrypt_padded_vec_mut::<Pkcs7>(message)
}

/// `cbc::Decryptor` over `aes::Aes256`, and `decrypt_padded_vec_mut` with PKCS #7
/// padding. Nothing and what does not fill its last block are refused.
#[verifier::external_body]
pub(crate) fn cbc_decrypt(key: &[u8; 48], ciphertext: &[u8]) -> (r: Option<Vec<u8>>)
    ensures
        match r {
            Some(message) => cbc_opened(key@, ciphertext@) == Some(message@),
            None => cbc_opened(key@, ciphertext@) is None,
        },
        ciphertext@.len() == 0 || ciphertext@.len() % 16 != 0 ==> r is None,
{
    cbc::Decryptor::<aes::Aes256>::new((&key[..32]).into(), (&key[32..]).into())
        .decrypt_padded_vec_mut::<Pkcs7>(ciphertext)
        .ok()
}

/// What AES-256 in Galois/counter mode makes of a message without associated
/// data: the ciphertext, followed by its tag.
pub uninterp spec fn gcm_sealed(key: Seq<u8>, nonce: Seq<u8>, message: Seq<u8>) -> Seq<u8>;

/// The message that AES-256 in Galois/counter mode reads from a ciphertext that
/// its tag follows, without associated data; none if the tag does not fit.
pub uninterp spec fn gcm_opened(key: Seq<u8>, nonce: Seq<u8>, sealed: Seq<u8>) -> Option<Seq<u8>>;

/// The longest message that Galois/counter mode takes.
pub open spec fn gcm_limit() -> nat {
    0x10_0000_0000
}

/// `encrypt_in_place` of `aes_gcm::Aes256Gcm`. It refuses a longer message than
/// the mode allows and no other; the tag takes 16 bytes, and decryption under
/// the same key and nonce gives the message back. Decryption refuses any other tag
/// behind the same ciphertext, and the same under any other nonce: the cipher is a
/// permutation, so that another block masks the tag. What becomes of a buffer that is
/// refused is not stated.
#[verifier::external_body]
pub(crate) fn gcm_encrypt(key: &[u8; 32], nonce: &[u8; 12], buffer: &mut Vec<u8>) -> (r: bool)
    ensures
        r == (old(buffer)@.len() <= gcm_limit()),
        r ==> {
            let n = old(buffer)@.len() as int;
            let sealed = final(buffer)@;
            &&& sealed == gcm_sealed(key@, nonce@, old(buffer)@)
            &&& sealed.len() == n + 16
            &&& gcm_opened(key@, nonce@, sealed) == Some(old(buffer)@)
            &&& forall|tag: Seq<u8>|
                tag.len() == 16 && tag != sealed.skip(n) ==> #[trigger] gcm_opened(
                    key@,
                    nonce@,
                    sealed.take(n) + tag,
                ) is None
            &&& forall|other: Seq<u8>|
                other.len() == 12 && other != nonce@ ==> #[trigger] gcm_opened(key@, other, sealed) is None
        },
{
    let cipher = aes_gcm::Aes256Gcm::new(key.into());
    cipher.encrypt_in_place(nonce.into(), b"", buffer).is_ok()
}

/// `decrypt_in_place` of `aes_gcm::Aes256Gcm`. A message is 16 bytes shorter than
/// what it is read from, and encryption makes that of it again. Whether a changed
/// ciphertext is refused is not stated beyond that: it depends on the key. What becomes
/// of a buffer that is refused is not stated.
#[verifier::external_body]
pub(crate) fn gcm_decrypt(key: &[u8; 32], nonce: &[u8; 12], buffer: &mut Vec<u8>) -> (r: bool)
    ensures
        gcm_opened(key@, nonce@, old(buffer)@) == if r {
            Some(final(buffer)@)
        } else {
            None
        },
        r ==> {
            &&& final(buffer)@.len() + 16 == old(buffer)@.len()
            &&& final(buffer)@.len() <= gcm_limit() ==> old(buffer)@ == gcm_sealed(
                key@,
                nonce@,
                final(buffer)@,
            )
        },
{
    let cipher = aes_gcm::Aes256Gcm::new(key.into());
    cipher.decrypt_in_place(nonce.into(), b"", buffer).is_ok()
}

/// How the crate `argon2` words that it refuses a version or the costs, if it does.
pub open spec fn argon2_complaint(
    version: u32,
    memory: u32,
    iterations: u32,
    parallelism: u32,
    length: usize,
) -> Option<Seq<char>> {
    if version != 0x10 && version != 0x13 {
        Some("invalid version"@)
    } else if memory < 8 || memory < parallelism * 8 {
        Some("memory cost is too small"@)
    } else if iterations < 1 {
        Some("time cost is too small"@)
    } else if parallelism < 1 {
        Some("not enough threads"@)
    } else if parallelism > 0xff_ffff {
        Some("too many threads"@)
    } else if length < 4 {
        Some("output is too short"@)
    } else if length > 0xffff_ffff {
        Some("output is too long"@)
    } else {
        None
    }
}

/// How the crate `argon2` words that it refuses a password or a salt, if it does.
pub open spec fn argon2_input_complaint(password: Seq<u8>, salt: Seq<u8>) -> Option<Seq<char>> {
    if password.len() > 0xffff_ffff {
        Some("password is too long"@)
    } else if salt.len() < 8 {
        Some("salt is too short"@)
    } else if salt.len() > 0xffff_ffff {
        Some("salt is too long"@)
    } else {
        None
    }
}

/// `argon2::Version::try_from` and `argon2::Params::new`: whether they accept the
/// version and the costs. Where the version and the memory pass, more than 536870911
/// threads are left out, since the product with eight that `Params::new` then forms
/// does not fit its type.
#[verifier::external_body]
pub(crate) fn argon2_check(
    version: u32,
    memory: u32,
    iterations: u32,
    parallelism: u32,
    length: usize,
) -> (r: Result<(), String>)
    requires
        (version == 0x10 || version == 0x13) && memory >= 8 ==> parallelism <= 0x1fff_ffff,
    ensures
        match r {
            Ok(_) => argon2_complaint(version, memory, iterations, parallelism, length) is None,
            Err(e) => argon2_complaint(version, memory, iterations, parallelism, length) == Some(e@),
        },
{
    argon2::Version::try_from(version).map_err(|err| err.to_string())?;
    argon2::Params::new(memory, iterations, parallelism, Some(length))
        .map(|_| ())
        .map_err(|err| err.to_string())
}

/// The variants of Argon2.
#[derive(Clone, Copy, Debug, PartialEq, Eq, Structural)]
pub enum Argon2Kind {
    D,
    I,
    Id,
}

/// The bytes that Argon2 derives.
pub uninterp spec fn argon2_digest(
    kind: Argon2Kind,
    version: u32,
    memory: u32,
    iterations: u32,
    parallelism: u32,
    length: usize,
    password: Seq<u8>,
    salt: Seq<u8>,
) -> Seq<u8>;

/// `argon2::Argon2::hash_password_into`: fills `out` with the derived bytes, as
/// many as it holds. A password or a salt of a bad length is refused.
#[verifier::external_body]
pub(crate) fn argon2_fill(
    kind: Argon2Kind,
    version: u32,
    memory: u32,
    iterations: u32,
    parallelism: u32,
    password: &[u8],
    salt: &[u8],
    out: &mut Vec<u8>,
) -> (r: Result<(), String>)
    requires
        argon2_complaint(version, memory, iterations, parallelism, old(out)@.len() as usize) is None,
    ensures
        match r {
            Ok(_) => {
                &&& argon2_input_complaint(password@, salt@) is None
                &&& final(out)@.len() == old(out)@.len()
                &&& final(out)@ == argon2_digest(
                    kind,
                    version,
                    memory,
                    iterations,
                    parallelism,
                    old(out)@.len() as usize,
                    password@,
                    salt@,
                )
            },
            Err(e) => argon2_input_complaint(password@, salt@) == Some(e@),
        },
{
    let algorithm = match kind {
        Argon2Kind::D => argon2::Algorithm::Argon2d,
        Argon2Kind::I => argon2::Algorithm::Argon2i,
        Argon2Kind::Id => argon2::Algorithm::Argon2id,
    };
    let version = argon2::Version::try_from(version).map_err(|err| err.to_string())?;
    let params = argon2::Params::new(memory, iterations, parallelism, Some(out.len()))
        .map_err(|err| err.to_string())?;
    argon2::Argon2::new(algorithm, version, params)
        .hash_password_into(password, salt, out)
        .map_err(|err| err.to_string())
}

/// `Vec::try_reserve_exact` of the standard library: the bytes stay as they are.
/// Whether there is room is up to the machine.
#[verifier::external_body]
pub(crate) fn reserve(bytes: &mut Vec<u8>, additional: usize) -> (r: Result<(), String>)
    ensures
        final(bytes)@ == old(bytes)@,
{
    bytes.try_reserve_exact(additional).map_err(|err| err.to_string())
}

/// `try_fill_bytes` of `rand::rngs::OsRng`: as many random bytes as the array holds, or
/// the message of the system that could give none. Which of them is up to the system.
#[verifier::external_body]
pub(crate) fn random_array<const N: usize>() -> (r: Result<[u8; N], String>) {
    let mut bytes = [0; N];
    rand::rngs::OsRng.try_fill_bytes(&mut bytes).map(|_| bytes).map_err(|err| err.to_string())
}

/// `zeroize::Zeroize` on a vector: the bytes are overwritten and the vector is
/// empty. That the memory is overwritten is not stated.
#[verifier::external_body]
pub(crate) fn wipe(bytes: &mut Vec<u8>)
    ensures
        final(bytes)@.len() == 0,
{
    bytes.zeroize()
}

/// `zeroize::Zeroize` on an array: the bytes are overwritten with zeros. That no copy of
/// them is left in memory is not stated.
#[verifier::external_body]
pub(crate) fn wipe_array<const N: usize>(bytes: &mut [u8; N])
    ensures
        forall|i: int| 0 <= i < N ==> #[trigger] final(bytes)@[i] == 0,
{
    bytes.zeroize()
}

/// The 48 bytes of a settings key, if there are that many.
pub(crate) fn array48(bytes: &Vec<u8>) -> (r: Option<[u8; 48]>)
    ensures
        match r {
            Some(a) => bytes@.len() == 48 && a@ == bytes@,
            None => bytes@.len() != 48,
        },
{
    if bytes.len() != 48 {
        return None;
    }
    let mut a: [u8; 48] = [0;48];
    let mut i: usize = 0;
    while i < 48
        invariant
            i <= 48,
            bytes@.len() == 48,
            a@.len() == 48,
            forall|k: int| 0 <= k < i ==> a@[k] == bytes@[k],
        decreases 48 - i,
    {
        a[i] = bytes[i];
        i += 1;
    }
    assert(a@ =~= bytes@);
    Some(a)
}

/// The 32 bytes of a cipher key, if there are that many.
pub(crate) fn array32(bytes: &Vec<u8>) -> (r: Option<[u8; 32]>)
    ensures
        match r {
            Some(a) => bytes@.len() == 32 && a@ == bytes@,
            None => bytes@.len() != 32,
        },
{
    if bytes.len() != 32 {
        return None;
    }
    let mut a: [u8; 32] = [0;32];
    let mut i: usize = 0;
    while i < 32
        invariant
            i <= 32,
            bytes@.len() == 32,
            a@.len() == 32,
            forall|k: int| 0 <= k < i ==> a@[k] == bytes@[k],
        decreases 32 - i,
    {
        a[i] = bytes[i];
        i += 1;
    }
    assert(a@ =~= bytes@);
    Some(a)
}

/// The 12 bytes of a nonce, if there are that many.
pub(crate) fn array12(bytes: &Vec<u8>) -> (r: Option<[u8; 12]>)
    ensures
        match r {
            Some(a) => bytes@.len() == 12 && a@ == bytes@,
            None => bytes@.len() != 12,
        },
{
    if bytes.len() != 12 {
        return None;
    }
    let mut a: [u8; 12] = [0;12];
    let mut i: usize = 0;
    while i < 12
        invariant
            i <= 12,
            bytes@.len() == 12,
            a@.len() == 12,
            forall|k: int| 0 <= k < i ==> a@[k] == bytes@[k],
        decreases 12 - i,
    {
        a[i] = bytes[i];
        i += 1;
    }
    assert(a@ =~= bytes@);
    Some(a)
}

} // verus!
