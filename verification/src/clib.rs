//! The four operations for callers that bring their own buffers.
//!
//! Each returns a count of bytes, or a status, as a 32-bit integer, with
//! [`FAILED`] for every failure. Nothing is written past the end of a buffer:
//! a result that does not fit is a failure, except for a decrypted text,
//! which is cut to the length of its buffer.

use vstd::prelude::*;
use crate::passport::PassportEntity;
use crate::rsa_entity::HashStrength;

verus! {

/// What every operation returns when it fails.
pub const FAILED: i32 = -1;

/// What [`verify`] returns for a signature that holds.
pub const VERIFIED: i32 = 0;

/// Copies the first `len` bytes of `bytes` to the front of `dest`.
fn copy_front(bytes: &[u8], dest: &mut [u8], len: usize)
    requires
        len <= bytes@.len(),
        len <= old(dest)@.len(),
    ensures
        final(dest)@ == bytes@.take(len as int) + old(dest)@.skip(len as int),
{
    let ghost before = dest@;
    let mut i: usize = 0;
    while i < len
        invariant
            i <= len,
            len <= bytes@.len(),
            len <= dest@.len(),
            dest@.len() == before.len(),
            forall|k: int| 0 <= k < i ==> dest@[k] == bytes@[k],
            forall|k: int| i <= k < dest@.len() ==> dest@[k] == before[k],
        decreases len - i,
    {
        dest[i] = bytes[i];
        i += 1;
    }
    assert(dest@ =~= bytes@.take(len as int) + before.skip(len as int));
}

/// Copies all of `bytes` to the front of `dest` and returns their number, or
/// returns [`FAILED`] and leaves `dest` as it is where they do not fit in
/// `dest` or their number does not fit in the result.
pub fn copy_out(bytes: &[u8], dest: &mut [u8]) -> (n: i32)
    ensures
        if bytes@.len() <= old(dest)@.len() && bytes@.len() <= i32::MAX {
            n == bytes@.len() && final(dest)@ == bytes@ + old(dest)@.skip(n as int)
        } else {
            n == FAILED && final(dest)@ == old(dest)@
        },
{
    let len: usize = bytes.len();
    if len > dest.len() || len > i32::MAX as usize {
        return FAILED;
    }
    copy_front(bytes, dest, len);
    assert(bytes@.take(len as int) =~= bytes@);
    len as i32
}

/// Copies as much of `bytes` as fits to the front of `dest` and returns the
/// number of bytes copied, or returns [`FAILED`] and leaves `dest` as it is
/// where that number does not fit in the result.
pub fn copy_prefix(bytes: &[u8], dest: &mut [u8]) -> (n: i32)
    ensures
        if vstd::math::min(bytes@.len() as int, old(dest)@.len() as int) <= i32::MAX {
            n == vstd::math::min(bytes@.len() as int, old(dest)@.len() as int) && final(dest)@
                == bytes@.take(n as int) + old(dest)@.skip(n as int)
        } else {
            n == FAILED && final(dest)@ == old(dest)@
        },
{
    let len: usize = if bytes.len() < dest.len() {
        bytes.len()
    } else {
        dest.len()
    };
    if len > i32::MAX as usize {
        return FAILED;
    }
    copy_front(bytes, dest, len);
    len as i32
}

/// Signs `data` with the credential that serves `timestamp` and writes the
/// signature to the front of `out`. Returns the length of the signature, or
/// [`FAILED`] with `out` untouched.
pub fn sign(passport: &PassportEntity, data: &[u8], timestamp: i64, out: &mut [u8]) -> (n: i32)
    ensures
        n == FAILED || 0 <= n <= old(out)@.len(),
        !passport.covers(timestamp) ==> n == FAILED,
        n == FAILED ==> final(out)@ == old(out)@,
        n != FAILED ==> final(out)@.skip(n as int) == old(out)@.skip(n as int)
            && passport.credential_at(timestamp).accepts(
            data@,
            final(out)@.take(n as int),
            HashStrength::Sha256,
        ) && n == passport.credential_at(timestamp).modulus_len(),
        passport.covers(timestamp) && passport.credential_at(timestamp).signs(
            HashStrength::Sha256,
        ) && passport.credential_at(timestamp).modulus_len() <= old(out)@.len()
            && passport.credential_at(timestamp).modulus_len() <= i32::MAX ==> n != FAILED,
{
    match passport.sign_sha256(data, timestamp) {
        Ok(signature) => {
            let n = copy_out(signature.as_slice(), out);
            proof {
                if n != FAILED {
                    assert(out@.take(n as int) =~= signature@);
                    assert(out@.skip(n as int) =~= old(out)@.skip(n as int));
                }
            }
            n
        },
        Err(_) => FAILED,
    }
}

/// Checks the signature `sign` for `data` with the credential that serves
/// `timestamp`. Returns [`VERIFIED`] where it holds, else [`FAILED`].
pub fn verify(passport: &PassportEntity, data: &[u8], sign: &[u8], timestamp: i64) -> (n: i32)
    ensures
        n == VERIFIED || n == FAILED,
        n == VERIFIED <==> passport.covers(timestamp) && passport.credential_at(
            timestamp,
        ).accepts(data@, sign@, HashStrength::Sha256),
{
    match passport.verify_sha256(data, sign, timestamp) {
        Ok(()) => VERIFIED,
        Err(_) => FAILED,
    }
}

/// Encrypts `data` for the credential that serves `timestamp` and writes the
/// ciphertext to the front of `ciphertext`. Returns the length of the
/// ciphertext, or [`FAILED`] with `ciphertext` untouched.
pub fn encrypt(passport: &PassportEntity, data: &[u8], timestamp: i64, ciphertext: &mut [u8]) -> (n:
    i32)
    ensures
        n == FAILED || n == passport.credential_at(timestamp).modulus_len(),
        n != FAILED <==> passport.covers(timestamp) && passport.credential_at(timestamp).encrypts(
            data@.len(),
        ) && passport.credential_at(timestamp).modulus_len() <= old(ciphertext)@.len()
            && passport.credential_at(timestamp).modulus_len() <= i32::MAX,
        n == FAILED ==> final(ciphertext)@ == old(ciphertext)@,
        n != FAILED ==> n <= old(ciphertext)@.len() && final(ciphertext)@.skip(n as int) == old(
            ciphertext,
        )@.skip(n as int) && passport.credential_at(timestamp).undoes(
            data@,
            final(ciphertext)@.take(n as int),
        ),
{
    match passport.encrypt(data, timestamp) {
        Ok(cipher) => {
            let n = copy_out(cipher.as_slice(), ciphertext);
            proof {
                if n != FAILED {
                    assert(ciphertext@.skip(n as int) =~= old(ciphertext)@.skip(n as int));
                    assert(ciphertext@.take(n as int) =~= cipher@);
                }
            }
            n
        },
        Err(_) => FAILED,
    }
}

/// What [`decrypt`] writes and returns: the text that the credential serving
/// `timestamp` decrypts `ciphertext` to, cut to the length of the buffer, and
/// the number of bytes written; or the buffer as it was, and [`FAILED`].
pub open spec fn decrypted_into(
    passport: PassportEntity,
    ciphertext: Seq<u8>,
    timestamp: i64,
    buffer: Seq<u8>,
) -> (Seq<u8>, int) {
    if !passport.covers(timestamp) {
        (buffer, FAILED as int)
    } else {
        match passport.credential_at(timestamp).decrypted(ciphertext) {
            Some(plain) => {
                let n = vstd::math::min(plain.len() as int, buffer.len() as int);
                if n <= i32::MAX {
                    (plain.take(n) + buffer.skip(n), n)
                } else {
                    (buffer, FAILED as int)
                }
            },
            None => (buffer, FAILED as int),
        }
    }
}

/// Decrypts `plaintext` with the credential that serves `timestamp` and
/// writes as much of the result as fits to the front of `data`. Returns the
/// number of bytes written, or [`FAILED`] with `data` untouched.
pub fn decrypt(passport: &PassportEntity, plaintext: &[u8], data: &mut [u8], timestamp: i64) -> (n:
    i32)
    ensures
        (final(data)@, n as int) == decrypted_into(
            *passport,
            plaintext@,
            timestamp,
            old(data)@,
        ),
{
    match passport.decrypt(plaintext, timestamp) {
        Ok(buf) => copy_prefix(buf.as_slice(), data),
        Err(_) => FAILED,
    }
}

} // verus!
