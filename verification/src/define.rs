//! The default store, and the four operations as they are handed to callers
//! that hold a store of their own.
//!
//! Nothing here is global: whoever wants one store for a whole process makes
//! it once, keeps it behind a lock, and passes it to these functions. To
//! change it, make the new store first and swap it in when it is complete.

use vstd::prelude::*;
use vstd::string::StringSliceAdditionalSpecFns;
use crate::bucket::nth_bucket;
use crate::error::{or_fail, PassportError};
use crate::passport::{generation_fails, openable, opened, PassportEntity};
use crate::rsa_entity::HashStrength;

verus! {

/// The first second of the default store's window: 2023-02-07 00:00:00 UTC.
pub const DEFAULT_START: i64 = 1_675_728_000;

/// The last second of the default store's window: 2123-02-07 00:00:00 UTC.
pub const DEFAULT_END: i64 = 4_831_401_600;

/// The interval of the default store: ten years of twelve months of thirty
/// days, in seconds.
pub const DEFAULT_INTERVAL: i64 = 311_040_000;

/// The bit size of the default store's keys.
pub const DEFAULT_STORE_BIT_SIZE: usize = 1024;

/// How a bound of a time range is written: `2023-02-07 00:00:00`.
pub const TIME_FORMAT: &'static str = "%Y-%m-%d %H:%M:%S";

/// The seed of the default store.
pub const DEFAULT_KEY: &'static str = "wd_passport_default_key";

/// `chrono::ParseError`: why a text is no time. The library only tells it
/// from success.
#[verifier::external_type_specification]
#[verifier::external_body]
pub struct ExParseError(chrono::ParseError);

/// The seconds since 1970-01-01 00:00:00 UTC of the time that `text` gives
/// when read as UTC in the strftime `format`, or `None` where it gives none.
pub uninterp spec fn utc_seconds(text: Seq<char>, format: Seq<char>) -> Option<int>;

/// Calls `TimeZone::datetime_from_str` of `chrono::Utc` on `text` and
/// `format`, then `DateTime::timestamp`. Neither looks at the clock, the
/// locale or the time zone of the machine: what comes back is named
/// [`utc_seconds`].
#[verifier::external_body]
#[allow(deprecated)]
fn parse_utc(text: &str, format: &str) -> (r: Result<i64, chrono::ParseError>)
    ensures
        match r {
            Ok(seconds) => utc_seconds(text@, format@) == Some(seconds as int),
            Err(_) => utc_seconds(text@, format@) is None,
        },
{
    chrono::TimeZone::datetime_from_str(&chrono::Utc, text, format).map(|time| time.timestamp())
}

/// The time that `text` gives in [`TIME_FORMAT`], in seconds since the epoch,
/// or `InvalidTime`.
pub fn parse_time(text: &str) -> (r: Result<i64, PassportError>)
    ensures
        match r {
            Ok(seconds) => utc_seconds(text@, TIME_FORMAT@) == Some(seconds as int),
            Err(e) => e == PassportError::InvalidTime && utc_seconds(text@, TIME_FORMAT@) is None,
        },
{
    or_fail(parse_utc(text, TIME_FORMAT), PassportError::InvalidTime)
}

/// Makes the store for a window that is given as text: `start` and `end` in
/// [`TIME_FORMAT`], read as UTC, and `interval` in seconds.
///
/// A bound that cannot be read gives `InvalidTime`, `start` first. An
/// interval beyond the 64-bit timestamps gives `IntervalTooSmall`, as does
/// every window that is not valid. The store that comes back is complete:
/// put it in the place of the old one only then.
pub fn init_passport(key: &[u8], bit_size: usize, start: &str, end: &str, interval: u64) -> (r:
    Result<PassportEntity, PassportError>)
        ensures
            r is Ok <==> {
                &&& utc_seconds(start@, TIME_FORMAT@) is Some
                &&& utc_seconds(end@, TIME_FORMAT@) is Some
                &&& interval <= i64::MAX
                &&& openable(
                    key@,
                    utc_seconds(start@, TIME_FORMAT@).unwrap() as i64,
                    utc_seconds(end@, TIME_FORMAT@).unwrap() as i64,
                    interval as i64,
                    bit_size,
                )
            },
            match r {
                Ok(store) => {
                    &&& utc_seconds(start@, TIME_FORMAT@) is Some
                    &&& utc_seconds(end@, TIME_FORMAT@) is Some
                    &&& interval <= i64::MAX
                    &&& opened(
                        store,
                        key@,
                        utc_seconds(start@, TIME_FORMAT@).unwrap() as i64,
                        utc_seconds(end@, TIME_FORMAT@).unwrap() as i64,
                        interval as i64,
                        bit_size,
                    )
                },
                Err(e) => {
                    if utc_seconds(start@, TIME_FORMAT@) is None || utc_seconds(
                        end@,
                        TIME_FORMAT@,
                    ) is None {
                        e == PassportError::InvalidTime
                    } else if interval > i64::MAX {
                        e == PassportError::IntervalTooSmall
                    } else {
                        generation_fails(
                            key@,
                            utc_seconds(start@, TIME_FORMAT@).unwrap() as i64,
                            utc_seconds(end@, TIME_FORMAT@).unwrap() as i64,
                            interval as i64,
                            bit_size,
                            e,
                        )
                    }
                },
            },
{
    let start = parse_time(start)?;
    let end = parse_time(end)?;
    if interval > i64::MAX as u64 {
        return Err(PassportError::IntervalTooSmall);
    }
    PassportEntity::new(key, start, end, interval as i64, bit_size)
}

/// Makes the default store: the window from [`DEFAULT_START`] to
/// [`DEFAULT_END`], cut every [`DEFAULT_INTERVAL`] seconds, with keys of
/// [`DEFAULT_STORE_BIT_SIZE`] bits derived from the bytes of [`DEFAULT_KEY`].
pub fn default_passport() -> (r: Result<PassportEntity, PassportError>)
    ensures
        r is Ok <==> openable(
            DEFAULT_KEY.spec_bytes(),
            DEFAULT_START,
            DEFAULT_END,
            DEFAULT_INTERVAL,
            DEFAULT_STORE_BIT_SIZE,
        ),
        match r {
            Ok(store) => opened(
                store,
                DEFAULT_KEY.spec_bytes(),
                DEFAULT_START,
                DEFAULT_END,
                DEFAULT_INTERVAL,
                DEFAULT_STORE_BIT_SIZE,
            ),
            Err(e) => generation_fails(
                DEFAULT_KEY.spec_bytes(),
                DEFAULT_START,
                DEFAULT_END,
                DEFAULT_INTERVAL,
                DEFAULT_STORE_BIT_SIZE,
                e,
            ),
        },
{
    PassportEntity::new(
        DEFAULT_KEY.as_bytes(),
        DEFAULT_START,
        DEFAULT_END,
        DEFAULT_INTERVAL,
        DEFAULT_STORE_BIT_SIZE,
    )
}

/// Encrypts `data` for the credential of `passport` that serves
/// `timestamp_sec`.
pub fn rsa_sha256_encrypt(passport: &PassportEntity, data: &[u8], timestamp_sec: i64) -> (r:
    Result<Vec<u8>, PassportError>)
    ensures
        !passport.covers(timestamp_sec) <==> r == Err::<Vec<u8>, PassportError>(
            PassportError::TimestampOutOfRange,
        ),
        r is Ok <==> passport.covers(timestamp_sec) && passport.credential_at(
            timestamp_sec,
        ).encrypts(data@.len()),
        r matches Ok(cipher) ==> cipher@.len() == passport.credential_at(
            timestamp_sec,
        ).modulus_len() && passport.credential_at(timestamp_sec).undoes(data@, cipher@),
        r matches Err(e) ==> e == PassportError::TimestampOutOfRange || e
            == PassportError::EncryptionFailed,
{
    passport.encrypt(data, timestamp_sec)
}

/// Decrypts `data` with the credential of `passport` that serves
/// `timestamp_sec`.
pub fn rsa_sha256_decrypt(passport: &PassportEntity, data: &[u8], timestamp_sec: i64) -> (r:
    Result<Vec<u8>, PassportError>)
    ensures
        !passport.covers(timestamp_sec) <==> r == Err::<Vec<u8>, PassportError>(
            PassportError::TimestampOutOfRange,
        ),
        r matches Ok(plain) ==> plain@.len() <= passport.credential_at(
            timestamp_sec,
        ).max_payload(),
        match r {
            Ok(plain) => passport.credential_at(timestamp_sec).decrypted(data@) == Some(plain@),
            Err(e) => e == PassportError::TimestampOutOfRange || (e
                == PassportError::DecryptionFailed && passport.credential_at(
                timestamp_sec,
            ).decrypted(data@) is None),
        },
{
    passport.decrypt(data, timestamp_sec)
}

/// Signs `data` under SHA-256 with the credential of `passport` that serves
/// `timestamp_sec`.
pub fn rsa_sha256_sign(passport: &PassportEntity, data: &[u8], timestamp_sec: i64) -> (r: Result<
    Vec<u8>,
    PassportError,
>)
    ensures
        !passport.covers(timestamp_sec) <==> r == Err::<Vec<u8>, PassportError>(
            PassportError::TimestampOutOfRange,
        ),
        r matches Ok(signature) ==> passport.credential_at(timestamp_sec).accepts(
            data@,
            signature@,
            HashStrength::Sha256,
        ) && signature@.len() == passport.credential_at(timestamp_sec).modulus_len(),
        r matches Err(e) ==> e == PassportError::TimestampOutOfRange || e
            == PassportError::SigningFailed,
        passport.covers(timestamp_sec) && passport.credential_at(timestamp_sec).too_short_for(
            HashStrength::Sha256,
        ) ==> r is Err,
        passport.covers(timestamp_sec) && passport.credential_at(timestamp_sec).signs(
            HashStrength::Sha256,
        ) ==> r is Ok,
{
    passport.sign_sha256(data, timestamp_sec)
}

/// Checks `sign` for `data` under SHA-256 with the credential of `passport`
/// that serves `timestamp_sec`.
pub fn rsa_sha156_verify(
    passport: &PassportEntity,
    data: &[u8],
    sign: &[u8],
    timestamp_sec: i64,
) -> (r: Result<(), PassportError>)
    ensures
        !passport.covers(timestamp_sec) <==> r == Err::<(), PassportError>(
            PassportError::TimestampOutOfRange,
        ),
        r is Ok <==> passport.covers(timestamp_sec) && passport.credential_at(
            timestamp_sec,
        ).accepts(data@, sign@, HashStrength::Sha256),
        r matches Err(e) ==> e == PassportError::TimestampOutOfRange || e
            == PassportError::SignatureInvalid,
{
    passport.verify_sha256(data, sign, timestamp_sec)
}

/// Every bucket of `passport` with the PEM text of its public key, first
/// bucket first.
pub fn format_public_pem(passport: &PassportEntity) -> (res: Vec<(i64, String)>)
    ensures
        res@.len() == passport.len(),
        forall|i: int|
            0 <= i < res@.len() ==> (#[trigger] res@[i]).0 == nth_bucket(
                passport.first() as int,
                passport.interval() as int,
                i,
            ) && passport.has_bucket(res@[i].0) && Some(res@[i].1@) == passport.credential(
                res@[i].0,
            ).public_pem(),
        forall|i: int, j: int| 0 <= i < j < res@.len() ==> res@[i].0 < res@[j].0,
{
    passport.to_public_pem()
}

} // verus!
