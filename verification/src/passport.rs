//! The credential store: one credential per time bucket, made all at once
//! when the store is made, and found again by timestamp.
//!
//! A store is never changed after it is made. To rotate the seed or the
//! window, make a new store and put it in the place of the old one.

use std::collections::HashMap;
use vstd::prelude::*;
use crate::bucket::{
    bucket_count,
    bucket_of,
    covered,
    in_span,
    last_bucket,
    lemma_count_from_two,
    lemma_empty_span,
    lemma_empty_window,
    lemma_end_is_covered,
    lemma_nth_in_span,
    lemma_outside_is_not_covered,
    lemma_start_is_first,
    lemma_span_index,
    nth_bucket,
    resolve,
    valid_window,
    MAX_BUCKETS,
};
use crate::error::PassportError;
use crate::primitive::public_pem_text;
use crate::rsa_entity::{HashStrength, RsaEntity};
use crate::rsa_entity_builder::{derivable, derivation_error, derived_numbers, RsaEntityBuilder};

verus! {

/// Whether `e` is the error with which the derivation of the credential of
/// `bucket` ends.
pub open spec fn derivation_fails(
    seed: Seq<u8>,
    bucket: i64,
    bit_size: usize,
    e: PassportError,
) -> bool {
    !derivable(seed, bucket, bit_size) && e == derivation_error(seed, bucket, bit_size)
}

/// Whether the store of the window can be made: the window is valid, and
/// every bucket of it gives a credential.
pub open spec fn openable(
    seed: Seq<u8>,
    start: i64,
    end: i64,
    interval: i64,
    bit_size: usize,
) -> bool {
    &&& valid_window(start as int, end as int, interval as int)
    &&& forall|i: int|
        0 <= i < bucket_count(start as int, end as int, interval as int) ==> derivable(
            seed,
            #[trigger] nth_bucket(bucket_of(start as int, interval as int), interval as int, i)
                as i64,
            bit_size,
        )
}

/// Whether bucket number `i` of the window is the first whose derivation
/// fails, and `e` is the error with which it ends.
pub open spec fn first_failure(
    seed: Seq<u8>,
    start: i64,
    interval: i64,
    bit_size: usize,
    i: int,
    e: PassportError,
) -> bool {
    &&& derivation_fails(
        seed,
        nth_bucket(bucket_of(start as int, interval as int), interval as int, i) as i64,
        bit_size,
        e,
    )
    &&& forall|j: int|
        0 <= j < i ==> derivable(
            seed,
            #[trigger] nth_bucket(bucket_of(start as int, interval as int), interval as int, j)
                as i64,
            bit_size,
        )
}

/// Whether `e` is the error with which making the credentials of a window
/// ends: `IntervalTooSmall` for a window that is not valid, and else the
/// error of the first bucket whose derivation fails.
pub open spec fn generation_fails(
    seed: Seq<u8>,
    start: i64,
    end: i64,
    interval: i64,
    bit_size: usize,
    e: PassportError,
) -> bool {
    if valid_window(start as int, end as int, interval as int) {
        exists|i: int|
            0 <= i < bucket_count(start as int, end as int, interval as int)
                && #[trigger] first_failure(seed, start, interval, bit_size, i, e)
    } else {
        e == PassportError::IntervalTooSmall
    }
}

/// Whether `list` holds the credentials of the window, one for each bucket,
/// first bucket first, each derived from `seed` and its bucket.
pub open spec fn generated(
    list: Seq<(i64, RsaEntity)>,
    seed: Seq<u8>,
    start: i64,
    end: i64,
    interval: i64,
    bit_size: usize,
) -> bool {
    &&& valid_window(start as int, end as int, interval as int)
    &&& list.len() == bucket_count(start as int, end as int, interval as int)
    &&& forall|i: int|
        0 <= i < list.len() ==> (#[trigger] list[i]).0 == nth_bucket(
            bucket_of(start as int, interval as int),
            interval as int,
            i,
        ) && derived_numbers(seed, list[i].0, bit_size) == Some(list[i].1.numbers()) && derivable(
            seed,
            list[i].0,
            bit_size,
        )
}

/// Whether `store` is the store of the window `[start, end]` cut every
/// `interval` seconds, with each credential derived from `seed` and its
/// bucket at `bit_size` bits.
pub open spec fn opened(
    store: PassportEntity,
    seed: Seq<u8>,
    start: i64,
    end: i64,
    interval: i64,
    bit_size: usize,
) -> bool {
    &&& valid_window(start as int, end as int, interval as int)
    &&& store.interval() == interval
    &&& store.len() == bucket_count(start as int, end as int, interval as int)
    &&& store.len() > 0 ==> store.first() == bucket_of(start as int, interval as int)
    &&& forall|bucket: i64| #[trigger]
        store.has_bucket(bucket) ==> derived_numbers(seed, bucket, bit_size) == Some(
            store.credential(bucket).numbers(),
        )
}

/// The credential store.
pub struct PassportEntity {
    certs: HashMap<i64, RsaEntity>,
    interval: i64,
    first: i64,
    count: usize,
}

impl PassportEntity {
    #[verifier::type_invariant]
    spec fn well_formed(self) -> bool {
        &&& self.interval > 0
        &&& self.count <= MAX_BUCKETS
        &&& self.count > 0 ==> nth_bucket(self.first as int, self.interval as int, self.count - 1)
            <= i64::MAX
        &&& forall|bucket: i64| #[trigger]
            self.certs@.contains_key(bucket) <==> self.has_bucket(bucket)
    }

    /// The width of a bucket in seconds.
    pub closed spec fn spec_interval(&self) -> i64 {
        self.interval
    }

    /// The width of a bucket in seconds.
    #[verifier::when_used_as_spec(spec_interval)]
    pub fn interval(&self) -> (seconds: i64)
        ensures
            seconds == self.interval(),
            seconds > 0,
    {
        proof {
            use_type_invariant(self);
        }
        self.interval
    }

    /// The first bucket, where the store has one.
    pub closed spec fn first(&self) -> i64 {
        self.first
    }

    /// The number of buckets.
    pub closed spec fn spec_len(&self) -> usize {
        self.count
    }

    /// The number of buckets.
    #[verifier::when_used_as_spec(spec_len)]
    pub fn len(&self) -> (n: usize)
        ensures
            n == self.len(),
            n <= MAX_BUCKETS,
    {
        proof {
            use_type_invariant(self);
        }
        self.count
    }

    /// Whether `bucket` is a bucket of the store.
    pub open spec fn has_bucket(&self, bucket: i64) -> bool {
        in_span(self.first() as int, self.len() as int, self.interval() as int, bucket as int)
    }

    /// The credential of `bucket`, where the store has that bucket.
    pub closed spec fn credential(&self, bucket: i64) -> RsaEntity {
        self.certs@[bucket]
    }

    /// Whether the store has a bucket for `timestamp`.
    pub open spec fn covers(&self, timestamp: i64) -> bool {
        in_span(
            self.first() as int,
            self.len() as int,
            self.interval() as int,
            bucket_of(timestamp as int, self.interval() as int),
        )
    }

    /// The credential that serves `timestamp`, where the store covers it.
    pub open spec fn credential_at(&self, timestamp: i64) -> RsaEntity {
        self.credential(bucket_of(timestamp as int, self.interval() as int) as i64)
    }

    /// Makes the store for the window `[start, end]`, cut every `interval`
    /// seconds: one credential of `bit_size` bits for each bucket, derived
    /// from `key` and the bucket.
    ///
    /// A window that is not valid is refused with `IntervalTooSmall`. Where
    /// the derivation of a credential fails, its error is returned and no
    /// store is made.
    pub fn new(key: &[u8], start: i64, end: i64, interval: i64, bit_size: usize) -> (r: Result<
        Self,
        PassportError,
    >)
        ensures
            r is Ok <==> openable(key@, start, end, interval, bit_size),
            match r {
                Ok(store) => opened(store, key@, start, end, interval, bit_size),
                Err(e) => generation_fails(key@, start, end, interval, bit_size, e),
            },
    {
        let list = PassportEntity::generate_rsa_entity(key, start, end, interval, bit_size)?;
        let count: usize = list.len();
        let first: i64 = if count > 0 {
            list[0].0
        } else {
            0
        };
        let ghost all = list@;
        let mut list = list;
        let mut certs: HashMap<i64, RsaEntity> = HashMap::new();
        proof {
            assert forall|bucket: i64|
                !(in_span(first as int, count as int, interval as int, bucket as int) && (bucket
                    - first) / (interval as int) >= count) by {
                lemma_span_index(first as int, count as int, interval as int, bucket as int);
            }
        }
        while list.len() > 0
            invariant
                interval > 0,
                all.len() == count,
                forall|i: int|
                    0 <= i < count ==> derived_numbers(key@, (#[trigger] all[i]).0, bit_size)
                        == Some(all[i].1.numbers()),
                list@.len() <= count,
                list@ == all.subrange(0, list@.len() as int),
                forall|i: int|
                    0 <= i < count ==> (#[trigger] all[i]).0 == nth_bucket(
                        first as int,
                        interval as int,
                        i,
                    ),
                forall|bucket: i64| #[trigger]
                    certs@.contains_key(bucket) <==> in_span(
                        first as int,
                        count as int,
                        interval as int,
                        bucket as int,
                    ) && (bucket - first) / (interval as int) >= list@.len(),
                forall|bucket: i64| #[trigger]
                    certs@.contains_key(bucket) ==> 0 <= (bucket - first) / (interval as int)
                        < count && certs@[bucket] == all[(bucket - first) / (interval as int)].1,
            decreases list@.len(),
        {
            let ghost m = list@.len() - 1;
            let (index, et) = list.pop().unwrap();
            proof {
                assert(index == all[m].0);
                lemma_nth_in_span(first as int, count as int, interval as int, m);
                assert forall|bucket: i64| #[trigger]
                    certs@.insert(index, et).contains_key(bucket) <==> in_span(
                        first as int,
                        count as int,
                        interval as int,
                        bucket as int,
                    ) && (bucket - first) / (interval as int) >= m by {
                    lemma_span_index(first as int, count as int, interval as int, bucket as int);
                }
            }
            certs.insert(index, et);
        }
        proof {
            assert forall|bucket: i64| #[trigger]
                certs@.contains_key(bucket) <==> in_span(
                    first as int,
                    count as int,
                    interval as int,
                    bucket as int,
                ) by {
                lemma_span_index(first as int, count as int, interval as int, bucket as int);
            }
            if count > 0 {
                lemma_nth_in_span(first as int, count as int, interval as int, count - 1);
            }
        }
        let ghost map = certs@;
        let store = PassportEntity { certs, interval, first, count };
        proof {
            assert forall|bucket: i64| #[trigger]
                store.has_bucket(bucket) implies derived_numbers(key@, bucket, bit_size)
                == Some(store.credential(bucket).numbers()) by {
                lemma_span_index(first as int, count as int, interval as int, bucket as int);
                let i = (bucket - first) / (interval as int);
                assert(map.contains_key(bucket));
                assert(store.credential(bucket) == all[i].1);
                assert(all[i].0 == bucket);
            }
        }
        Ok(store)
    }

    /// Derives the credentials of the window `[start, end]`: for every bucket
    /// the pair of its id and its credential, first bucket first.
    ///
    /// The buckets are those of `start + i * interval` for `i` from 0 while
    /// that is no more than one interval past `end`.
    pub fn generate_rsa_entity(
        key: &[u8],
        start: i64,
        end: i64,
        interval: i64,
        bit_size: usize,
    ) -> (r: Result<Vec<(i64, RsaEntity)>, PassportError>)
        ensures
            r is Ok <==> openable(key@, start, end, interval, bit_size),
            match r {
                Ok(list) => generated(list@, key@, start, end, interval, bit_size),
                Err(e) => generation_fails(key@, start, end, interval, bit_size, e),
            },
    {
        let count: usize = match PassportEntity::count_buckets(start, end, interval) {
            Some(count) => count,
            None => {
                return Err(PassportError::IntervalTooSmall);
            },
        };
        let mut certs: Vec<(i64, RsaEntity)> = Vec::new();
        if count == 0 {
            return Ok(certs);
        }
        let first: i64 = match resolve(start, interval) {
            Some(first) => first,
            None => {
                return Err(PassportError::IntervalTooSmall);
            },
        };
        let mut cn: i64 = first;
        let mut i: usize = 0;
        while i < count
            invariant
                valid_window(start as int, end as int, interval as int),
                count == bucket_count(start as int, end as int, interval as int),
                first == bucket_of(start as int, interval as int),
                i <= count,
                i < count ==> cn == nth_bucket(first as int, interval as int, i as int),
                certs@.len() == i,
                forall|j: int|
                    0 <= j < i ==> (#[trigger] certs@[j]).0 == nth_bucket(
                        first as int,
                        interval as int,
                        j,
                    ) && derived_numbers(key@, certs@[j].0, bit_size) == Some(
                        certs@[j].1.numbers(),
                    ) && derivable(key@, certs@[j].0, bit_size),
            decreases count - i,
        {
            let rsa_cert = match RsaEntityBuilder::new(key).set_bit_size(
                bit_size,
            ).set_confuse_number(cn).build_pkcs15() {
                Ok(cert) => cert,
                Err(e) => {
                    proof {
                        assert forall|j: int| 0 <= j < i implies derivable(
                            key@,
                            #[trigger] nth_bucket(first as int, interval as int, j) as i64,
                            bit_size,
                        ) by {
                            assert(certs@[j].0 == nth_bucket(first as int, interval as int, j));
                        }
                        assert(first_failure(key@, start, interval, bit_size, i as int, e));
                        assert(!openable(key@, start, end, interval, bit_size));
                    }
                    return Err(e);
                },
            };
            certs.push((cn, rsa_cert));
            i += 1;
            if i < count {
                proof {
                    assert(nth_bucket(first as int, interval as int, i as int) <= nth_bucket(
                        first as int,
                        interval as int,
                        count - 1,
                    )) by (nonlinear_arith)
                        requires
                            i <= count - 1,
                            interval > 0,
                    ;
                    assert(nth_bucket(first as int, interval as int, i as int) == nth_bucket(
                        first as int,
                        interval as int,
                        i - 1,
                    ) + interval) by (nonlinear_arith);
                }
                cn = cn + interval;
            }
        }
        proof {
            assert forall|j: int| 0 <= j < count implies derivable(
                key@,
                #[trigger] nth_bucket(first as int, interval as int, j) as i64,
                bit_size,
            ) by {
                assert(certs@[j].0 == nth_bucket(first as int, interval as int, j));
            }
        }
        Ok(certs)
    }

    /// The number of buckets of the window `[start, end]`, or `None` where
    /// the window is not valid.
    pub fn count_buckets(start: i64, end: i64, interval: i64) -> (r: Option<usize>)
        ensures
            match r {
                Some(count) => valid_window(start as int, end as int, interval as int) && count
                    == bucket_count(start as int, end as int, interval as int),
                None => !valid_window(start as int, end as int, interval as int),
            },
    {
        if interval <= 0 {
            return None;
        }
        let span: i128 = end as i128 + interval as i128 - start as i128;
        if span < 0 {
            return Some(0);
        }
        let steps: i128 = span / (interval as i128);
        if steps >= MAX_BUCKETS as i128 {
            return None;
        }
        let first: i64 = match resolve(start, interval) {
            Some(first) => first,
            None => {
                return None;
            },
        };
        proof {
            assert(0 <= steps * interval <= MAX_BUCKETS * i64::MAX) by (nonlinear_arith)
                requires
                    0 <= steps < MAX_BUCKETS,
                    0 < interval <= i64::MAX,
            ;
        }
        let last: i128 = first as i128 + steps * (interval as i128);
        if last > i64::MAX as i128 {
            return None;
        }
        Some((steps + 1) as usize)
    }

    /// The credential that serves `timestamp_sec`, or `None` where the store
    /// has no bucket for it.
    pub fn get_rsa_entity(&self, timestamp_sec: i64) -> (r: Option<&RsaEntity>)
        ensures
            match r {
                Some(entity) => self.covers(timestamp_sec) && *entity == self.credential_at(
                    timestamp_sec,
                ),
                None => !self.covers(timestamp_sec),
            },
    {
        proof {
            use_type_invariant(self);
        }
        match resolve(timestamp_sec, self.interval) {
            Some(ts) => {
                assert(self.certs@.contains_key(ts) <==> self.has_bucket(ts));
                self.certs.get(&ts)
            },
            None => None,
        }
    }

    /// Signs `data` with the credential that serves `timestamp_sec`.
    pub fn sign_sha256(&self, data: &[u8], timestamp_sec: i64) -> (r: Result<
        Vec<u8>,
        PassportError,
    >)
        ensures
            !self.covers(timestamp_sec) <==> r == Err::<Vec<u8>, PassportError>(
                PassportError::TimestampOutOfRange,
            ),
            r matches Ok(signature) ==> self.credential_at(timestamp_sec).accepts(
                data@,
                signature@,
                HashStrength::Sha256,
            ) && signature@.len() == self.credential_at(timestamp_sec).modulus_len(),
            r matches Err(e) ==> e == PassportError::TimestampOutOfRange || e
                == PassportError::SigningFailed,
            self.covers(timestamp_sec) && self.credential_at(timestamp_sec).too_short_for(
                HashStrength::Sha256,
            ) ==> r is Err,
            self.covers(timestamp_sec) && self.credential_at(timestamp_sec).signs(
                HashStrength::Sha256,
            ) ==> r is Ok,
    {
        let re = match self.get_rsa_entity(timestamp_sec) {
            Some(s) => s,
            None => {
                return Err(PassportError::TimestampOutOfRange);
            },
        };
        re.sign_sha256(data)
    }

    /// Checks `sign` for `data` with the credential that serves
    /// `timestamp_sec`: a signature is accepted only by the credential of the
    /// bucket in which it was made.
    pub fn verify_sha256(&self, data: &[u8], sign: &[u8], timestamp_sec: i64) -> (r: Result<
        (),
        PassportError,
    >)
        ensures
            !self.covers(timestamp_sec) <==> r == Err::<(), PassportError>(
                PassportError::TimestampOutOfRange,
            ),
            r is Ok <==> self.covers(timestamp_sec) && self.credential_at(timestamp_sec).accepts(
                data@,
                sign@,
                HashStrength::Sha256,
            ),
            r matches Err(e) ==> e == PassportError::TimestampOutOfRange || e
                == PassportError::SignatureInvalid,
    {
        let re = match self.get_rsa_entity(timestamp_sec) {
            Some(s) => s,
            None => {
                return Err(PassportError::TimestampOutOfRange);
            },
        };
        re.verify_sha256(data, sign)
    }

    /// Encrypts `data` for the credential that serves `timestamp_sec`.
    pub fn encrypt(&self, data: &[u8], timestamp_sec: i64) -> (r: Result<Vec<u8>, PassportError>)
        ensures
            !self.covers(timestamp_sec) <==> r == Err::<Vec<u8>, PassportError>(
                PassportError::TimestampOutOfRange,
            ),
            r is Ok <==> self.covers(timestamp_sec) && self.credential_at(timestamp_sec).encrypts(
                data@.len(),
            ),
            r matches Ok(cipher) ==> cipher@.len() == self.credential_at(
                timestamp_sec,
            ).modulus_len() && self.credential_at(timestamp_sec).undoes(data@, cipher@),
            r matches Err(e) ==> e == PassportError::TimestampOutOfRange || e
                == PassportError::EncryptionFailed,
    {
        let re = match self.get_rsa_entity(timestamp_sec) {
            Some(s) => s,
            None => {
                return Err(PassportError::TimestampOutOfRange);
            },
        };
        re.encrypt(data)
    }

    /// Decrypts `data` with the credential that serves `timestamp_sec`.
    pub fn decrypt(&self, data: &[u8], timestamp_sec: i64) -> (r: Result<Vec<u8>, PassportError>)
        ensures
            !self.covers(timestamp_sec) <==> r == Err::<Vec<u8>, PassportError>(
                PassportError::TimestampOutOfRange,
            ),
            r matches Ok(plain) ==> plain@.len() <= self.credential_at(
                timestamp_sec,
            ).max_payload(),
            match r {
                Ok(plain) => self.credential_at(timestamp_sec).decrypted(data@) == Some(plain@),
                Err(e) => e == PassportError::TimestampOutOfRange || (e
                    == PassportError::DecryptionFailed && self.credential_at(
                    timestamp_sec,
                ).decrypted(data@) is None),
            },
    {
        let re = match self.get_rsa_entity(timestamp_sec) {
            Some(s) => s,
            None => {
                return Err(PassportError::TimestampOutOfRange);
            },
        };
        re.decrypt(data)
    }

    /// Every bucket with the PEM text of its public key, first bucket first.
    /// Nothing else of a store is meant to be published.
    pub fn to_public_pem(&self) -> (res: Vec<(i64, String)>)
        ensures
            res@.len() == self.len(),
            forall|i: int|
                0 <= i < res@.len() ==> (#[trigger] res@[i]).0 == nth_bucket(
                    self.first() as int,
                    self.interval() as int,
                    i,
                ) && self.has_bucket(res@[i].0) && Some(res@[i].1@) == self.credential(
                    res@[i].0,
                ).public_pem(),
            forall|i: int, j: int| 0 <= i < j < res@.len() ==> res@[i].0 < res@[j].0,
    {
        proof {
            use_type_invariant(self);
        }
        let mut res: Vec<(i64, String)> = Vec::new();
        let mut index: i64 = self.first;
        let mut i: usize = 0;
        while i < self.count
            invariant
                self.well_formed(),
                i <= self.count,
                i < self.count ==> index == nth_bucket(
                    self.first as int,
                    self.interval as int,
                    i as int,
                ),
                res@.len() == i,
                forall|j: int|
                    0 <= j < i ==> (#[trigger] res@[j]).0 == nth_bucket(
                        self.first as int,
                        self.interval as int,
                        j,
                    ) && self.has_bucket(res@[j].0) && Some(res@[j].1@) == self.credential(
                        res@[j].0,
                    ).public_pem(),
            decreases self.count - i,
        {
            proof {
                lemma_nth_in_span(
                    self.first as int,
                    self.count as int,
                    self.interval as int,
                    i as int,
                );
                assert(self.certs@.contains_key(index) <==> self.has_bucket(index));
            }
            let cert = self.certs.get(&index).unwrap();
            let pem = match cert.write_public_pem() {
                Ok(pem) => pem,
                Err(_) => String::new(),
            };
            res.push((index, pem));
            i += 1;
            if i < self.count {
                proof {
                    assert(nth_bucket(self.first as int, self.interval as int, i as int)
                        <= nth_bucket(self.first as int, self.interval as int, self.count - 1))
                        by (nonlinear_arith)
                        requires
                            i <= self.count - 1,
                            self.interval > 0,
                    ;
                    assert(nth_bucket(self.first as int, self.interval as int, i as int)
                        == nth_bucket(self.first as int, self.interval as int, i - 1)
                        + self.interval) by (nonlinear_arith);
                }
                index = index + self.interval;
            }
        }
        proof {
            assert forall|i: int, j: int| 0 <= i < j < res@.len() implies res@[i].0 < res@[j].0 by {
                assert(nth_bucket(self.first as int, self.interval as int, i) < nth_bucket(
                    self.first as int,
                    self.interval as int,
                    j,
                )) by (nonlinear_arith)
                    requires
                        i < j,
                        self.interval > 0,
                ;
            }
        }
        res
    }

    /// What [`to_public_pem`](Self::to_public_pem) of the store for the
    /// window would give, without making the store.
    pub fn print_public_pem(
        key: &[u8],
        start: i64,
        end: i64,
        interval: i64,
        bit_size: usize,
    ) -> (r: Result<Vec<(i64, String)>, PassportError>)
        ensures
            r is Ok <==> openable(key@, start, end, interval, bit_size),
            match r {
                Ok(certs) => {
                    &&& valid_window(start as int, end as int, interval as int)
                    &&& certs@.len() == bucket_count(start as int, end as int, interval as int)
                    &&& forall|i: int|
                        0 <= i < certs@.len() ==> (#[trigger] certs@[i]).0 == nth_bucket(
                            bucket_of(start as int, interval as int),
                            interval as int,
                            i,
                        ) && derived_numbers(key@, certs@[i].0, bit_size) is Some && Some(
                            certs@[i].1@,
                        ) == public_pem_text(
                            derived_numbers(key@, certs@[i].0, bit_size).unwrap().take(2),
                        )
                },
                Err(e) => generation_fails(key@, start, end, interval, bit_size, e),
            },
    {
        let list = PassportEntity::generate_rsa_entity(key, start, end, interval, bit_size)?;
        let mut certs: Vec<(i64, String)> = Vec::new();
        let mut i: usize = 0;
        while i < list.len()
            invariant
                generated(list@, key@, start, end, interval, bit_size),
                i <= list@.len(),
                certs@.len() == i,
                forall|j: int|
                    0 <= j < i ==> (#[trigger] certs@[j]).0 == list@[j].0 && Some(certs@[j].1@)
                        == list@[j].1.public_pem(),
            decreases list@.len() - i,
        {
            let s = match list[i].1.write_public_pem() {
                Ok(pem) => pem,
                Err(_) => String::new(),
            };
            certs.push((list[i].0, s));
            i += 1;
        }
        Ok(certs)
    }
}

/// What the store of a window covers is what the window covers: from the
/// bucket of `start` to the end of the bucket one interval past `end`.
pub proof fn lemma_store_covers_window(
    store: PassportEntity,
    seed: Seq<u8>,
    start: i64,
    end: i64,
    interval: i64,
    bit_size: usize,
    timestamp: i64,
)
    requires
        opened(store, seed, start, end, interval, bit_size),
    ensures
        store.covers(timestamp) == covered(
            start as int,
            end as int,
            interval as int,
            timestamp as int,
        ),
{
    if store.len() == 0 {
        lemma_empty_span(
            store.first() as int,
            0,
            interval as int,
            bucket_of(timestamp as int, interval as int),
        );
        lemma_empty_span(
            bucket_of(start as int, interval as int),
            0,
            interval as int,
            bucket_of(timestamp as int, interval as int),
        );
    }
}

/// The store of a window that does not end before it starts covers both
/// `start`, whose bucket is its first, and `end`.
pub proof fn lemma_store_covers_bounds(
    store: PassportEntity,
    seed: Seq<u8>,
    start: i64,
    end: i64,
    interval: i64,
    bit_size: usize,
)
    requires
        opened(store, seed, start, end, interval, bit_size),
        start <= end,
    ensures
        store.covers(start),
        store.covers(end),
        store.first() == bucket_of(start as int, interval as int),
{
    lemma_store_covers_window(store, seed, start, end, interval, bit_size, start);
    lemma_store_covers_window(store, seed, start, end, interval, bit_size, end);
    lemma_count_from_two(start as int, end as int, interval as int);
    lemma_start_is_first(start as int, end as int, interval as int);
    lemma_end_is_covered(start as int, end as int, interval as int);
}

/// The store of a window covers no timestamp before its first bucket, and
/// none at or after the end of its last: every operation on such a timestamp
/// fails with `TimestampOutOfRange`.
pub proof fn lemma_store_leaves_outside(
    store: PassportEntity,
    seed: Seq<u8>,
    start: i64,
    end: i64,
    interval: i64,
    bit_size: usize,
    timestamp: i64,
)
    requires
        opened(store, seed, start, end, interval, bit_size),
        store.len() == 0 || timestamp < bucket_of(start as int, interval as int) || timestamp
            >= last_bucket(start as int, end as int, interval as int) + interval,
    ensures
        !store.covers(timestamp),
{
    lemma_store_covers_window(store, seed, start, end, interval, bit_size, timestamp);
    if store.len() == 0 {
        lemma_empty_window(start as int, end as int, interval as int, timestamp as int);
    } else {
        lemma_outside_is_not_covered(start as int, end as int, interval as int, timestamp as int);
    }
}

/// Timestamps of one bucket are served by one credential: what is signed at
/// one of them is accepted at the other, and what is encrypted for one is
/// decrypted at the other as at the first.
pub proof fn lemma_same_bucket_same_credential(store: PassportEntity, first: i64, second: i64)
    requires
        bucket_of(first as int, store.interval() as int) == bucket_of(
            second as int,
            store.interval() as int,
        ),
    ensures
        store.covers(first) == store.covers(second),
        store.credential_at(first) == store.credential_at(second),
{
}

/// What the store has signed at one timestamp, it verifies at every
/// timestamp of the same bucket: a signature that `sign_sha256` hands out is
/// accepted by the credential of its bucket, and that credential serves the
/// whole bucket.
pub proof fn lemma_signed_is_verified_in_bucket(
    store: PassportEntity,
    data: Seq<u8>,
    signature: Seq<u8>,
    signed_at: i64,
    checked_at: i64,
)
    requires
        store.covers(signed_at),
        store.credential_at(signed_at).accepts(data, signature, HashStrength::Sha256),
        bucket_of(signed_at as int, store.interval() as int) == bucket_of(
            checked_at as int,
            store.interval() as int,
        ),
    ensures
        store.covers(checked_at),
        store.credential_at(checked_at).verified(data, signature, HashStrength::Sha256) is Ok,
{
    lemma_same_bucket_same_credential(store, signed_at, checked_at);
}

/// What the store has encrypted at one timestamp, it decrypts at every
/// timestamp of the same bucket, as long as the key pair of that bucket is
/// sound.
pub proof fn lemma_encrypted_is_decrypted_in_bucket(
    store: PassportEntity,
    plain: Seq<u8>,
    cipher: Seq<u8>,
    sealed_at: i64,
    opened_at: i64,
)
    requires
        store.covers(sealed_at),
        store.credential_at(sealed_at).undoes(plain, cipher),
        store.credential_at(sealed_at).sound(),
        bucket_of(sealed_at as int, store.interval() as int) == bucket_of(
            opened_at as int,
            store.interval() as int,
        ),
    ensures
        store.covers(opened_at),
        store.credential_at(opened_at).decrypted(cipher) == Some(plain),
{
    lemma_same_bucket_same_credential(store, sealed_at, opened_at);
}

} // verus!
