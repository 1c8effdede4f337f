//! Per-epoch mix key material bound to its durable replay cache.
//!
//! A `MixKey` owns one epoch's private key and the two-tier replay set:
//! an in-memory approximate membership filter in front of a durable
//! key-value store.  Its invariant: every tag durably stored is also
//! reflected in the filter, so the filter can yield false positives but
//! never false negatives.

use vstd::prelude::*;

use std::collections::hash_map::RandomState;

use crate::codec::{bytes_eq, le64_encode, le64_of};
use crate::constants::{KEY_SIZE, SPHINX_PACKET_SIZE, SPHINX_REPLAY_TAG_SIZE, FLUSH_FREQUENCY};
use crate::errors::MixKeyError;
use crate::store::{
    bloom_bits, bloom_contains, bloom_contents, bloom_insert, bloom_with_size, derive_public_key,
    generate_key_bytes, open_store, public_key_of, store_contents, store_get, store_insert,
    store_flush, store_keys,
};

verus! {

/// Number of hash functions the membership filter uses; with ten bits per
/// expected item this sizes the filter for roughly a one-percent
/// false-positive rate.
pub const BLOOM_NUM_HASHES: u32 = 7;

/// The reserved store key under which the epoch number is recorded,
/// the bytes of `"epoch"`.
pub open spec fn epoch_record_key() -> Seq<u8> {
    seq![101u8, 112u8, 111u8, 99u8, 104u8]
}

/// The reserved store key under which the private key is recorded,
/// the bytes of `"private_key"`.
pub open spec fn key_record_key() -> Seq<u8> {
    seq![112u8, 114u8, 105u8, 118u8, 97u8, 116u8, 101u8, 95u8, 107u8, 101u8, 121u8]
}

fn epoch_record_key_bytes() -> (r: Vec<u8>)
    ensures
        r@ == epoch_record_key(),
{
    let mut v: Vec<u8> = Vec::new();
    v.push(101);
    v.push(112);
    v.push(111);
    v.push(99);
    v.push(104);
    proof {
        assert(v@ =~= epoch_record_key());
    }
    v
}

fn key_record_key_bytes() -> (r: Vec<u8>)
    ensures
        r@ == key_record_key(),
{
    let mut v: Vec<u8> = Vec::new();
    v.push(112);
    v.push(114);
    v.push(105);
    v.push(118);
    v.push(97);
    v.push(116);
    v.push(101);
    v.push(95);
    v.push(107);
    v.push(101);
    v.push(121);
    proof {
        assert(v@ =~= key_record_key());
    }
    v
}

/// Settle the epoch-sanity check of an opened store.  `stored` is what
/// the store held under the reserved epoch key: a missing record means
/// a fresh store whose record must be written; a record equal to the
/// epoch's little-endian bytes lets the open proceed; anything else is
/// another epoch's store and fails with `LoadCacheFailed`.
pub fn epoch_record_decision(stored: &Option<Vec<u8>>, epoch: u64) -> (r: Result<
    bool,
    MixKeyError,
>)
    ensures
        r == Ok::<bool, MixKeyError>(true) <==> stored is None,
        r == Ok::<bool, MixKeyError>(false) <==> (stored matches Some(b) && b@ == le64_of(epoch)),
        r == Err::<bool, MixKeyError>(MixKeyError::LoadCacheFailed) <==> (stored matches Some(b)
            && b@ != le64_of(epoch)),
        r is Err ==> r == Err::<bool, MixKeyError>(MixKeyError::LoadCacheFailed),
{
    match stored {
        None => Ok(true),
        Some(b) => {
            let record = le64_encode(epoch);
            if bytes_eq(b, &record) {
                Ok(false)
            } else {
                Err(MixKeyError::LoadCacheFailed)
            }
        },
    }
}

/// Settle the private-key record of an opened store: a record of the
/// key's full width is the key, a missing record calls for a fresh key,
/// and a record of any other width is corrupt and fails with `KeyError`.
pub fn key_record_decision(stored: Option<Vec<u8>>) -> (r: Result<Option<Vec<u8>>, MixKeyError>)
    ensures
        r matches Ok(out) ==> out == stored,
        r is Ok <==> (stored is None || (stored matches Some(b) && b@.len() == KEY_SIZE)),
        r is Err ==> r == Err::<Option<Vec<u8>>, MixKeyError>(MixKeyError::KeyError),
{
    match stored {
        None => Ok(None),
        Some(b) => {
            if b.len() == KEY_SIZE {
                Ok(Some(b))
            } else {
                Err(MixKeyError::KeyError)
            }
        },
    }
}

/// A fixed-width replay-detection tag derived during a Sphinx unwrap.
#[derive(Clone, Debug)]
pub struct Tag {
    bytes: Vec<u8>,
}

impl View for Tag {
    type V = Seq<u8>;

    closed spec fn view(&self) -> Seq<u8> {
        self.bytes@
    }
}

impl Tag {
    /// Tags carry exactly the replay-tag width.
    pub open spec fn wf(self) -> bool {
        self@.len() == SPHINX_REPLAY_TAG_SIZE
    }

    pub fn new(bytes: Vec<u8>) -> (t: Tag)
        requires
            bytes@.len() == SPHINX_REPLAY_TAG_SIZE,
        ensures
            t.wf(),
            t@ == bytes@,
    {
        Tag { bytes }
    }

    pub fn to_vec(&self) -> (r: Vec<u8>)
        ensures
            r@ == self@,
    {
        self.bytes.clone()
    }
}

/// One epoch's key material and replay set.
pub struct MixKey {
    filter: bloom::BloomFilter<RandomState, RandomState>,
    cache: sled::Db,
    private_key: Vec<u8>,
    epoch: u64,
}

impl MixKey {
    /// The set of replay tags recorded so far: the fixed-width keys of
    /// the durable store (the reserved records are shorter and do not
    /// qualify).
    pub closed spec fn replay_set(self) -> Set<Seq<u8>> {
        Set::new(
            |k: Seq<u8>|
                store_contents(self.cache).dom().contains(k) && k.len()
                    == SPHINX_REPLAY_TAG_SIZE,
        )
    }

    pub closed spec fn epoch_spec(self) -> u64 {
        self.epoch
    }

    pub closed spec fn key_bytes(self) -> Seq<u8> {
        self.private_key@
    }

    /// The value the durable store holds under `key`, if any.
    pub closed spec fn stored_record(self, key: Seq<u8>) -> Option<Seq<u8>> {
        if store_contents(self.cache).dom().contains(key) {
            Some(store_contents(self.cache)[key])
        } else {
            None
        }
    }

    /// Well-formedness: the filter is real, the key has its full width,
    /// and every durably stored tag is reflected in the filter.
    pub closed spec fn wf(self) -> bool {
        &&& bloom_bits(self.filter) >= 1
        &&& self.private_key@.len() == KEY_SIZE
        &&& forall|k: Seq<u8>|
            #[trigger] store_contents(self.cache).dom().contains(k) && k.len()
                == SPHINX_REPLAY_TAG_SIZE ==> bloom_contents(self.filter).contains(k)
    }

    /// Open or create the durable replay store for `epoch` under
    /// `base_dir`, check the stored epoch record against the requested
    /// epoch, load or generate the private key, and warm the filter from
    /// the stored tags.
    ///
    /// The filter is sized for the expected number of packets in one
    /// epoch at `line_rate` bytes per second.
    pub fn new(line_rate: u64, epoch: u64, epoch_duration: u16, base_dir: String) -> (r: Result<
        MixKey,
        MixKeyError,
    >)
        ensures
            r matches Ok(k) ==> k.wf() && k.epoch_spec() == epoch && k.key_bytes().len()
                == KEY_SIZE,
            r matches Ok(k) ==> k.stored_record(epoch_record_key()) == Some(le64_of(epoch))
                && k.stored_record(key_record_key()) == Some(k.key_bytes()),
    {
        // Sizing: expected items per epoch, ten filter bits per item,
        // half a tag's width of writeback cache per expected item.
        let per_second: u64 = line_rate / (SPHINX_PACKET_SIZE as u64);
        let expected: u64 = match per_second.checked_mul(epoch_duration as u64) {
            Some(v) => v,
            None => u64::MAX,
        };
        let expected: u64 = if expected > (u32::MAX as u64) {
            u32::MAX as u64
        } else {
            expected
        };
        let bits64: u64 = match expected.checked_mul(10) {
            Some(v) => v,
            None => u64::MAX,
        };
        let bits64: u64 = if bits64 < 1 {
            1
        } else {
            bits64
        };
        let num_bits: usize = if bits64 > (usize::MAX as u64) {
            usize::MAX
        } else {
            bits64 as usize
        };
        let cache_capacity: u64 = match expected.checked_mul(SPHINX_REPLAY_TAG_SIZE as u64) {
            Some(v) => v / 2,
            None => u64::MAX / 2,
        };

        // The on-disk layout: one store per epoch, in a directory named
        // by the epoch.
        let mut cache = match open_store(&base_dir, "mix_key.", epoch, cache_capacity,
            FLUSH_FREQUENCY) {
            Ok(db) => db,
            Err(_) => {
                return Err(MixKeyError::CreateCacheFailed);
            },
        };

        // Epoch sanity: a stored epoch record must match the requested
        // epoch; a fresh store gets one written.
        let epoch_key = epoch_record_key_bytes();
        let epoch_record = le64_encode(epoch);
        let stored_epoch = match store_get(&cache, &epoch_key) {
            Err(_) => {
                return Err(MixKeyError::IoError);
            },
            Ok(v) => v,
        };
        let must_write = match epoch_record_decision(&stored_epoch, epoch) {
            Ok(b) => b,
            Err(e) => {
                return Err(e);
            },
        };
        if must_write {
            match store_insert(&mut cache, &epoch_key, &epoch_record) {
                Ok(_) => {},
                Err(_) => {
                    return Err(MixKeyError::CreateCacheFailed);
                },
            }
        }
        proof {
            assert(store_contents(cache).dom().contains(epoch_record_key()));
            assert(store_contents(cache)[epoch_record_key()] == le64_of(epoch));
        }

        // Private key: load the stored one, or generate and persist a
        // fresh one.
        let key_key = key_record_key_bytes();
        let stored_key = match store_get(&cache, &key_key) {
            Err(_) => {
                return Err(MixKeyError::IoError);
            },
            Ok(v) => v,
        };
        let loaded = match key_record_decision(stored_key) {
            Ok(v) => v,
            Err(e) => {
                return Err(e);
            },
        };
        let private_key: Vec<u8> = match loaded {
            Some(blob) => blob,
            None => {
                let fresh = match generate_key_bytes() {
                    Some(kb) => kb,
                    None => {
                        return Err(MixKeyError::KeyError);
                    },
                };
                match store_insert(&mut cache, &key_key, &fresh) {
                    Ok(_) => {},
                    Err(_) => {
                        return Err(MixKeyError::CreateCacheFailed);
                    },
                }
                fresh
            },
        };
        proof {
            assert(epoch_record_key() != key_record_key());
            assert(store_contents(cache)[epoch_record_key()] == le64_of(epoch));
            assert(store_contents(cache).dom().contains(key_record_key()));
            assert(store_contents(cache)[key_record_key()] == private_key@);
        }

        // Warm the filter with every stored tag, so that no durably
        // recorded tag can ever be missed.
        let stored_keys = match store_keys(&cache) {
            Ok(v) => v,
            Err(_) => {
                return Err(MixKeyError::IoError);
            },
        };
        let mut filter = bloom_with_size(num_bits, BLOOM_NUM_HASHES);
        let mut i: usize = 0;
        while i < stored_keys.len()
            invariant
                i <= stored_keys@.len(),
                bloom_bits(filter) >= 1,
                forall|j: int|
                    0 <= j < i ==> bloom_contents(filter).contains(#[trigger] stored_keys@[j]@),
            decreases stored_keys@.len() - i,
        {
            bloom_insert(&mut filter, &stored_keys[i]);
            i += 1;
        }

        Ok(MixKey { filter, cache, private_key, epoch })
    }

    pub fn private_key(&self) -> (r: &Vec<u8>)
        ensures
            r@ == self.key_bytes(),
    {
        &self.private_key
    }

    pub fn public_key(&self) -> (r: Vec<u8>)
        requires
            self.wf(),
        ensures
            r@ == public_key_of(self.key_bytes()),
    {
        derive_public_key(&self.private_key)
    }

    pub fn epoch(&self) -> (r: u64)
        ensures
            r == self.epoch_spec(),
    {
        self.epoch
    }

    /// Whether `tag` was seen before, recording it either way: the filter
    /// screens, the durable store decides, and a novel tag is added to
    /// both tiers.
    pub fn is_replay(&mut self, tag: Tag) -> (r: Result<bool, MixKeyError>)
        requires
            old(self).wf(),
            tag.wf(),
        ensures
            final(self).wf(),
            final(self).epoch_spec() == old(self).epoch_spec(),
            final(self).key_bytes() == old(self).key_bytes(),
            final(self).stored_record(epoch_record_key()) == old(self).stored_record(
                epoch_record_key(),
            ),
            final(self).stored_record(key_record_key()) == old(self).stored_record(
                key_record_key(),
            ),
            r matches Ok(b) ==> b == old(self).replay_set().contains(tag@)
                && final(self).replay_set() == old(self).replay_set().insert(tag@),
            r matches Err(e) ==> e == MixKeyError::IoError
                && (final(self).replay_set() == old(self).replay_set()
                    || final(self).replay_set() == old(self).replay_set().insert(tag@)),
    {
        proof {
            assert(tag@ != epoch_record_key());
            assert(tag@ != key_record_key());
        }
        let tv = tag.to_vec();
        let maybe_replay = bloom_contains(&self.filter, &tv);
        if !maybe_replay {
            // The filter has never seen it, so the store cannot hold it:
            // the tag is novel.
            proof {
                assert(!old(self).replay_set().contains(tag@));
            }
            bloom_insert(&mut self.filter, &tv);
            let empty: Vec<u8> = Vec::new();
            match store_insert(&mut self.cache, &tv, &empty) {
                Ok(_) => {
                    proof {
                        assert(self.replay_set() =~= old(self).replay_set().insert(tag@));
                    }
                    Ok(false)
                },
                Err(_) => {
                    proof {
                        assert(self.replay_set() =~= old(self).replay_set() || self.replay_set()
                            =~= old(self).replay_set().insert(tag@));
                    }
                    Err(MixKeyError::IoError)
                },
            }
        } else {
            match store_get(&self.cache, &tv) {
                Err(_) => Err(MixKeyError::IoError),
                Ok(Some(_)) => {
                    // Durably recorded: a true replay.
                    proof {
                        assert(old(self).replay_set().contains(tag@));
                        assert(self.replay_set() =~= old(self).replay_set().insert(tag@));
                    }
                    Ok(true)
                },
                Ok(None) => {
                    // A filter false positive: record the tag now.
                    proof {
                        assert(!old(self).replay_set().contains(tag@));
                    }
                    bloom_insert(&mut self.filter, &tv);
                    let empty: Vec<u8> = Vec::new();
                    match store_insert(&mut self.cache, &tv, &empty) {
                        Ok(_) => {
                            proof {
                                assert(self.replay_set() =~= old(self).replay_set().insert(
                                    tag@,
                                ));
                            }
                            Ok(false)
                        },
                        Err(_) => {
                            proof {
                                assert(self.replay_set() =~= old(self).replay_set() || self
                                    .replay_set() =~= old(self).replay_set().insert(tag@));
                            }
                            Err(MixKeyError::IoError)
                        },
                    }
                },
            }
        }
    }

    /// Force buffered replay records to disk.
    pub fn flush(&mut self) -> (r: Result<(), MixKeyError>)
        requires
            old(self).wf(),
        ensures
            final(self).wf(),
            final(self).epoch_spec() == old(self).epoch_spec(),
            final(self).key_bytes() == old(self).key_bytes(),
            final(self).replay_set() == old(self).replay_set(),
            final(self).stored_record(epoch_record_key()) == old(self).stored_record(
                epoch_record_key(),
            ),
            final(self).stored_record(key_record_key()) == old(self).stored_record(
                key_record_key(),
            ),
            r matches Err(e) ==> e == MixKeyError::IoError,
    {
        match store_flush(&mut self.cache) {
            Ok(_) => {
                proof {
                    assert(self.replay_set() =~= old(self).replay_set());
                }
                Ok(())
            },
            Err(_) => {
                proof {
                    assert(self.replay_set() =~= old(self).replay_set());
                }
                Err(MixKeyError::IoError)
            },
        }
    }
}

/// Whether epoch `e` lies in the retention window around `current`:
/// the previous, the current or the next epoch.
pub open spec fn in_retention(e: u64, current: u64) -> bool {
    e + 1 >= current && e <= current + 1
}

/// A worker-local snapshot of one epoch's key material.
#[derive(Clone, Debug)]
pub struct ShadowKey {
    pub epoch: u64,
    pub private_key: Vec<u8>,
}

/// The supervisor's collection of per-epoch mix keys, kept for the
/// retention window around the current epoch.
pub struct MixKeys {
    keys: Vec<MixKey>,
}

impl MixKeys {
    pub closed spec fn len_spec(self) -> nat {
        self.keys@.len()
    }

    /// Whether a key for epoch `e` is held.
    pub closed spec fn contains_epoch(self, e: u64) -> bool {
        exists|i: int| 0 <= i < self.keys@.len() && self.keys@[i].epoch_spec() == e
    }

    pub closed spec fn index_of(self, e: u64) -> int {
        choose|i: int| 0 <= i < self.keys@.len() && self.keys@[i].epoch_spec() == e
    }

    /// The replay set of the key held for epoch `e`.
    pub closed spec fn replay_set_of(self, e: u64) -> Set<Seq<u8>> {
        self.keys@[self.index_of(e)].replay_set()
    }

    /// The private-key bytes of the key held for epoch `e`.
    pub closed spec fn key_bytes_of(self, e: u64) -> Seq<u8> {
        self.keys@[self.index_of(e)].key_bytes()
    }

    /// Every held key is well-formed and no two belong to the same epoch.
    pub closed spec fn wf(self) -> bool {
        &&& forall|i: int| 0 <= i < self.keys@.len() ==> (#[trigger] self.keys@[i]).wf()
        &&& forall|i: int, j: int|
            0 <= i < j < self.keys@.len() ==> self.keys@[i].epoch_spec()
                != self.keys@[j].epoch_spec()
    }

    proof fn lemma_index_unique(self, i: int, e: u64)
        requires
            self.wf(),
            0 <= i < self.keys@.len(),
            self.keys@[i].epoch_spec() == e,
        ensures
            self.contains_epoch(e),
            self.index_of(e) == i,
    {
        assert(self.contains_epoch(e));
        let j = self.index_of(e);
        assert(0 <= j < self.keys@.len() && self.keys@[j].epoch_spec() == e);
        if i < j {
            assert(self.keys@[i].epoch_spec() != self.keys@[j].epoch_spec());
        } else if j < i {
            assert(self.keys@[j].epoch_spec() != self.keys@[i].epoch_spec());
        }
    }

    pub fn new() -> (r: MixKeys)
        ensures
            r.wf(),
            r.len_spec() == 0,
            forall|e: u64| !r.contains_epoch(e),
    {
        MixKeys { keys: Vec::new() }
    }

    fn find(&self, e: u64) -> (r: Option<usize>)
        ensures
            r matches Some(i) ==> i < self.keys@.len() && self.keys@[i as int].epoch_spec() == e,
            r is None ==> !self.contains_epoch(e),
    {
        let mut i: usize = 0;
        while i < self.keys.len()
            invariant
                i <= self.keys@.len(),
                forall|j: int| 0 <= j < i ==> self.keys@[j].epoch_spec() != e,
            decreases self.keys@.len() - i,
        {
            if self.keys[i].epoch() == e {
                return Some(i);
            }
            i += 1;
        }
        None
    }

    pub fn has(&self, e: u64) -> (r: bool)
        ensures
            r == self.contains_epoch(e),
    {
        match self.find(e) {
            Some(i) => {
                proof {
                    assert(self.contains_epoch(e));
                }
                true
            },
            None => false,
        }
    }

    /// Open or create the key for `epoch` if it is not already held.
    pub fn ensure(&mut self, line_rate: u64, epoch: u64, epoch_duration: u16, base_dir: &String)
        -> (r: Result<(), MixKeyError>)
        requires
            old(self).wf(),
        ensures
            final(self).wf(),
            r is Ok ==> final(self).contains_epoch(epoch),
            old(self).contains_epoch(epoch) ==> r is Ok,
            r is Err ==> *final(self) == *old(self),
            forall|e: u64|
                old(self).contains_epoch(e) ==> final(self).contains_epoch(e) && final(self).key_bytes_of(e) == old(self).key_bytes_of(e) && final(self).replay_set_of(e)
                    == old(self).replay_set_of(e),
            forall|e: u64|
                final(self).contains_epoch(e) ==> old(self).contains_epoch(e) || e == epoch,
    {
        match self.find(epoch) {
            Some(_) => {
                proof {
                    assert(self.contains_epoch(epoch));
                }
                Ok(())
            },
            None => {
                let k = match MixKey::new(line_rate, epoch, epoch_duration, base_dir.clone()) {
                    Ok(k) => k,
                    Err(err) => {
                        return Err(err);
                    },
                };
                let ghost prior = self.keys@;
                self.keys.push(k);
                proof {
                    assert(self.keys@ =~= prior.push(k));
                    assert(self.keys@[prior.len() as int].epoch_spec() == epoch);
                    assert(self.wf());
                    self.lemma_index_unique(prior.len() as int, epoch);
                    assert forall|e: u64| old(self).contains_epoch(e) implies self.contains_epoch(
                        e,
                    ) && self.key_bytes_of(e) == old(self).key_bytes_of(e) && self.replay_set_of(
                        e,
                    ) == old(self).replay_set_of(e) by {
                        let i = old(self).index_of(e);
                        assert(0 <= i < prior.len() && prior[i].epoch_spec() == e);
                        assert(self.keys@[i] == prior[i]);
                        self.lemma_index_unique(i, e);
                        old(self).lemma_index_unique(i, e);
                    }
                }
                Ok(())
            },
        }
    }

    /// Take the key for epoch `e` out of the collection, if held.
    fn extract_epoch(&mut self, e: u64) -> (r: Option<MixKey>)
        requires
            old(self).wf(),
        ensures
            final(self).wf(),
            r is Some <==> old(self).contains_epoch(e),
            r matches Some(k) ==> k.wf() && k.epoch_spec() == e && k.key_bytes() == old(self).key_bytes_of(e) && k.replay_set() == old(self).replay_set_of(e),
            !final(self).contains_epoch(e),
            forall|e2: u64|
                e2 != e ==> (final(self).contains_epoch(e2) <==> old(self).contains_epoch(e2)),
            forall|e2: u64|
                e2 != e && old(self).contains_epoch(e2) ==> final(self).key_bytes_of(e2) == old(self).key_bytes_of(e2) && final(self).replay_set_of(e2) == old(self).replay_set_of(e2),
    {
        match self.find(e) {
            None => {
                proof {
                    assert(!self.contains_epoch(e));
                }
                None
            },
            Some(i) => {
                let ghost prior = self.keys@;
                let k = self.keys.remove(i);
                proof {
                    assert(self.keys@ =~= prior.remove(i as int));
                    old(self).lemma_index_unique(i as int, e);
                    // Every remaining element comes from `prior`, one
                    // position earlier past the removal point.
                    assert forall|j: int| 0 <= j < self.keys@.len() implies #[trigger] self.keys@[j] == if j < i {
                        prior[j]
                    } else {
                        prior[j + 1]
                    } by {}
                    assert(self.wf());
                    assert(!self.contains_epoch(e)) by {
                        if self.contains_epoch(e) {
                            let j = choose|j: int|
                                0 <= j < self.keys@.len() && self.keys@[j].epoch_spec() == e;
                            if j < i {
                                assert(prior[j].epoch_spec() == e);
                            } else {
                                assert(prior[j + 1].epoch_spec() == e);
                            }
                        }
                    }
                    assert forall|e2: u64| e2 != e && old(self).contains_epoch(e2) implies self
                        .contains_epoch(e2) && self.key_bytes_of(e2) == old(self).key_bytes_of(e2)
                        && self.replay_set_of(e2) == old(self).replay_set_of(e2) by {
                        let j = old(self).index_of(e2);
                        assert(0 <= j < prior.len() && prior[j].epoch_spec() == e2);
                        old(self).lemma_index_unique(j, e2);
                        if j < i {
                            assert(self.keys@[j] == prior[j]);
                            self.lemma_index_unique(j, e2);
                        } else {
                            assert(j != i);
                            assert(self.keys@[j - 1] == prior[j]);
                            self.lemma_index_unique(j - 1, e2);
                        }
                    }
                    assert forall|e2: u64| e2 != e && self.contains_epoch(e2) implies old(self).contains_epoch(e2) by {
                        let j = choose|j: int|
                            0 <= j < self.keys@.len() && self.keys@[j].epoch_spec() == e2;
                        if j < i {
                            assert(prior[j].epoch_spec() == e2);
                        } else {
                            assert(prior[j + 1].epoch_spec() == e2);
                        }
                    }
                }
                Some(k)
            },
        }
    }

    /// Drop and close the keys for every epoch outside the retention
    /// window `current - 1 ..= current + 1`.
    pub fn prune(&mut self, current: u64)
        requires
            old(self).wf(),
        ensures
            final(self).wf(),
            forall|e: u64|
                final(self).contains_epoch(e) <==> (old(self).contains_epoch(e) && in_retention(
                    e,
                    current,
                )),
            forall|e: u64|
                final(self).contains_epoch(e) ==> final(self).key_bytes_of(e) == old(self).key_bytes_of(e) && final(self).replay_set_of(e) == old(self).replay_set_of(e),
    {
        let prev = if current >= 1 {
            self.extract_epoch(current - 1)
        } else {
            None
        };
        let ghost gprev = prev;
        let cur = self.extract_epoch(current);
        let ghost gcur = cur;
        let next = if current < u64::MAX {
            self.extract_epoch(current + 1)
        } else {
            None
        };
        let ghost gnext = next;
        let mut kept: Vec<MixKey> = Vec::new();
        match prev {
            Some(k) => kept.push(k),
            None => {},
        }
        match cur {
            Some(k) => kept.push(k),
            None => {},
        }
        match next {
            Some(k) => kept.push(k),
            None => {},
        }
        let ghost kept_view = kept@;
        self.keys = kept;
        proof {
            assert(self.keys@ =~= kept_view);
            // Where each retained key landed.
            let ghost pi: int = 0;
            let ghost ci: int = if gprev is Some { 1 } else { 0 };
            let ghost ni: int = kept_view.len() - 1;
            assert(gprev matches Some(k) ==> kept_view[pi] == k);
            assert(gcur matches Some(k) ==> kept_view[ci] == k);
            assert(gnext matches Some(k) ==> kept_view[ni] == k);
            assert(self.wf());
            assert forall|e: u64| self.contains_epoch(e) implies (old(self).contains_epoch(e)
                && in_retention(e, current)) by {
                let j = choose|j: int|
                    0 <= j < self.keys@.len() && self.keys@[j].epoch_spec() == e;
            }
            assert forall|e: u64| old(self).contains_epoch(e) && in_retention(e, current) implies
                self.contains_epoch(e) by {
                assert(e + 1 >= current && e <= current + 1);
                if current >= 1 && e == (current - 1) as u64 {
                    assert(gprev is Some);
                    assert(self.keys@[pi].epoch_spec() == e);
                } else if e == current {
                    assert(gcur is Some);
                    assert(self.keys@[ci].epoch_spec() == e);
                } else {
                    assert(current < u64::MAX && e == (current + 1) as u64);
                    assert(gnext is Some);
                    assert(self.keys@[ni].epoch_spec() == e);
                }
            }
            assert forall|e: u64| self.contains_epoch(e) implies self.key_bytes_of(e) == old(self).key_bytes_of(e) && self.replay_set_of(e) == old(self).replay_set_of(e) by {
                let j = self.index_of(e);
                assert(0 <= j < self.keys@.len() && self.keys@[j].epoch_spec() == e);
            }
        }
    }

    /// Whether `tag` was seen before under epoch `e`'s key, recording it
    /// either way; the caller must hold a key for `e`.
    pub fn check_replay(&mut self, e: u64, tag: Tag) -> (r: Result<bool, MixKeyError>)
        requires
            old(self).wf(),
            old(self).contains_epoch(e),
            tag.wf(),
        ensures
            final(self).wf(),
            forall|e2: u64| final(self).contains_epoch(e2) <==> old(self).contains_epoch(e2),
            forall|e2: u64|
                old(self).contains_epoch(e2) ==> final(self).key_bytes_of(e2) == old(self).key_bytes_of(e2),
            forall|e2: u64|
                e2 != e && old(self).contains_epoch(e2) ==> final(self).replay_set_of(e2) == old(self).replay_set_of(e2),
            r matches Ok(b) ==> b == old(self).replay_set_of(e).contains(tag@) && final(self).replay_set_of(e) == old(self).replay_set_of(e).insert(tag@),
            r matches Err(err) ==> err == MixKeyError::IoError && (final(self).replay_set_of(e)
                == old(self).replay_set_of(e) || final(self).replay_set_of(e) == old(self).replay_set_of(e).insert(tag@)),
    {
        let i = match self.find(e) {
            Some(i) => i,
            None => {
                proof {
                    assert(false);
                }
                return Err(MixKeyError::IoError);
            },
        };
        let ghost prior = self.keys@;
        proof {
            old(self).lemma_index_unique(i as int, e);
        }
        let mut k = self.keys.remove(i);
        let r = k.is_replay(tag);
        let ghost k_after = k;
        self.keys.insert(i, k);
        proof {
            assert(self.keys@ =~= prior.update(i as int, k_after));
            assert forall|j: int| 0 <= j < self.keys@.len() implies #[trigger] self.keys@[j]
                == if j == i {
                k_after
            } else {
                prior[j]
            } by {}
            assert(self.wf());
            self.lemma_index_unique(i as int, e);
            assert forall|e2: u64| e2 != e && old(self).contains_epoch(e2) implies self
                .contains_epoch(e2) && self.key_bytes_of(e2) == old(self).key_bytes_of(e2)
                && self.replay_set_of(e2) == old(self).replay_set_of(e2) by {
                let j = old(self).index_of(e2);
                assert(0 <= j < prior.len() && prior[j].epoch_spec() == e2);
                assert(j != i);
                assert(self.keys@[j] == prior[j]);
                self.lemma_index_unique(j, e2);
                old(self).lemma_index_unique(j, e2);
            }
            assert forall|e2: u64| self.contains_epoch(e2) implies old(self).contains_epoch(
                e2,
            ) by {
                let j = choose|j: int|
                    0 <= j < self.keys@.len() && self.keys@[j].epoch_spec() == e2;
                if j == i {
                    assert(prior[i as int].epoch_spec() == e2);
                } else {
                    assert(prior[j].epoch_spec() == e2);
                }
            }
            assert forall|e2: u64| old(self).contains_epoch(e2) implies self.contains_epoch(
                e2,
            ) by {
                let j = old(self).index_of(e2);
                if j == i {
                    assert(self.keys@[i as int].epoch_spec() == e2);
                } else {
                    assert(self.keys@[j].epoch_spec() == e2);
                }
            }
        }
        r
    }

    /// Project the held key material into a worker-supplied snapshot:
    /// one entry per held epoch, carrying its private-key bytes.
    pub fn shadow(&self, out: &mut Vec<ShadowKey>)
        requires
            self.wf(),
        ensures
            final(out)@.len() == self.len_spec(),
            forall|i: int|
                0 <= i < final(out)@.len() ==> self.contains_epoch(
                    (#[trigger] final(out)@[i]).epoch,
                ) && final(out)@[i].private_key@ == self.key_bytes_of(final(out)@[i].epoch),
            forall|e: u64|
                #[trigger] self.contains_epoch(e) ==> exists|i: int|
                    0 <= i < final(out)@.len() && final(out)@[i].epoch == e,
    {
        out.clear();
        let mut i: usize = 0;
        while i < self.keys.len()
            invariant
                self.wf(),
                i <= self.keys@.len(),
                out@.len() == i,
                forall|j: int|
                    0 <= j < i ==> (#[trigger] out@[j]).epoch == self.keys@[j].epoch_spec()
                        && out@[j].private_key@ == self.keys@[j].key_bytes(),
            decreases self.keys@.len() - i,
        {
            let entry = ShadowKey {
                epoch: self.keys[i].epoch(),
                private_key: self.keys[i].private_key().clone(),
            };
            out.push(entry);
            i += 1;
        }
        proof {
            assert forall|j: int| 0 <= j < out@.len() implies self.contains_epoch(
                (#[trigger] out@[j]).epoch,
            ) && out@[j].private_key@ == self.key_bytes_of(out@[j].epoch) by {
                self.lemma_index_unique(j, out@[j].epoch);
            }
            assert forall|e: u64| #[trigger] self.contains_epoch(e) implies exists|j: int|
                0 <= j < out@.len() && out@[j].epoch == e by {
                let j = self.index_of(e);
                assert(out@[j].epoch == e);
            }
        }
    }
}

/// Replay idempotence: two successive `is_replay` calls on a fresh
/// replay set, as its contract describes them — each call answers
/// whether the tag was in the set and then records it — answer `false`
/// and then `true`, and the second recording changes nothing.
pub proof fn lemma_replay_idempotent(
    s: Set<Seq<u8>>,
    t: Seq<u8>,
    b1: bool,
    s1: Set<Seq<u8>>,
    b2: bool,
    s2: Set<Seq<u8>>,
)
    requires
        s == Set::<Seq<u8>>::empty(),
        b1 == s.contains(t),
        s1 == s.insert(t),
        b2 == s1.contains(t),
        s2 == s1.insert(t),
    ensures
        !b1,
        b2,
        s2 == s1,
{
    assert(s2 =~= s1);
}

} // verus!
