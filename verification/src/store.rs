//! Trusted boundary around the outside crates the replay cache is built
//! on: the durable key-value store (sled), the approximate membership
//! filter (bloom), and X25519 key material (ecdh_wrapper with rand).
//!
//! Each wrapper's contract states only what the crate's source shows; the
//! verified replay-cache logic in `mix_key` rests on these contracts.

use vstd::prelude::*;

use std::collections::hash_map::RandomState;

use crate::constants::KEY_SIZE;

verus! {

#[verifier::external_type_specification]
#[verifier::external_body]
pub struct ExDb(sled::Db);

#[verifier::external_type_specification]
#[verifier::external_body]
pub struct ExSledError(sled::Error);

#[verifier::external_type_specification]
#[verifier::external_body]
#[verifier::reject_recursive_types(R)]
#[verifier::reject_recursive_types(S)]
pub struct ExBloomFilter<R, S>(bloom::BloomFilter<R, S>);

/// The key-value pairs a durable store holds.
pub uninterp spec fn store_contents(db: sled::Db) -> Map<Seq<u8>, Seq<u8>>;

/// The set of items that were inserted into a membership filter.
pub uninterp spec fn bloom_contents(f: bloom::BloomFilter<RandomState, RandomState>) -> Set<
    Seq<u8>,
>;

/// The number of bits a membership filter was created with.
pub uninterp spec fn bloom_bits(f: bloom::BloomFilter<RandomState, RandomState>) -> nat;

/// The X25519 public key derived from 32 private-key bytes.
pub uninterp spec fn public_key_of(sk: Seq<u8>) -> Seq<u8>;

/// Relies on sled::Config::open: opens or creates the durable store in
/// the directory named `dir_prefix` followed by the decimal digits of
/// `epoch`, under `base_dir`, with the given writeback cache size and
/// flush interval.  What the store holds is whatever the directory held.
#[verifier::external_body]
pub(crate) fn open_store(
    base_dir: &String,
    dir_prefix: &str,
    epoch: u64,
    cache_capacity: u64,
    flush_ms: u64,
) -> (r: Result<sled::Db, sled::Error>) {
    let path = std::path::Path::new(base_dir.as_str()).join(format!("{}{}", dir_prefix, epoch));
    sled::Config::new()
        .path(path)
        .cache_capacity(cache_capacity)
        .use_compression(false)
        .flush_every_ms(Some(flush_ms))
        .open()
}

/// Relies on sled::Tree::get: returns the value stored under `key`, or
/// `None` if the store holds no such key.
#[verifier::external_body]
pub(crate) fn store_get(db: &sled::Db, key: &Vec<u8>) -> (r: Result<
    Option<Vec<u8>>,
    sled::Error,
>)
    ensures
        r matches Ok(Some(v)) ==> store_contents(*db).dom().contains(key@) && v@ == store_contents(
            *db,
        )[key@],
        r matches Ok(None) ==> !store_contents(*db).dom().contains(key@),
{
    match db.get(key.as_slice()) {
        Ok(ov) => Ok(ov.map(|v| v.to_vec())),
        Err(e) => Err(e),
    }
}

/// Relies on sled::Tree::insert: stores `value` under `key`.  On failure
/// the store holds either the old contents or the old contents with this
/// one pair set.
#[verifier::external_body]
pub(crate) fn store_insert(db: &mut sled::Db, key: &Vec<u8>, value: &Vec<u8>) -> (r: Result<
    (),
    sled::Error,
>)
    ensures
        r is Ok ==> store_contents(*final(db)) == store_contents(*old(db)).insert(key@, value@),
        r is Err ==> store_contents(*final(db)) == store_contents(*old(db)) || store_contents(
            *final(db),
        ) == store_contents(*old(db)).insert(key@, value@),
{
    match db.insert(key.as_slice(), value.as_slice()) {
        Ok(_) => Ok(()),
        Err(e) => Err(e),
    }
}

/// Relies on sled::Tree::flush: forces buffered writes to disk without
/// changing what the store holds.
#[verifier::external_body]
pub(crate) fn store_flush(db: &mut sled::Db) -> (r: Result<(), sled::Error>)
    ensures
        store_contents(*final(db)) == store_contents(*old(db)),
{
    match db.flush() {
        Ok(_) => Ok(()),
        Err(e) => Err(e),
    }
}

/// Relies on sled::Tree::iter: lists every key the store holds.
#[verifier::external_body]
pub(crate) fn store_keys(db: &sled::Db) -> (r: Result<Vec<Vec<u8>>, sled::Error>)
    ensures
        r matches Ok(v) ==> forall|i: int|
            0 <= i < v@.len() ==> store_contents(*db).dom().contains(#[trigger] v@[i]@),
        r matches Ok(v) ==> forall|k: Seq<u8>|
            #[trigger] store_contents(*db).dom().contains(k) ==> exists|i: int|
                0 <= i < v@.len() && v@[i]@ == k,
{
    let mut out: Vec<Vec<u8>> = Vec::new();
    for item in db.iter() {
        match item {
            Ok((k, _)) => out.push(k.to_vec()),
            Err(e) => return Err(e),
        }
    }
    Ok(out)
}

/// Relies on bloom::BloomFilter::with_size: a fresh filter with the given
/// number of bits and hash functions; nothing has been inserted into it.
#[verifier::external_body]
pub(crate) fn bloom_with_size(num_bits: usize, num_hashes: u32) -> (f: bloom::BloomFilter<
    RandomState,
    RandomState,
>)
    requires
        num_bits >= 1,
    ensures
        bloom_contents(f) == Set::<Seq<u8>>::empty(),
        bloom_bits(f) == num_bits,
{
    bloom::BloomFilter::with_size(num_bits, num_hashes)
}

/// Relies on bloom::ASMS::insert: adds `item` to the filter.
#[verifier::external_body]
pub(crate) fn bloom_insert(f: &mut bloom::BloomFilter<RandomState, RandomState>, item: &Vec<u8>)
    requires
        bloom_bits(*old(f)) >= 1,
    ensures
        bloom_contents(*final(f)) == bloom_contents(*old(f)).insert(item@),
        bloom_bits(*final(f)) == bloom_bits(*old(f)),
{
    bloom::ASMS::insert(f, item);
}

/// Relies on bloom::ASMS::contains: may report items that were never
/// inserted, but never misses one that was.
#[verifier::external_body]
pub(crate) fn bloom_contains(f: &bloom::BloomFilter<RandomState, RandomState>, item: &Vec<u8>)
    -> (r: bool)
    requires
        bloom_bits(*f) >= 1,
    ensures
        bloom_contents(*f).contains(item@) ==> r,
{
    bloom::ASMS::contains(f, item)
}

/// Relies on ecdh_wrapper::PrivateKey::generate with rand's OS entropy
/// source: 32 fresh private-key bytes, or `None` if the entropy source is
/// unavailable.
#[verifier::external_body]
pub(crate) fn generate_key_bytes() -> (r: Option<Vec<u8>>)
    ensures
        r matches Some(b) ==> b@.len() == KEY_SIZE,
{
    let mut rng = match rand::os::OsRng::new() {
        Ok(g) => g,
        Err(_) => return None,
    };
    match ecdh_wrapper::PrivateKey::generate(&mut rng) {
        Ok(k) => Some(k.to_vec()),
        Err(_) => None,
    }
}

/// Relies on ecdh_wrapper::PrivateKey::public_key: the public half of the
/// X25519 key pair with the given private bytes.
#[verifier::external_body]
pub(crate) fn derive_public_key(sk: &Vec<u8>) -> (r: Vec<u8>)
    requires
        sk@.len() == KEY_SIZE,
    ensures
        r@ == public_key_of(sk@),
        r@.len() == KEY_SIZE,
{
    match ecdh_wrapper::PrivateKey::from_bytes(sk.as_slice()) {
        Ok(k) => k.public_key().to_vec(),
        Err(_) => Vec::new(),
    }
}

} // verus!
