use rand::Rng;

use mix_server::constants::{KEY_SIZE, SPHINX_REPLAY_TAG_SIZE};
use mix_server::codec::le64_encode;
use mix_server::errors::MixKeyError;
use mix_server::mix_key::{epoch_record_decision, key_record_decision, MixKey, MixKeys, Tag};

fn random_tag() -> Tag {
    let mut rng = rand::os::OsRng::new().unwrap();
    let mut raw = [0u8; SPHINX_REPLAY_TAG_SIZE];
    rng.fill_bytes(&mut raw);
    Tag::new(raw.to_vec())
}

#[test]
fn basic_mix_key_test() {
    let cache_dir = tempfile::TempDir::new().unwrap();
    let cache_dir_path = cache_dir.path();
    let epoch_duration = 1;
    let epoch = 1;
    let mut mix_key = MixKey::new(
        128974848,
        epoch,
        epoch_duration,
        cache_dir_path.to_str().unwrap().to_string(),
    )
    .unwrap();
    let tag = random_tag();
    assert_eq!(mix_key.is_replay(tag.clone()).unwrap(), false);
    assert_eq!(mix_key.is_replay(tag.clone()).unwrap(), true);
    assert_eq!(mix_key.is_replay(tag).unwrap(), true);
    mix_key.flush().unwrap();
    let priv_key = mix_key.private_key().clone();
    drop(mix_key);

    let new_mix_key = MixKey::new(
        128974848,
        epoch,
        epoch_duration,
        cache_dir_path.to_str().unwrap().to_string(),
    )
    .unwrap();
    assert_eq!(epoch, new_mix_key.epoch());
    assert_eq!(priv_key, *new_mix_key.private_key());
}

#[test]
fn replay_survives_restart() {
    let cache_dir = tempfile::TempDir::new().unwrap();
    let dir = cache_dir.path().to_str().unwrap().to_string();
    let tag = random_tag();
    {
        let mut mix_key = MixKey::new(128974848, 7, 1, dir.clone()).unwrap();
        assert_eq!(mix_key.is_replay(tag.clone()).unwrap(), false);
        assert_eq!(mix_key.is_replay(tag.clone()).unwrap(), true);
        mix_key.flush().unwrap();
    }
    let mut reopened = MixKey::new(128974848, 7, 1, dir).unwrap();
    assert_eq!(reopened.is_replay(tag).unwrap(), true);
}

#[test]
fn epoch_sanity_on_restart() {
    let cache_dir = tempfile::TempDir::new().unwrap();
    let dir = cache_dir.path().to_str().unwrap().to_string();
    let original_key = {
        let mut mix_key = MixKey::new(128974848, 5, 1, dir.clone()).unwrap();
        mix_key.flush().unwrap();
        mix_key.private_key().clone()
    };
    assert_eq!(original_key.len(), KEY_SIZE);

    // Lay out epoch 6's directory as a stray copy of another epoch's
    // store: its epoch record says 5, so opening it as epoch 6 is
    // refused.
    {
        let db = sled::open(cache_dir.path().join("mix_key.6")).unwrap();
        db.insert("epoch".as_bytes(), mix_server::codec::le64_encode(5)).unwrap();
        db.flush().unwrap();
    }
    match MixKey::new(128974848, 6, 1, dir.clone()) {
        Err(MixKeyError::LoadCacheFailed) => {},
        other => panic!("expected LoadCacheFailed, got {:?}", other.map(|k| k.epoch())),
    }

    // Reopening the untouched directory under its own epoch succeeds
    // with the same key bytes.
    let reopened = MixKey::new(128974848, 5, 1, dir).unwrap();
    assert_eq!(*reopened.private_key(), original_key);
}

#[test]
fn public_key_is_stable() {
    let cache_dir = tempfile::TempDir::new().unwrap();
    let dir = cache_dir.path().to_str().unwrap().to_string();
    let (pk1, sk1) = {
        let mix_key = MixKey::new(128974848, 2, 1, dir.clone()).unwrap();
        let r = (mix_key.public_key(), mix_key.private_key().clone());
        r
    };
    assert_eq!(pk1.len(), KEY_SIZE);
    let reopened = MixKey::new(128974848, 2, 1, dir).unwrap();
    assert_eq!(*reopened.private_key(), sk1);
    assert_eq!(reopened.public_key(), pk1);
    // The public half really is derived from the private bytes.
    let expected = ecdh_wrapper::PrivateKey::from_bytes(&sk1).unwrap().public_key().to_vec();
    assert_eq!(pk1, expected);
}

#[test]
fn mix_keys_ensure_has_prune() {
    let cache_dir = tempfile::TempDir::new().unwrap();
    let dir = cache_dir.path().to_str().unwrap().to_string();
    let mut keys = MixKeys::new();
    assert!(!keys.has(100));
    keys.ensure(128974848, 100, 1, &dir).unwrap();
    keys.ensure(128974848, 101, 1, &dir).unwrap();
    keys.ensure(128974848, 103, 1, &dir).unwrap();
    // A second ensure of a held epoch is a no-op.
    keys.ensure(128974848, 100, 1, &dir).unwrap();
    assert!(keys.has(100));
    assert!(keys.has(101));
    assert!(keys.has(103));
    assert!(!keys.has(102));

    keys.prune(101);
    assert!(keys.has(100));
    assert!(keys.has(101));
    assert!(!keys.has(103));
}

#[test]
fn mix_keys_shadow_lists_held_epochs() {
    let cache_dir = tempfile::TempDir::new().unwrap();
    let dir = cache_dir.path().to_str().unwrap().to_string();
    let mut keys = MixKeys::new();
    keys.ensure(128974848, 41, 1, &dir).unwrap();
    keys.ensure(128974848, 42, 1, &dir).unwrap();
    let mut shadow = Vec::new();
    keys.shadow(&mut shadow);
    assert_eq!(shadow.len(), 2);
    let mut epochs: Vec<u64> = shadow.iter().map(|s| s.epoch).collect();
    epochs.sort();
    assert_eq!(epochs, vec![41, 42]);
    for s in &shadow {
        assert_eq!(s.private_key.len(), KEY_SIZE);
    }
    // Each epoch got its own freshly generated key.
    assert_ne!(shadow[0].private_key, shadow[1].private_key);
}

#[test]
fn epoch_record_decision_cases() {
    assert_eq!(epoch_record_decision(&None, 7), Ok(true));
    assert_eq!(epoch_record_decision(&Some(le64_encode(7)), 7), Ok(false));
    assert_eq!(
        epoch_record_decision(&Some(le64_encode(8)), 7),
        Err(MixKeyError::LoadCacheFailed)
    );
    assert_eq!(
        epoch_record_decision(&Some(vec![1, 2, 3]), 7),
        Err(MixKeyError::LoadCacheFailed)
    );
}

#[test]
fn key_record_decision_cases() {
    assert_eq!(key_record_decision(None), Ok(None));
    assert_eq!(key_record_decision(Some(vec![9u8; KEY_SIZE])), Ok(Some(vec![9u8; KEY_SIZE])));
    assert_eq!(key_record_decision(Some(vec![9u8; 7])), Err(MixKeyError::KeyError));
}

#[test]
fn unusable_store_path_is_create_cache_failed() {
    // A plain file where the store's base directory should be.
    let file = tempfile::NamedTempFile::new().unwrap();
    let path = file.path().to_str().unwrap().to_string();
    match MixKey::new(128974848, 1, 1, path) {
        Err(MixKeyError::CreateCacheFailed) => {},
        other => panic!("expected CreateCacheFailed, got {:?}", other.map(|k| k.epoch())),
    }
}

#[test]
fn corrupt_key_record_is_key_error() {
    let cache_dir = tempfile::TempDir::new().unwrap();
    let dir = cache_dir.path().to_str().unwrap().to_string();
    // A store whose epoch record is right but whose key record has the
    // wrong width.
    {
        let db = sled::open(cache_dir.path().join("mix_key.9")).unwrap();
        db.insert("epoch".as_bytes(), mix_server::codec::le64_encode(9)).unwrap();
        db.insert("private_key".as_bytes(), vec![1u8; 7]).unwrap();
        db.flush().unwrap();
    }
    match MixKey::new(128974848, 9, 1, dir) {
        Err(MixKeyError::KeyError) => {},
        other => panic!("expected KeyError, got {:?}", other.map(|k| k.epoch())),
    }
}

#[test]
fn check_replay_records_per_epoch() {
    let cache_dir = tempfile::TempDir::new().unwrap();
    let dir = cache_dir.path().to_str().unwrap().to_string();
    let mut keys = MixKeys::new();
    keys.ensure(128974848, 10, 1, &dir).unwrap();
    keys.ensure(128974848, 11, 1, &dir).unwrap();
    let tag = random_tag();
    assert_eq!(keys.check_replay(10, tag.clone()).unwrap(), false);
    assert_eq!(keys.check_replay(10, tag.clone()).unwrap(), true);
    // The same tag under another epoch's key is independent.
    assert_eq!(keys.check_replay(11, tag.clone()).unwrap(), false);
    assert_eq!(keys.check_replay(11, tag).unwrap(), true);
}
