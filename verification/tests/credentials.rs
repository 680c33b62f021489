//! The keychain in memory.

use rimaia_core::error::{Error, ErrorCode};
use rimaia_core::testing::credentials::{KeychainMemory, MemoryStore, Secret, StoreStatus};

fn secret(value: &str) -> Secret {
    Secret::new(value.to_string())
}

fn kept(store: &MemoryStore, memory: &KeychainMemory, id: &str) -> Option<String> {
    store.get(memory, id).expect("a keychain").map(|found| found.expose().to_string())
}

#[test]
fn a_secret_reads_back_until_it_is_forgotten() {
    let mut memory = KeychainMemory::new();
    let store = MemoryStore::new(&mut memory);
    assert_eq!(store.status(&memory, "r"), StoreStatus::Absent);

    store.set(&mut memory, "r", &secret("s3cret")).expect("a keychain");
    store.set(&mut memory, "other", &secret("another")).expect("a keychain");
    assert_eq!(store.status(&memory, "r"), StoreStatus::Stored);
    assert_eq!(kept(&store, &memory, "r").as_deref(), Some("s3cret"));

    store.forget(&mut memory, "r");
    assert_eq!(kept(&store, &memory, "r"), None);
    assert_eq!(store.status(&memory, "other"), StoreStatus::Stored);

    store.delete(&mut memory, "other").expect("a keychain");
    assert_eq!(store.status(&memory, "other"), StoreStatus::Absent);
}

#[test]
fn what_is_forgotten_is_gone_from_every_clone() {
    let mut memory = KeychainMemory::new();
    let store = MemoryStore::new(&mut memory);
    let before = store.clone();
    store.set(&mut memory, "r", &secret("s3cret")).expect("a keychain");
    before.set(&mut memory, "other", &secret("another")).expect("a keychain");
    let after = store.clone();

    for one in [&store, &before, &after] {
        assert_eq!(kept(one, &memory, "r").as_deref(), Some("s3cret"));
        assert_eq!(kept(one, &memory, "other").as_deref(), Some("another"));
    }

    store.forget(&mut memory, "r");
    store.forget(&mut memory, "never stored");
    for one in [&store, &before, &after] {
        assert_eq!(kept(one, &memory, "r"), None);
        assert_eq!(one.status(&memory, "r"), StoreStatus::Absent);
        assert_eq!(kept(one, &memory, "other").as_deref(), Some("another"));
        assert_eq!(one.status(&memory, "other"), StoreStatus::Stored);
    }
}

#[test]
fn keychains_made_apart_share_nothing() {
    let mut memory = KeychainMemory::new();
    let store = MemoryStore::new(&mut memory);
    let apart = MemoryStore::new(&mut memory);
    store.set(&mut memory, "r", &secret("one")).expect("a keychain");
    assert_eq!(apart.status(&memory, "r"), StoreStatus::Absent);

    apart.set(&mut memory, "r", &secret("two")).expect("a keychain");
    store.forget(&mut memory, "r");
    assert_eq!(kept(&apart, &memory, "r").as_deref(), Some("two"));
    assert_eq!(store.status(&memory, "r"), StoreStatus::Absent);
}

#[test]
fn a_machine_without_a_keychain_says_so_every_time() {
    let mut memory = KeychainMemory::new();
    let machine = MemoryStore::unavailable(&mut memory, "no D-Bus".to_string());
    let said = "no keychain on this machine: no D-Bus".to_string();

    for store in [machine.clone(), machine] {
        assert_eq!(
            store.set(&mut memory, "r", &secret("x")),
            Err(Error::internal(said.clone()))
        );
        match store.get(&memory, "r") {
            Err(error) => {
                assert_eq!(error.code(), ErrorCode::Internal);
                assert_eq!(error.message, said);
            }
            Ok(_) => panic!("there is no keychain to read"),
        }
        assert_eq!(store.delete(&mut memory, "r"), Err(Error::internal(said.clone())));
        assert_eq!(
            store.status(&memory, "r"),
            StoreStatus::Unavailable { reason: said.clone() }
        );
        store.forget(&mut memory, "r");
    }
}
