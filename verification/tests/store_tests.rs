use pet_shelter::Adopter;
use pet_shelter::CapacityReason;
use pet_shelter::EntityStore;
use pet_shelter::Error;
use pet_shelter::u64_to_decimal;

fn adopter(id: u64, name: &str) -> Adopter {
    Adopter {
        id,
        name: name.to_string(),
        contact_details: "someone@example.com".to_string(),
        desired_animal_type: "dog".to_string(),
    }
}

#[test]
fn insert_then_get_round_trips() {
    let mut store: EntityStore<Adopter> = EntityStore::new();
    store.insert(7, adopter(7, "Ann")).unwrap();
    let got = store.get(7).unwrap();
    assert_eq!(got.id, 7);
    assert_eq!(got.name, "Ann");
    assert!(store.get(8).is_none());
}

#[test]
fn insert_overwrites_existing_key() {
    let mut store: EntityStore<Adopter> = EntityStore::new();
    store.insert(1, adopter(1, "Ann")).unwrap();
    store.insert(1, adopter(1, "Bea")).unwrap();
    assert_eq!(store.get(1).unwrap().name, "Bea");
    assert_eq!(store.list().len(), 1);
}

#[test]
fn remove_deletes_and_second_remove_is_noop() {
    let mut store: EntityStore<Adopter> = EntityStore::new();
    store.insert(4, adopter(4, "Ann")).unwrap();
    let removed = store.remove(4).unwrap();
    assert_eq!(removed.name, "Ann");
    assert!(store.get(4).is_none());
    assert!(store.remove(4).is_none());
    assert!(store.get(4).is_none());
}

#[test]
fn list_is_ascending_by_key_whatever_the_insert_order() {
    let mut store: EntityStore<Adopter> = EntityStore::new();
    store.insert(5, adopter(5, "E")).unwrap();
    store.insert(1, adopter(1, "A")).unwrap();
    store.insert(3, adopter(3, "C")).unwrap();
    let ids: Vec<u64> = store.list().iter().map(|a| a.id).collect();
    assert_eq!(ids, vec![1, 3, 5]);
}

#[test]
fn store_rejects_oversized_records() {
    let mut store: EntityStore<Adopter> = EntityStore::new();
    let big = Adopter {
        id: 1,
        name: "n".repeat(2000),
        contact_details: "c".to_string(),
        desired_animal_type: "d".to_string(),
    };
    assert_eq!(
        store.insert(1, big),
        Err(Error::CapacityExceeded {
            reason: CapacityReason::RecordTooLarge
        })
    );
    assert!(store.get(1).is_none());
    assert!(store.list().is_empty());
}

#[test]
fn decimal_rendering_is_exact() {
    assert_eq!(u64_to_decimal(0), "0");
    assert_eq!(u64_to_decimal(7), "7");
    assert_eq!(u64_to_decimal(10), "10");
    assert_eq!(u64_to_decimal(90210), "90210");
    assert_eq!(u64_to_decimal(u64::MAX), "18446744073709551615");
}
