use pet_shelter::Adopter;
use pet_shelter::CapacityReason;
use pet_shelter::EntityKind;
use pet_shelter::Error;
use pet_shelter::InvalidReason;
use pet_shelter::Shelter;

fn sample_shelter() -> Shelter {
    let mut s = Shelter::new();
    let alice = s
        .register_adopter(
            "Alice".to_string(),
            "alice@x.com".to_string(),
            "dog".to_string(),
        )
        .unwrap();
    assert_eq!(alice.id, 1);
    let rex = s.add_animal("Rex".to_string(), "dog".to_string(), 3).unwrap();
    assert_eq!(rex.id, 2);
    assert!(!rex.is_adopted);
    s
}

#[test]
fn scenario_register_add_adopt_twice() {
    let mut s = sample_shelter();
    assert!(s.adopt_animal(1, 2).is_ok());
    assert!(s.get_animal(2).unwrap().is_adopted);
    assert_eq!(
        s.adopt_animal(1, 2),
        Err(Error::InvalidInput {
            reason: InvalidReason::AlreadyAdopted
        })
    );
    assert!(s.get_animal(2).unwrap().is_adopted);
}

#[test]
fn scenario_preference_match_ignores_adoption_state() {
    let mut s = sample_shelter();
    s.adopt_animal(1, 2).unwrap();
    let matched = s.list_adopters_of_animal(2).unwrap();
    assert_eq!(matched.len(), 1);
    assert_eq!(matched[0].name, "Alice");
    assert_eq!(matched[0].desired_animal_type, "dog");
}

#[test]
fn scenario_get_adopter_on_empty_store() {
    let s = Shelter::new();
    let err = s.get_adopter(999).unwrap_err();
    assert_eq!(
        err,
        Error::NotFound {
            entity: EntityKind::Adopter,
            id: 999
        }
    );
    assert_eq!(err.message(), "Adopter with id=999 not found");
}

#[test]
fn creation_ids_unique_across_kinds() {
    let mut s = Shelter::new();
    let mut ids = Vec::new();
    ids.push(
        s.register_adopter("a".to_string(), "b".to_string(), "cat".to_string())
            .unwrap()
            .id,
    );
    ids.push(s.add_animal("Tom".to_string(), "cat".to_string(), 2).unwrap().id);
    ids.push(
        s.register_adopter("c".to_string(), "d".to_string(), "dog".to_string())
            .unwrap()
            .id,
    );
    s.delete_adopter(1).unwrap();
    ids.push(s.add_animal("Jerry".to_string(), "mouse".to_string(), 1).unwrap().id);
    for i in 0..ids.len() {
        for j in 0..ids.len() {
            if i != j {
                assert_ne!(ids[i], ids[j]);
            }
        }
        assert_ne!(ids[i], 0);
    }
    assert_eq!(ids, vec![1, 2, 3, 4]);
}

#[test]
fn adopt_and_release_restore_state() {
    let mut s = sample_shelter();
    let before = s.get_animal(2).unwrap();
    s.adopt_animal(1, 2).unwrap();
    s.release_animal(2).unwrap();
    let after = s.get_animal(2).unwrap();
    assert_eq!(after.is_adopted, before.is_adopted);
    assert!(!after.is_adopted);
    assert_eq!(after.name, before.name);
    assert_eq!(after.species, before.species);
    assert_eq!(after.age, before.age);
}

#[test]
fn release_available_animal_is_invalid() {
    let mut s = sample_shelter();
    assert_eq!(
        s.release_animal(2),
        Err(Error::InvalidInput {
            reason: InvalidReason::AlreadyReleased
        })
    );
    assert!(!s.get_animal(2).unwrap().is_adopted);
}

#[test]
fn adopt_missing_parties() {
    let mut s = sample_shelter();
    assert_eq!(
        s.adopt_animal(77, 2),
        Err(Error::NotFound {
            entity: EntityKind::Adopter,
            id: 77
        })
    );
    assert_eq!(
        s.adopt_animal(1, 88),
        Err(Error::NotFound {
            entity: EntityKind::Animal,
            id: 88
        })
    );
}

#[test]
fn register_rejects_empty_fields() {
    let mut s = Shelter::new();
    let expected = Err(Error::InvalidInput {
        reason: InvalidReason::EmptyAdopterField,
    });
    assert_eq!(
        s.register_adopter("".to_string(), "b".to_string(), "c".to_string()),
        expected
    );
    assert_eq!(
        s.register_adopter("a".to_string(), "".to_string(), "c".to_string()),
        expected
    );
    assert_eq!(
        s.register_adopter("a".to_string(), "b".to_string(), "".to_string()),
        expected
    );
    assert!(s.list_adopters().is_empty());
}

#[test]
fn add_animal_rejects_empty_fields_and_zero_age() {
    let mut s = Shelter::new();
    let expected = Err(Error::InvalidInput {
        reason: InvalidReason::InvalidAnimalField,
    });
    assert_eq!(s.add_animal("".to_string(), "dog".to_string(), 3), expected);
    assert_eq!(s.add_animal("Rex".to_string(), "".to_string(), 3), expected);
    assert_eq!(s.add_animal("Rex".to_string(), "dog".to_string(), 0), expected);
    assert!(s.list_animals().is_empty());
}

#[test]
fn update_adopter_replaces_fields_without_validation() {
    let mut s = sample_shelter();
    let updated = s
        .update_adopter(1, "Alicia".to_string(), "".to_string(), "cat".to_string())
        .unwrap();
    assert_eq!(updated.id, 1);
    assert_eq!(updated.contact_details, "");
    let fetched = s.get_adopter(1).unwrap();
    assert_eq!(fetched.name, "Alicia");
    assert_eq!(fetched.desired_animal_type, "cat");
}

#[test]
fn update_animal_keeps_adoption_state() {
    let mut s = sample_shelter();
    s.adopt_animal(1, 2).unwrap();
    let updated = s.update_animal(2, "Rexy".to_string(), "dog".to_string(), 4).unwrap();
    assert!(updated.is_adopted);
    let fetched = s.get_animal(2).unwrap();
    assert!(fetched.is_adopted);
    assert_eq!(fetched.name, "Rexy");
    assert_eq!(fetched.age, 4);
}

#[test]
fn update_missing_records() {
    let mut s = Shelter::new();
    assert_eq!(
        s.update_adopter(5, "a".to_string(), "b".to_string(), "c".to_string()),
        Err(Error::NotFound {
            entity: EntityKind::Adopter,
            id: 5
        })
    );
    assert_eq!(
        s.update_animal(6, "a".to_string(), "b".to_string(), 1),
        Err(Error::NotFound {
            entity: EntityKind::Animal,
            id: 6
        })
    );
}

#[test]
fn delete_is_hard_and_reported_once() {
    let mut s = sample_shelter();
    assert_eq!(s.delete_animal(2), Ok(()));
    assert_eq!(
        s.get_animal(2),
        Err(Error::NotFound {
            entity: EntityKind::Animal,
            id: 2
        })
    );
    assert_eq!(
        s.delete_animal(2),
        Err(Error::NotFound {
            entity: EntityKind::Animal,
            id: 2
        })
    );
    assert_eq!(s.delete_adopter(1), Ok(()));
    assert_eq!(
        s.delete_adopter(1),
        Err(Error::NotFound {
            entity: EntityKind::Adopter,
            id: 1
        })
    );
}

#[test]
fn list_adopters_of_missing_animal_is_not_found() {
    let s = sample_shelter();
    assert_eq!(
        s.list_adopters_of_animal(42),
        Err(Error::NotFound {
            entity: EntityKind::Animal,
            id: 42
        })
    );
}

#[test]
fn preference_match_filters_by_species() {
    let mut s = Shelter::new();
    s.register_adopter("Alice".to_string(), "a@x".to_string(), "dog".to_string())
        .unwrap();
    s.register_adopter("Bob".to_string(), "b@x".to_string(), "cat".to_string())
        .unwrap();
    s.register_adopter("Cara".to_string(), "c@x".to_string(), "dog".to_string())
        .unwrap();
    let rex = s.add_animal("Rex".to_string(), "dog".to_string(), 3).unwrap();
    let matched = s.list_adopters_of_animal(rex.id).unwrap();
    let names: Vec<&str> = matched.iter().map(|a| a.name.as_str()).collect();
    assert_eq!(names, vec!["Alice", "Cara"]);
}

#[test]
fn oversized_records_are_capacity_errors() {
    let mut s = Shelter::new();
    let too_large = Err(Error::CapacityExceeded {
        reason: CapacityReason::RecordTooLarge,
    });
    let long = "a".repeat(1003);
    assert_eq!(
        s.register_adopter(long.clone(), "x".to_string(), "y".to_string()),
        too_large
    );
    assert!(s.list_adopters().is_empty());
    assert_eq!(
        s.add_animal(long.clone(), "d".to_string(), 1),
        Err(Error::CapacityExceeded {
            reason: CapacityReason::RecordTooLarge
        })
    );
    s.register_adopter("Alice".to_string(), "a@x".to_string(), "dog".to_string())
        .unwrap();
    assert_eq!(
        s.update_adopter(1, long, "x".to_string(), "y".to_string()),
        too_large
    );
    assert_eq!(s.get_adopter(1).unwrap().name, "Alice");
}

#[test]
fn record_size_bound_is_exact() {
    let mut s = Shelter::new();
    // id (8) + three length prefixes (12) + 1002 + 1 + 1 bytes = 1024
    let name = "a".repeat(1002);
    assert!(s
        .register_adopter(name, "x".to_string(), "y".to_string())
        .is_ok());
    // one more byte pushes the record to 1025
    let name = "a".repeat(1003);
    assert_eq!(
        s.register_adopter(name, "x".to_string(), "y".to_string()),
        Err(Error::CapacityExceeded {
            reason: CapacityReason::RecordTooLarge
        })
    );
}

#[test]
fn size_bound_counts_utf8_bytes_not_chars() {
    let mut s = Shelter::new();
    // 300 characters, four UTF-8 bytes each: 1200 bytes, over the bound
    let crabs: String = "\u{1F980}".repeat(300);
    assert_eq!(crabs.chars().count(), 300);
    assert_eq!(
        s.register_adopter(crabs, "x".to_string(), "y".to_string()),
        Err(Error::CapacityExceeded {
            reason: CapacityReason::RecordTooLarge
        })
    );
}

#[test]
fn exhausted_allocator_is_a_capacity_error() {
    let mut s = Shelter::new();
    s.ids.last_issued = u64::MAX;
    assert_eq!(
        s.register_adopter("a".to_string(), "b".to_string(), "c".to_string()),
        Err(Error::CapacityExceeded {
            reason: CapacityReason::IdsExhausted
        })
    );
    assert_eq!(
        s.add_animal("Rex".to_string(), "dog".to_string(), 3),
        Err(Error::CapacityExceeded {
            reason: CapacityReason::IdsExhausted
        })
    );
}

#[test]
fn helper_lookups_return_options() {
    let s = sample_shelter();
    assert!(s._get_adopter(&1).is_some());
    assert!(s._get_adopter(&9).is_none());
    assert!(s._get_animal(&2).is_some());
    assert!(s._get_animal(&9).is_none());
}

#[test]
fn error_messages_name_kind_and_id() {
    let not_found = Error::NotFound {
        entity: EntityKind::Animal,
        id: 12034,
    };
    assert_eq!(not_found.message(), "Animal with id=12034 not found");
    assert_eq!(
        Error::InvalidInput {
            reason: InvalidReason::AlreadyAdopted
        }
        .message(),
        "Animal is already adopted"
    );
    assert_eq!(
        Error::InvalidInput {
            reason: InvalidReason::AlreadyReleased
        }
        .message(),
        "Animal is already released"
    );
    assert_eq!(
        Error::InvalidInput {
            reason: InvalidReason::EmptyAdopterField
        }
        .message(),
        "Name, contact details, and desired animal type cannot be empty"
    );
    assert_eq!(
        Error::InvalidInput {
            reason: InvalidReason::InvalidAnimalField
        }
        .message(),
        "Name, species, and age cannot be empty"
    );
    assert_eq!(
        Error::CapacityExceeded {
            reason: CapacityReason::RecordTooLarge
        }
        .message(),
        "Record exceeds the maximum serialized size"
    );
    assert_eq!(
        Error::CapacityExceeded {
            reason: CapacityReason::IdsExhausted
        }
        .message(),
        "Identifier space is exhausted"
    );
}

#[test]
fn listing_returns_every_record_in_id_order() {
    let mut s = Shelter::new();
    s.register_adopter("A".to_string(), "a".to_string(), "dog".to_string())
        .unwrap();
    s.add_animal("R".to_string(), "dog".to_string(), 1).unwrap();
    s.register_adopter("B".to_string(), "b".to_string(), "cat".to_string())
        .unwrap();
    let adopters = s.list_adopters();
    assert_eq!(adopters.len(), 2);
    assert_eq!(adopters[0].id, 1);
    assert_eq!(adopters[1].id, 3);
    let animals = s.list_animals();
    assert_eq!(animals.len(), 1);
    assert_eq!(animals[0].id, 2);
}

#[test]
fn returned_adopter_matches_stored_one() {
    let mut s = Shelter::new();
    let returned = s
        .register_adopter("Alice".to_string(), "alice@x.com".to_string(), "dog".to_string())
        .unwrap();
    let stored = s.get_adopter(returned.id).unwrap();
    assert_eq!(stored.id, returned.id);
    assert_eq!(stored.name, returned.name);
    assert_eq!(stored.contact_details, returned.contact_details);
    assert_eq!(stored.desired_animal_type, returned.desired_animal_type);
    let _unused: Adopter = returned;
}
