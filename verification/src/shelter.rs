//! The adoption workflow over one context object owning the identifier
//! allocator and the two entity stores.
//!
//! Every operation runs to completion against this context; each contract
//! says exactly which inputs succeed, which error comes back otherwise, and
//! how the stores change.

use crate::errors::CapacityReason;
use crate::errors::EntityKind;
use crate::errors::Error;
use crate::errors::InvalidReason;
use crate::ids::IdAllocator;
use crate::records::Adopter;
use crate::records::Animal;
use crate::records::MAX_RECORD_BYTES;
use crate::records::Record;
use crate::records::adopter_record_len;
use crate::records::animal_record_len;
use crate::store::EntityStore;
use vstd::map::*;
use vstd::prelude::*;

verus! {

/// The three string fields of an adopter registration are all non-empty.
pub open spec fn adopter_fields_filled(
    name: Seq<char>,
    contact: Seq<char>,
    desired: Seq<char>,
) -> bool {
    name.len() > 0 && contact.len() > 0 && desired.len() > 0
}

/// An animal entry's fields pass validation: non-empty strings, positive age.
pub open spec fn animal_fields_filled(name: Seq<char>, species: Seq<char>, age: u32) -> bool {
    name.len() > 0 && species.len() > 0 && age > 0
}

/// The animal with its adoption state set to `adopted`, all else unchanged.
pub open spec fn with_adoption(a: Animal, adopted: bool) -> Animal {
    Animal { is_adopted: adopted, ..a }
}

/// Whether an adopter's desired species is the given one; the preference
/// match behind `list_adopters_of_animal`.
pub open spec fn prefers(a: Adopter, species: Seq<char>) -> bool {
    a.desired_animal_type@ == species
}

/// The record store behind the adoption service: the shared identifier
/// allocator and one keyed store per entity kind.
pub struct Shelter {
    pub ids: IdAllocator,
    pub adopters: EntityStore<Adopter>,
    pub animals: EntityStore<Animal>,
}

impl Shelter {
    /// Both stores are well formed, every stored record carries its own key
    /// as its `id`, every key was issued by the allocator (so lies between
    /// `1` and the last issued value), and no identifier is in both stores.
    pub open spec fn wf(&self) -> bool {
        &&& self.adopters.wf()
        &&& self.animals.wf()
        &&& forall|k: u64|
            #[trigger] self.adopters@.contains_key(k) ==> 1 <= k <= self.ids.last_issued
                && self.adopters@[k].id == k
        &&& forall|k: u64|
            #[trigger] self.animals@.contains_key(k) ==> 1 <= k <= self.ids.last_issued
                && self.animals@[k].id == k
        &&& forall|k: u64| !(self.adopters@.contains_key(k) && #[trigger] self.animals@.contains_key(k))
    }

    /// A fresh context: no records, no identifier issued yet.
    pub fn new() -> (r: Shelter)
        ensures
            r.wf(),
            r.ids.last_issued == 0,
            r.adopters@ == Map::<u64, Adopter>::empty(),
            r.animals@ == Map::<u64, Animal>::empty(),
    {
        Shelter { ids: IdAllocator::new(), adopters: EntityStore::new(), animals: EntityStore::new() }
    }

    /// Point lookup of an adopter; absence is not an error at this layer.
    pub fn _get_adopter(&self, adopter_id: &u64) -> (r: Option<Adopter>)
        requires
            self.wf(),
        ensures
            r == if self.adopters@.contains_key(*adopter_id) {
                Some(self.adopters@[*adopter_id])
            } else {
                None::<Adopter>
            },
    {
        self.adopters.get(*adopter_id)
    }

    /// Point lookup of an animal; absence is not an error at this layer.
    pub fn _get_animal(&self, animal_id: &u64) -> (r: Option<Animal>)
        requires
            self.wf(),
        ensures
            r == if self.animals@.contains_key(*animal_id) {
                Some(self.animals@[*animal_id])
            } else {
                None::<Animal>
            },
    {
        self.animals.get(*animal_id)
    }

    /// The adopter with the given identifier, or `NotFound`.
    pub fn get_adopter(&self, adopter_id: u64) -> (r: Result<Adopter, Error>)
        requires
            self.wf(),
        ensures
            r == if self.adopters@.contains_key(adopter_id) {
                Ok::<Adopter, Error>(self.adopters@[adopter_id])
            } else {
                Err::<Adopter, Error>(
                    (Error::NotFound { entity: EntityKind::Adopter, id: adopter_id }),
                )
            },
    {
        match self._get_adopter(&adopter_id) {
            Some(adopter) => Ok(adopter),
            None => Err(Error::NotFound { entity: EntityKind::Adopter, id: adopter_id }),
        }
    }

    /// The animal with the given identifier, or `NotFound`.
    pub fn get_animal(&self, animal_id: u64) -> (r: Result<Animal, Error>)
        requires
            self.wf(),
        ensures
            r == if self.animals@.contains_key(animal_id) {
                Ok::<Animal, Error>(self.animals@[animal_id])
            } else {
                Err::<Animal, Error>(
                    (Error::NotFound { entity: EntityKind::Animal, id: animal_id }),
                )
            },
    {
        match self._get_animal(&animal_id) {
            Some(animal) => Ok(animal),
            None => Err(Error::NotFound { entity: EntityKind::Animal, id: animal_id }),
        }
    }

    /// Registers a new adopter: rejects an empty field, then a record over
    /// the size bound, then an exhausted allocator; otherwise persists an
    /// adopter under a freshly issued identifier and returns it. The
    /// identifier is fresh: no record of either kind ever carried it.
    #[verifier::rlimit(50)]
    pub fn register_adopter(
        &mut self,
        name: String,
        contact_details: String,
        desired_animal_type: String,
    ) -> (r: Result<Adopter, Error>)
        requires
            old(self).wf(),
        ensures
            final(self).wf(),
            final(self).ids.last_issued >= old(self).ids.last_issued,
            !adopter_fields_filled(name@, contact_details@, desired_animal_type@) ==> r == Err::<
                Adopter,
                Error,
            >((Error::InvalidInput { reason: InvalidReason::EmptyAdopterField })) && *final(self)
                == *old(self),
            adopter_fields_filled(name@, contact_details@, desired_animal_type@)
                && adopter_record_len(name@, contact_details@, desired_animal_type@)
                > MAX_RECORD_BYTES ==> r == Err::<Adopter, Error>(
                (Error::CapacityExceeded { reason: CapacityReason::RecordTooLarge }),
            ) && *final(self) == *old(self),
            adopter_fields_filled(name@, contact_details@, desired_animal_type@)
                && adopter_record_len(name@, contact_details@, desired_animal_type@)
                <= MAX_RECORD_BYTES && old(self).ids.last_issued == u64::MAX ==> r == Err::<
                Adopter,
                Error,
            >((Error::CapacityExceeded { reason: CapacityReason::IdsExhausted })) && *final(self)
                == *old(self),
            adopter_fields_filled(name@, contact_details@, desired_animal_type@)
                && adopter_record_len(name@, contact_details@, desired_animal_type@)
                <= MAX_RECORD_BYTES && old(self).ids.last_issued < u64::MAX ==> ({
                let id = (old(self).ids.last_issued + 1) as u64;
                let a = (Adopter {
                    id: id,
                    name: name,
                    contact_details: contact_details,
                    desired_animal_type: desired_animal_type,
                });
                &&& r == Ok::<Adopter, Error>(a)
                &&& !old(self).adopters@.contains_key(id)
                &&& !old(self).animals@.contains_key(id)
                &&& final(self).adopters@ == old(self).adopters@.insert(id, a)
                &&& final(self).animals == old(self).animals
                &&& final(self).ids.last_issued == old(self).ids.last_issued + 1
            }),
    {
        if name.as_str().is_empty() || contact_details.as_str().is_empty()
            || desired_animal_type.as_str().is_empty() {
            return Err(Error::InvalidInput { reason: InvalidReason::EmptyAdopterField });
        }
        let mut adopter = Adopter { id: 0, name, contact_details, desired_animal_type };
        if !adopter.fits_bound() {
            return Err(Error::CapacityExceeded { reason: CapacityReason::RecordTooLarge });
        }
        let id = match self.ids.next_id() {
            Some(id) => id,
            None => {
                return Err(Error::CapacityExceeded { reason: CapacityReason::IdsExhausted });
            },
        };
        adopter.id = id;
        let stored = adopter.duplicate();
        proof {
            assert(!old(self).adopters@.contains_key(id)) by {
                if old(self).adopters@.contains_key(id) {
                    assert(old(self).adopters@[id].id == id);
                }
            }
            assert(!old(self).animals@.contains_key(id)) by {
                if old(self).animals@.contains_key(id) {
                    assert(old(self).animals@[id].id == id);
                }
            }
        }
        let _inserted = self.adopters.insert(id, stored);
        proof {
            assert forall|k: u64| #[trigger] self.adopters@.contains_key(k) implies 1 <= k
                <= self.ids.last_issued && self.adopters@[k].id == k by {
                if k == id {
                    assert(self.adopters@[k] == stored);
                } else {
                    assert(old(self).adopters@.contains_key(k));
                    assert(self.adopters@[k] == old(self).adopters@[k]);
                    assert(old(self).adopters@[k].id == k);
                }
            }
            assert forall|k: u64| #[trigger] self.animals@.contains_key(k) implies 1 <= k
                <= self.ids.last_issued && self.animals@[k].id == k by {
                assert(old(self).animals@.contains_key(k));
                assert(old(self).animals@[k].id == k);
            }
            assert forall|k: u64|
                !(self.adopters@.contains_key(k) && #[trigger] self.animals@.contains_key(k)) by {
                if k == id {
                    assert(!old(self).animals@.contains_key(id));
                } else {
                    if self.adopters@.contains_key(k) {
                        assert(old(self).adopters@.contains_key(k));
                        assert(!old(self).animals@.contains_key(k));
                    }
                }
            }
        }
        Ok(adopter)
    }

    /// Catalogs a new animal: rejects an empty field or a zero age, then a
    /// record over the size bound, then an exhausted allocator; otherwise
    /// persists an animal under a freshly issued identifier, not adopted,
    /// and returns it.
    #[verifier::rlimit(50)]
    pub fn add_animal(&mut self, name: String, species: String, age: u32) -> (r: Result<
        Animal,
        Error,
    >)
        requires
            old(self).wf(),
        ensures
            final(self).wf(),
            final(self).ids.last_issued >= old(self).ids.last_issued,
            !animal_fields_filled(name@, species@, age) ==> r == Err::<Animal, Error>(
                (Error::InvalidInput { reason: InvalidReason::InvalidAnimalField }),
            ) && *final(self) == *old(self),
            animal_fields_filled(name@, species@, age) && animal_record_len(name@, species@)
                > MAX_RECORD_BYTES ==> r == Err::<Animal, Error>(
                (Error::CapacityExceeded { reason: CapacityReason::RecordTooLarge }),
            ) && *final(self) == *old(self),
            animal_fields_filled(name@, species@, age) && animal_record_len(name@, species@)
                <= MAX_RECORD_BYTES && old(self).ids.last_issued == u64::MAX ==> r == Err::<
                Animal,
                Error,
            >((Error::CapacityExceeded { reason: CapacityReason::IdsExhausted })) && *final(self)
                == *old(self),
            animal_fields_filled(name@, species@, age) && animal_record_len(name@, species@)
                <= MAX_RECORD_BYTES && old(self).ids.last_issued < u64::MAX ==> ({
                let id = (old(self).ids.last_issued + 1) as u64;
                let a = (Animal { id: id, name: name, species: species, age: age, is_adopted: false });
                &&& r == Ok::<Animal, Error>(a)
                &&& !old(self).adopters@.contains_key(id)
                &&& !old(self).animals@.contains_key(id)
                &&& final(self).animals@ == old(self).animals@.insert(id, a)
                &&& final(self).adopters == old(self).adopters
                &&& final(self).ids.last_issued == old(self).ids.last_issued + 1
            }),
    {
        if name.as_str().is_empty() || species.as_str().is_empty() || age == 0 {
            return Err(Error::InvalidInput { reason: InvalidReason::InvalidAnimalField });
        }
        let mut animal = Animal { id: 0, name, species, age, is_adopted: false };
        if !animal.fits_bound() {
            return Err(Error::CapacityExceeded { reason: CapacityReason::RecordTooLarge });
        }
        let id = match self.ids.next_id() {
            Some(id) => id,
            None => {
                return Err(Error::CapacityExceeded { reason: CapacityReason::IdsExhausted });
            },
        };
        animal.id = id;
        let stored = animal.duplicate();
        proof {
            assert(!old(self).adopters@.contains_key(id)) by {
                if old(self).adopters@.contains_key(id) {
                    assert(old(self).adopters@[id].id == id);
                }
            }
            assert(!old(self).animals@.contains_key(id)) by {
                if old(self).animals@.contains_key(id) {
                    assert(old(self).animals@[id].id == id);
                }
            }
        }
        let _inserted = self.animals.insert(id, stored);
        proof {
            assert forall|k: u64| #[trigger] self.animals@.contains_key(k) implies 1 <= k
                <= self.ids.last_issued && self.animals@[k].id == k by {
                if k == id {
                    assert(self.animals@[k] == stored);
                } else {
                    assert(old(self).animals@.contains_key(k));
                    assert(self.animals@[k] == old(self).animals@[k]);
                    assert(old(self).animals@[k].id == k);
                }
            }
            assert forall|k: u64| #[trigger] self.adopters@.contains_key(k) implies 1 <= k
                <= self.ids.last_issued && self.adopters@[k].id == k by {
                assert(old(self).adopters@.contains_key(k));
                assert(old(self).adopters@[k].id == k);
            }
            assert forall|k: u64|
                !(self.adopters@.contains_key(k) && #[trigger] self.animals@.contains_key(k)) by {
                if k == id {
                    assert(!old(self).adopters@.contains_key(id));
                } else {
                    if self.animals@.contains_key(k) {
                        assert(old(self).animals@.contains_key(k));
                        assert(!old(self).adopters@.contains_key(k)) by {
                            assert(!(old(self).adopters@.contains_key(k) && old(self).animals@.contains_key(k)));
                        }
                    }
                }
            }
        }
        Ok(animal)
    }

    /// Replaces an adopter's three descriptive fields wholesale. Validation
    /// is not re-applied here, an asymmetry with registration kept on
    /// purpose; the size bound still holds.
    pub fn update_adopter(
        &mut self,
        adopter_id: u64,
        name: String,
        contact_details: String,
        desired_animal_type: String,
    ) -> (r: Result<Adopter, Error>)
        requires
            old(self).wf(),
        ensures
            final(self).wf(),
            final(self).ids == old(self).ids,
            final(self).animals == old(self).animals,
            !old(self).adopters@.contains_key(adopter_id) ==> r == Err::<Adopter, Error>(
                (Error::NotFound { entity: EntityKind::Adopter, id: adopter_id }),
            ) && *final(self) == *old(self),
            old(self).adopters@.contains_key(adopter_id) && adopter_record_len(
                name@,
                contact_details@,
                desired_animal_type@,
            ) > MAX_RECORD_BYTES ==> r == Err::<Adopter, Error>(
                (Error::CapacityExceeded { reason: CapacityReason::RecordTooLarge }),
            ) && *final(self) == *old(self),
            old(self).adopters@.contains_key(adopter_id) && adopter_record_len(
                name@,
                contact_details@,
                desired_animal_type@,
            ) <= MAX_RECORD_BYTES ==> ({
                let a = (Adopter {
                    id: adopter_id,
                    name: name,
                    contact_details: contact_details,
                    desired_animal_type: desired_animal_type,
                });
                &&& r == Ok::<Adopter, Error>(a)
                &&& final(self).adopters@ == old(self).adopters@.insert(adopter_id, a)
            }),
    {
        if self._get_adopter(&adopter_id).is_none() {
            return Err(Error::NotFound { entity: EntityKind::Adopter, id: adopter_id });
        }
        let updated = Adopter { id: adopter_id, name, contact_details, desired_animal_type };
        let returned = updated.duplicate();
        match self.adopters.insert(adopter_id, updated) {
            Ok(()) => {
                proof {
                    lemma_wf_adopters_replaced(*old(self), *self, adopter_id);
                }
                Ok(returned)
            },
            Err(e) => Err(e),
        }
    }

    /// Replaces an animal's name, species and age; its adoption state is
    /// untouched. Validation is not re-applied here; the size bound still
    /// holds.
    pub fn update_animal(&mut self, animal_id: u64, name: String, species: String, age: u32) -> (r:
        Result<Animal, Error>)
        requires
            old(self).wf(),
        ensures
            final(self).wf(),
            final(self).ids == old(self).ids,
            final(self).adopters == old(self).adopters,
            !old(self).animals@.contains_key(animal_id) ==> r == Err::<Animal, Error>(
                (Error::NotFound { entity: EntityKind::Animal, id: animal_id }),
            ) && *final(self) == *old(self),
            old(self).animals@.contains_key(animal_id) && animal_record_len(name@, species@)
                > MAX_RECORD_BYTES ==> r == Err::<Animal, Error>(
                (Error::CapacityExceeded { reason: CapacityReason::RecordTooLarge }),
            ) && *final(self) == *old(self),
            old(self).animals@.contains_key(animal_id) && animal_record_len(name@, species@)
                <= MAX_RECORD_BYTES ==> ({
                let a = (Animal {
                    id: animal_id,
                    name: name,
                    species: species,
                    age: age,
                    is_adopted: old(self).animals@[animal_id].is_adopted,
                });
                &&& r == Ok::<Animal, Error>(a)
                &&& final(self).animals@ == old(self).animals@.insert(animal_id, a)
            }),
    {
        let animal = match self._get_animal(&animal_id) {
            Some(animal) => animal,
            None => {
                return Err(Error::NotFound { entity: EntityKind::Animal, id: animal_id });
            },
        };
        let updated = Animal { id: animal_id, name, species, age, is_adopted: animal.is_adopted };
        let returned = updated.duplicate();
        match self.animals.insert(animal_id, updated) {
            Ok(()) => {
                proof {
                    lemma_wf_animals_replaced(*old(self), *self, animal_id);
                }
                Ok(returned)
            },
            Err(e) => Err(e),
        }
    }

    /// Deletes the adopter with the given identifier; deletion is immediate
    /// and unrecoverable.
    pub fn delete_adopter(&mut self, adopter_id: u64) -> (r: Result<(), Error>)
        requires
            old(self).wf(),
        ensures
            final(self).wf(),
            final(self).ids == old(self).ids,
            final(self).animals == old(self).animals,
            !old(self).adopters@.contains_key(adopter_id) ==> r == Err::<(), Error>(
                (Error::NotFound { entity: EntityKind::Adopter, id: adopter_id }),
            ) && *final(self) == *old(self),
            old(self).adopters@.contains_key(adopter_id) ==> r == Ok::<(), Error>(()) && final(self).adopters@ == old(self).adopters@.remove(adopter_id),
    {
        if self._get_adopter(&adopter_id).is_none() {
            return Err(Error::NotFound { entity: EntityKind::Adopter, id: adopter_id });
        }
        let _removed = self.adopters.remove(adopter_id);
        proof {
            assert forall|k: u64| #[trigger] self.adopters@.contains_key(k) implies 1 <= k
                <= self.ids.last_issued && self.adopters@[k].id == k by {
                assert(old(self).adopters@.contains_key(k));
                assert(self.adopters@[k] == old(self).adopters@[k]);
            }
            assert forall|k: u64|
                !(self.adopters@.contains_key(k) && #[trigger] self.animals@.contains_key(k)) by {
                if self.adopters@.contains_key(k) {
                    assert(old(self).adopters@.contains_key(k));
                }
            }
        }
        Ok(())
    }

    /// Deletes the animal with the given identifier; deletion is immediate
    /// and unrecoverable.
    pub fn delete_animal(&mut self, animal_id: u64) -> (r: Result<(), Error>)
        requires
            old(self).wf(),
        ensures
            final(self).wf(),
            final(self).ids == old(self).ids,
            final(self).adopters == old(self).adopters,
            !old(self).animals@.contains_key(animal_id) ==> r == Err::<(), Error>(
                (Error::NotFound { entity: EntityKind::Animal, id: animal_id }),
            ) && *final(self) == *old(self),
            old(self).animals@.contains_key(animal_id) ==> r == Ok::<(), Error>(()) && final(self).animals@ == old(self).animals@.remove(animal_id),
    {
        if self._get_animal(&animal_id).is_none() {
            return Err(Error::NotFound { entity: EntityKind::Animal, id: animal_id });
        }
        let _removed = self.animals.remove(animal_id);
        proof {
            assert forall|k: u64| #[trigger] self.animals@.contains_key(k) implies 1 <= k
                <= self.ids.last_issued && self.animals@[k].id == k by {
                assert(old(self).animals@.contains_key(k));
                assert(self.animals@[k] == old(self).animals@[k]);
            }
            assert forall|k: u64|
                !(self.adopters@.contains_key(k) && #[trigger] self.animals@.contains_key(k)) by {
                if self.animals@.contains_key(k) {
                    assert(old(self).animals@.contains_key(k));
                    assert(!(old(self).adopters@.contains_key(k) && old(self).animals@.contains_key(k)));
                }
            }
        }
        Ok(())
    }

    /// Matches an animal to an adopter: both must exist, and the animal must
    /// not be adopted already; the only effect is the animal's adoption state
    /// turning true. Which adopter performed the adoption is not recorded.
    pub fn adopt_animal(&mut self, adopter_id: u64, animal_id: u64) -> (r: Result<(), Error>)
        requires
            old(self).wf(),
        ensures
            final(self).wf(),
            final(self).ids == old(self).ids,
            final(self).adopters == old(self).adopters,
            !old(self).adopters@.contains_key(adopter_id) ==> r == Err::<(), Error>(
                (Error::NotFound { entity: EntityKind::Adopter, id: adopter_id }),
            ) && *final(self) == *old(self),
            old(self).adopters@.contains_key(adopter_id) && !old(self).animals@.contains_key(
                animal_id,
            ) ==> r == Err::<(), Error>(
                (Error::NotFound { entity: EntityKind::Animal, id: animal_id }),
            ) && *final(self) == *old(self),
            old(self).adopters@.contains_key(adopter_id) && old(self).animals@.contains_key(
                animal_id,
            ) && old(self).animals@[animal_id].is_adopted ==> r == Err::<(), Error>(
                (Error::InvalidInput { reason: InvalidReason::AlreadyAdopted }),
            ) && *final(self) == *old(self),
            old(self).adopters@.contains_key(adopter_id) && old(self).animals@.contains_key(
                animal_id,
            ) && !old(self).animals@[animal_id].is_adopted ==> r == Ok::<(), Error>(()) && final(self).animals@ == old(self).animals@.insert(
                animal_id,
                with_adoption(old(self).animals@[animal_id], true),
            ),
    {
        if self._get_adopter(&adopter_id).is_none() {
            return Err(Error::NotFound { entity: EntityKind::Adopter, id: adopter_id });
        }
        let mut animal = match self._get_animal(&animal_id) {
            Some(animal) => animal,
            None => {
                return Err(Error::NotFound { entity: EntityKind::Animal, id: animal_id });
            },
        };
        if animal.is_adopted {
            return Err(Error::InvalidInput { reason: InvalidReason::AlreadyAdopted });
        }
        animal.is_adopted = true;
        proof {
            self.animals.lemma_value_bounded(animal_id);
            assert(animal.encoded_len() == old(self).animals@[animal_id].encoded_len());
        }
        let _inserted = self.animals.insert(animal_id, animal);
        proof {
            lemma_wf_animals_replaced(*old(self), *self, animal_id);
        }
        Ok(())
    }

    /// Returns an adopted animal to the available state: the animal must
    /// exist and be adopted; the only effect is the adoption state turning
    /// false.
    pub fn release_animal(&mut self, animal_id: u64) -> (r: Result<(), Error>)
        requires
            old(self).wf(),
        ensures
            final(self).wf(),
            final(self).ids == old(self).ids,
            final(self).adopters == old(self).adopters,
            !old(self).animals@.contains_key(animal_id) ==> r == Err::<(), Error>(
                (Error::NotFound { entity: EntityKind::Animal, id: animal_id }),
            ) && *final(self) == *old(self),
            old(self).animals@.contains_key(animal_id) && !old(self).animals@[
                animal_id].is_adopted ==> r == Err::<(), Error>(
                (Error::InvalidInput { reason: InvalidReason::AlreadyReleased }),
            ) && *final(self) == *old(self),
            old(self).animals@.contains_key(animal_id) && old(self).animals@[
                animal_id].is_adopted ==> r == Ok::<(), Error>(()) && final(self).animals@ == old(self).animals@.insert(animal_id, with_adoption(old(self).animals@[animal_id], false)),
    {
        let mut animal = match self._get_animal(&animal_id) {
            Some(animal) => animal,
            None => {
                return Err(Error::NotFound { entity: EntityKind::Animal, id: animal_id });
            },
        };
        if !animal.is_adopted {
            return Err(Error::InvalidInput { reason: InvalidReason::AlreadyReleased });
        }
        animal.is_adopted = false;
        proof {
            self.animals.lemma_value_bounded(animal_id);
            assert(animal.encoded_len() == old(self).animals@[animal_id].encoded_len());
        }
        let _inserted = self.animals.insert(animal_id, animal);
        proof {
            lemma_wf_animals_replaced(*old(self), *self, animal_id);
        }
        Ok(())
    }

    /// Every adopter, in ascending identifier order, as of the call.
    pub fn list_adopters(&self) -> (r: Vec<Adopter>)
        requires
            self.wf(),
        ensures
            r@ == self.adopters.record_seq(),
    {
        self.adopters.list()
    }

    /// Every animal, in ascending identifier order, as of the call.
    pub fn list_animals(&self) -> (r: Vec<Animal>)
        requires
            self.wf(),
        ensures
            r@ == self.animals.record_seq(),
    {
        self.animals.list()
    }

    /// Every adopter whose desired species equals the given animal's species,
    /// in ascending identifier order: a preference match, independent of the
    /// animal's adoption state. A missing animal is `NotFound`, like every
    /// sibling operation.
    pub fn list_adopters_of_animal(&self, animal_id: u64) -> (r: Result<Vec<Adopter>, Error>)
        requires
            self.wf(),
        ensures
            !self.animals@.contains_key(animal_id) ==> r == Err::<Vec<Adopter>, Error>(
                (Error::NotFound { entity: EntityKind::Animal, id: animal_id }),
            ),
            self.animals@.contains_key(animal_id) ==> r is Ok && r->Ok_0@
                == self.adopters.record_seq().filter(
                |a: Adopter| prefers(a, self.animals@[animal_id].species@),
            ),
    {
        let animal = match self._get_animal(&animal_id) {
            Some(animal) => animal,
            None => {
                return Err(Error::NotFound { entity: EntityKind::Animal, id: animal_id });
            },
        };
        let ghost pred = |a: Adopter| prefers(a, self.animals@[animal_id].species@);
        let all = self.list_adopters();
        let mut matched: Vec<Adopter> = Vec::new();
        let mut i: usize = 0;
        proof {
            assert(all@.take(0int).filter(pred) =~= Seq::<Adopter>::empty());
        }
        while i < all.len()
            invariant
                0 <= i <= all@.len(),
                animal.species@ == self.animals@[animal_id].species@,
                pred == (|a: Adopter| prefers(a, self.animals@[animal_id].species@)),
                matched@ == all@.take(i as int).filter(pred),
            decreases all@.len() - i,
        {
            proof {
                assert(all@.take(i + 1int).drop_last() =~= all@.take(i as int));
                assert(all@.take(i + 1int).last() == all@[i as int]);
                reveal_with_fuel(Seq::filter, 2);
            }
            if all[i].desired_animal_type == animal.species {
                matched.push(all[i].duplicate());
            }
            i = i + 1;
        }
        proof {
            assert(all@.take(all@.len() as int) =~= all@);
        }
        Ok(matched)
    }
}

/// Establishes context well-formedness again after a record of the adopter
/// store was replaced under an existing key carrying that key as its id.
proof fn lemma_wf_adopters_replaced(pre: Shelter, post: Shelter, id: u64)
    requires
        pre.wf(),
        post.adopters.wf(),
        post.animals == pre.animals,
        post.ids == pre.ids,
        pre.adopters@.contains_key(id),
        post.adopters@[id].id == id,
        post.adopters@ == pre.adopters@.insert(id, post.adopters@[id]),
    ensures
        post.wf(),
{
    assert forall|k: u64| #[trigger] post.adopters@.contains_key(k) implies 1 <= k
        <= post.ids.last_issued && post.adopters@[k].id == k by {
        if k != id {
            assert(pre.adopters@.contains_key(k));
            assert(post.adopters@[k] == pre.adopters@[k]);
        }
    }
    assert forall|k: u64|
        !(post.adopters@.contains_key(k) && #[trigger] post.animals@.contains_key(k)) by {
        if post.adopters@.contains_key(k) {
            assert(pre.adopters@.contains_key(k));
            assert(!(pre.adopters@.contains_key(k) && pre.animals@.contains_key(k)));
        }
    }
}

/// Establishes context well-formedness again after a record of the animal
/// store was replaced under an existing key carrying that key as its id.
proof fn lemma_wf_animals_replaced(pre: Shelter, post: Shelter, id: u64)
    requires
        pre.wf(),
        post.animals.wf(),
        post.adopters == pre.adopters,
        post.ids == pre.ids,
        pre.animals@.contains_key(id),
        post.animals@[id].id == id,
        post.animals@ == pre.animals@.insert(id, post.animals@[id]),
    ensures
        post.wf(),
{
    assert forall|k: u64| #[trigger] post.animals@.contains_key(k) implies 1 <= k
        <= post.ids.last_issued && post.animals@[k].id == k by {
        if k != id {
            assert(pre.animals@.contains_key(k));
            assert(post.animals@[k] == pre.animals@[k]);
        }
    }
    assert forall|k: u64|
        !(post.adopters@.contains_key(k) && #[trigger] post.animals@.contains_key(k)) by {
        if post.animals@.contains_key(k) {
            assert(pre.animals@.contains_key(k));
            assert(!(pre.adopters@.contains_key(k) && pre.animals@.contains_key(k)));
        }
    }
}

/// Uniqueness law, the single step: an identifier larger than the last
/// issued one is fresh, held by no record of either kind. Together with each
/// creation returning `last issued + 1` and every operation keeping the
/// counter from decreasing, no two creations can ever return one identifier.
pub proof fn lemma_issued_id_fresh(s: Shelter, id: u64)
    requires
        s.wf(),
        id > s.ids.last_issued,
    ensures
        !s.adopters@.contains_key(id),
        !s.animals@.contains_key(id),
{
}

/// Uniqueness law, across a sequence of calls: two creations that saw
/// counter values `c1` and then `c2` (the counter never decreases, and the
/// first creation already raised it past `c1`) return distinct identifiers,
/// whichever entity kinds they created.
pub proof fn lemma_creation_ids_unique(c1: u64, id1: u64, c2: u64, id2: u64)
    requires
        id1 == c1 + 1,
        id2 == c2 + 1,
        c1 < c2,
    ensures
        id1 != id2,
{
}

/// Transition symmetry law: adopting an available animal and then releasing
/// it restores its adoption state to the value before the adoption, and
/// indeed the whole animal map.
pub proof fn lemma_adopt_then_release_restores(
    m0: Map<u64, Animal>,
    m1: Map<u64, Animal>,
    m2: Map<u64, Animal>,
    id: u64,
)
    requires
        m0.contains_key(id),
        !m0[id].is_adopted,
        m1 == m0.insert(id, with_adoption(m0[id], true)),
        m2 == m1.insert(id, with_adoption(m1[id], false)),
    ensures
        m2[id].is_adopted == m0[id].is_adopted,
        m2 == m0,
{
    assert(with_adoption(m1[id], false) == m0[id]);
    assert_maps_equal!(m2, m0);
}

} // verus!

