//! The two record kinds and the bounded byte representation that the store
//! persists them under.
//!
//! A record is serialized before it is persisted: the identifier as eight
//! bytes, each string field as a four-byte length followed by its UTF-8
//! bytes, an age as four bytes and a flag as one. The store refuses any
//! record whose serialized form exceeds [`MAX_RECORD_BYTES`]; the encoded
//! length is what these types account for, while writing the bytes out is the
//! persistence collaborator's job.

use vstd::prelude::*;
use vstd::utf8::encode_utf8;

verus! {

broadcast use vstd::slice::axiom_spec_len;

/// The largest serialized record the store accepts, in bytes.
pub const MAX_RECORD_BYTES: u64 = 1024;

/// A record kind the store can hold: it knows its serialized length and can
/// produce an exact copy of itself.
pub trait Record: Sized {
    /// The length in bytes of the record's serialized form.
    spec fn encoded_len(&self) -> nat;

    /// Whether the record's serialized form fits the store's size bound.
    fn fits_bound(&self) -> (b: bool)
        ensures
            b <==> self.encoded_len() <= MAX_RECORD_BYTES,
    ;

    /// An exact copy of the record.
    fn duplicate(&self) -> (r: Self)
        ensures
            r == *self,
    ;
}

/// The serialized length of one string field: a four-byte length prefix
/// followed by the field's UTF-8 bytes.
pub open spec fn field_len(s: Seq<char>) -> nat {
    4 + encode_utf8(s).len()
}

/// The serialized length of an adopter with the given string fields: the
/// identifier's eight bytes plus the three fields.
pub open spec fn adopter_record_len(name: Seq<char>, contact: Seq<char>, desired: Seq<char>) -> nat {
    8 + field_len(name) + field_len(contact) + field_len(desired)
}

/// The serialized length of an animal with the given string fields: the
/// identifier's eight bytes, the two fields, four bytes of age and one byte
/// of adoption state.
pub open spec fn animal_record_len(name: Seq<char>, species: Seq<char>) -> nat {
    8 + field_len(name) + field_len(species) + 4 + 1
}

/// The byte length of a string's UTF-8 form, with the fact that it fits in
/// `usize` (it is the length of a slice the string itself owns).
fn utf8_len(s: &String) -> (n: usize)
    ensures
        n == encode_utf8(s@).len(),
{
    s.as_str().as_bytes().len()
}

/// Someone looking to adopt: contact data and the species they want.
#[derive(Debug)]
pub struct Adopter {
    pub id: u64,
    pub name: String,
    pub contact_details: String,
    pub desired_animal_type: String,
}

impl Record for Adopter {
    open spec fn encoded_len(&self) -> nat {
        adopter_record_len(self.name@, self.contact_details@, self.desired_animal_type@)
    }

    fn fits_bound(&self) -> (b: bool)
        ensures
            b <==> self.encoded_len() <= MAX_RECORD_BYTES,
    {
        let n1 = utf8_len(&self.name);
        let n2 = utf8_len(&self.contact_details);
        let n3 = utf8_len(&self.desired_animal_type);
        if n1 > 1024 || n2 > 1024 || n3 > 1024 {
            false
        } else {
            20 + (n1 as u64) + (n2 as u64) + (n3 as u64) <= MAX_RECORD_BYTES
        }
    }

    fn duplicate(&self) -> (r: Self)
        ensures
            r == *self,
    {
        Adopter {
            id: self.id,
            name: self.name.clone(),
            contact_details: self.contact_details.clone(),
            desired_animal_type: self.desired_animal_type.clone(),
        }
    }
}

impl PartialEq for Adopter {
    fn eq(&self, other: &Adopter) -> (r: bool) {
        self.id == other.id && self.name == other.name && self.contact_details
            == other.contact_details && self.desired_animal_type == other.desired_animal_type
    }
}

impl vstd::std_specs::cmp::PartialEqSpecImpl for Adopter {
    open spec fn obeys_eq_spec() -> bool {
        true
    }

    open spec fn eq_spec(&self, other: &Adopter) -> bool {
        self.id == other.id && self.name@ == other.name@ && self.contact_details@
            == other.contact_details@ && self.desired_animal_type@ == other.desired_animal_type@
    }
}

/// An animal in the catalog; `is_adopted` is its adoption state.
#[derive(Debug)]
pub struct Animal {
    pub id: u64,
    pub name: String,
    pub species: String,
    pub age: u32,
    pub is_adopted: bool,
}

impl Record for Animal {
    open spec fn encoded_len(&self) -> nat {
        animal_record_len(self.name@, self.species@)
    }

    fn fits_bound(&self) -> (b: bool)
        ensures
            b <==> self.encoded_len() <= MAX_RECORD_BYTES,
    {
        let n1 = utf8_len(&self.name);
        let n2 = utf8_len(&self.species);
        if n1 > 1024 || n2 > 1024 {
            false
        } else {
            21 + (n1 as u64) + (n2 as u64) <= MAX_RECORD_BYTES
        }
    }

    fn duplicate(&self) -> (r: Self)
        ensures
            r == *self,
    {
        Animal {
            id: self.id,
            name: self.name.clone(),
            species: self.species.clone(),
            age: self.age,
            is_adopted: self.is_adopted,
        }
    }
}

impl PartialEq for Animal {
    fn eq(&self, other: &Animal) -> (r: bool) {
        self.id == other.id && self.name == other.name && self.species == other.species && self.age
            == other.age && self.is_adopted == other.is_adopted
    }
}

impl vstd::std_specs::cmp::PartialEqSpecImpl for Animal {
    open spec fn obeys_eq_spec() -> bool {
        true
    }

    open spec fn eq_spec(&self, other: &Animal) -> bool {
        self.id == other.id && self.name@ == other.name@ && self.species@ == other.species@
            && self.age == other.age && self.is_adopted == other.is_adopted
    }
}

} // verus!
