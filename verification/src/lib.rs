//! A verified record store for an animal-adoption service.
//!
//! The library keeps two kinds of records, adopters and animals, in ordered
//! keyed stores, hands out strictly increasing identifiers shared by both
//! kinds, and enforces the rules that govern an animal's adoption state.

mod errors;
mod ids;
mod records;
mod shelter;
mod store;

pub use errors::CapacityReason;
pub use errors::EntityKind;
pub use errors::Error;
pub use errors::InvalidReason;
pub use errors::u64_to_decimal;
pub use ids::IdAllocator;
pub use records::Adopter;
pub use records::Animal;
pub use records::MAX_RECORD_BYTES;
pub use records::Record;
pub use records::adopter_record_len;
pub use records::animal_record_len;
pub use records::field_len;
pub use shelter::Shelter;
pub use shelter::adopter_fields_filled;
pub use shelter::animal_fields_filled;
pub use shelter::lemma_adopt_then_release_restores;
pub use shelter::lemma_creation_ids_unique;
pub use shelter::lemma_issued_id_fresh;
pub use shelter::prefers;
pub use shelter::with_adoption;
pub use store::EntityStore;
pub use store::lemma_insert_then_get;
pub use store::lemma_remove_then_get;
