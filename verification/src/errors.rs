//! The two recoverable error kinds of the service, plus the capacity errors
//! that the reference design left as aborts.

use vstd::prelude::*;
use vstd::string::StringExecFns;

verus! {

/// The decimal digit character for one value below ten.
pub open spec fn spec_digit(d: nat) -> char {
    if d == 0 {
        '0'
    } else if d == 1 {
        '1'
    } else if d == 2 {
        '2'
    } else if d == 3 {
        '3'
    } else if d == 4 {
        '4'
    } else if d == 5 {
        '5'
    } else if d == 6 {
        '6'
    } else if d == 7 {
        '7'
    } else if d == 8 {
        '8'
    } else {
        '9'
    }
}

/// The decimal rendering of a number, most significant digit first, no
/// leading zeroes except for the number zero itself.
pub open spec fn spec_decimal(n: nat) -> Seq<char>
    decreases n,
{
    if n < 10 {
        seq![spec_digit(n)]
    } else {
        spec_decimal(n / 10) + seq![spec_digit(n % 10)]
    }
}

/// One decimal digit as a string slice.
fn digit_str(d: u64) -> (r: &'static str)
    requires
        d < 10,
    ensures
        r@ == seq![spec_digit(d as nat)],
{
    let r: &'static str = if d == 0 {
        "0"
    } else if d == 1 {
        "1"
    } else if d == 2 {
        "2"
    } else if d == 3 {
        "3"
    } else if d == 4 {
        "4"
    } else if d == 5 {
        "5"
    } else if d == 6 {
        "6"
    } else if d == 7 {
        "7"
    } else if d == 8 {
        "8"
    } else {
        "9"
    };
    proof {
        reveal_strlit("0");
        reveal_strlit("1");
        reveal_strlit("2");
        reveal_strlit("3");
        reveal_strlit("4");
        reveal_strlit("5");
        reveal_strlit("6");
        reveal_strlit("7");
        reveal_strlit("8");
        reveal_strlit("9");
        assert(r@ =~= seq![spec_digit(d as nat)]);
    }
    r
}

/// Renders a number in decimal, for the error messages.
pub fn u64_to_decimal(n: u64) -> (r: String)
    ensures
        r@ == spec_decimal(n as nat),
    decreases n,
{
    if n < 10 {
        String::from_str(digit_str(n))
    } else {
        let mut prefix = u64_to_decimal(n / 10);
        prefix.append(digit_str(n % 10));
        prefix
    }
}

/// Which store an identifier was looked up in.
#[derive(Clone, Copy, Debug, PartialEq, Eq, Structural)]
pub enum EntityKind {
    Adopter,
    Animal,
}

/// Why an argument or a requested state transition was rejected.
#[derive(Clone, Copy, Debug, PartialEq, Eq, Structural)]
pub enum InvalidReason {
    /// A required string field of an adopter registration was empty.
    EmptyAdopterField,
    /// A required field of an animal entry was empty, or its age was zero.
    InvalidAnimalField,
    /// The animal is already adopted, so it cannot be adopted again.
    AlreadyAdopted,
    /// The animal is already available, so it cannot be released again.
    AlreadyReleased,
}

/// Which capacity limit an operation ran into.
#[derive(Clone, Copy, Debug, PartialEq, Eq, Structural)]
pub enum CapacityReason {
    /// The record's serialized form exceeds the per-record size bound.
    RecordTooLarge,
    /// The identifier counter has reached its maximum value.
    IdsExhausted,
}

/// An error returned by a store or workflow operation. All of them are
/// recoverable by the caller; no verified operation panics.
#[derive(Clone, Copy, Debug, PartialEq, Eq, Structural)]
pub enum Error {
    /// The identifier does not exist in the relevant store at call time.
    NotFound { entity: EntityKind, id: u64 },
    /// An argument failed validation, or the transition is not legal from the
    /// current state.
    InvalidInput { reason: InvalidReason },
    /// A size or counter limit was reached.
    CapacityExceeded { reason: CapacityReason },
}

/// The name of an entity kind as it appears in messages.
pub open spec fn spec_entity_name(entity: EntityKind) -> Seq<char> {
    match entity {
        EntityKind::Adopter => "Adopter"@,
        EntityKind::Animal => "Animal"@,
    }
}

/// The human-readable text of an error: for `NotFound` it names the entity
/// kind and the identifier.
pub open spec fn spec_message(e: Error) -> Seq<char> {
    match e {
        Error::NotFound { entity, id } => spec_entity_name(entity) + " with id="@ + spec_decimal(
            id as nat,
        ) + " not found"@,
        Error::InvalidInput { reason } => match reason {
            InvalidReason::EmptyAdopterField => "Name, contact details, and desired animal type cannot be empty"@,
            InvalidReason::InvalidAnimalField => "Name, species, and age cannot be empty"@,
            InvalidReason::AlreadyAdopted => "Animal is already adopted"@,
            InvalidReason::AlreadyReleased => "Animal is already released"@,
        },
        Error::CapacityExceeded { reason } => match reason {
            CapacityReason::RecordTooLarge => "Record exceeds the maximum serialized size"@,
            CapacityReason::IdsExhausted => "Identifier space is exhausted"@,
        },
    }
}

impl Error {
    /// The human-readable message of the error, naming the entity kind and
    /// identifier where one is involved.
    pub fn message(&self) -> (r: String)
        ensures
            r@ == spec_message(*self),
    {
        match self {
            Error::NotFound { entity, id } => {
                let mut m = String::from_str(
                    match entity {
                        EntityKind::Adopter => "Adopter",
                        EntityKind::Animal => "Animal",
                    },
                );
                m.append(" with id=");
                let digits = u64_to_decimal(*id);
                m.append(digits.as_str());
                m.append(" not found");
                m
            },
            Error::InvalidInput { reason } => String::from_str(
                match reason {
                    InvalidReason::EmptyAdopterField => "Name, contact details, and desired animal type cannot be empty",
                    InvalidReason::InvalidAnimalField => "Name, species, and age cannot be empty",
                    InvalidReason::AlreadyAdopted => "Animal is already adopted",
                    InvalidReason::AlreadyReleased => "Animal is already released",
                },
            ),
            Error::CapacityExceeded { reason } => String::from_str(
                match reason {
                    CapacityReason::RecordTooLarge => "Record exceeds the maximum serialized size",
                    CapacityReason::IdsExhausted => "Identifier space is exhausted",
                },
            ),
        }
    }
}

} // verus!
