//! Gender derivation: a pure function of the parity of an input byte
//! sequence's length. The two registries use opposite parity conventions.

use vstd::prelude::*;
use crate::types::Error;

verus! {

/// The two-valued categorical attribute derived for every record.
#[derive(Clone, Copy, Debug, PartialEq, Eq, Structural)]
pub enum Gender {
    Male,
    Female,
}

impl Default for Gender {
    fn default() -> (r: Self)
        ensures
            r == Gender::Male,
    {
        Gender::Male
    }
}

/// The student convention: an even-length name gives Female, an odd-length
/// name gives Male.
pub open spec fn student_gender_of(name: Seq<u8>) -> Gender {
    if name.len() % 2 == 0 {
        Gender::Female
    } else {
        Gender::Male
    }
}

/// The kitty convention, the opposite of the student one: an even-length dna
/// gives Male, an odd-length dna gives Female.
pub open spec fn kitty_gender_of(dna: Seq<u8>) -> Gender {
    if dna.len() % 2 == 0 {
        Gender::Male
    } else {
        Gender::Female
    }
}

/// Derives a student's gender from its name. Never fails; the `Result` is
/// kept for the callers that thread it through.
pub fn gen_gender(name: &Vec<u8>) -> (r: Result<Gender, Error>)
    ensures
        r == Ok::<Gender, Error>(student_gender_of(name@)),
{
    let mut res = Gender::Male;
    if name.len() % 2 == 0 {
        res = Gender::Female;
    }
    Ok(res)
}

/// Derives a kitty's gender from its dna.
pub fn gen_kitty_gender(dna: &Vec<u8>) -> (r: Gender)
    ensures
        r == kitty_gender_of(dna@),
{
    let mut res = Gender::Female;
    if dna.len() % 2 == 0 {
        res = Gender::Male;
    }
    res
}

/// Gender derivation is a pure function of length parity: an even-length name
/// gives a Female student and an odd-length name a Male one, an even-length
/// dna gives a Male kitty and an odd-length dna a Female one, and the two
/// conventions always disagree. Stated for non-empty input, where the parity
/// reading of the conventions is unambiguous.
pub proof fn lemma_gender_parity(bytes: Seq<u8>)
    requires
        bytes.len() > 0,
    ensures
        student_gender_of(bytes) == (if bytes.len() % 2 == 0 {
            Gender::Female
        } else {
            Gender::Male
        }),
        kitty_gender_of(bytes) == (if bytes.len() % 2 == 0 {
            Gender::Male
        } else {
            Gender::Female
        }),
        student_gender_of(bytes) != kitty_gender_of(bytes),
{
}

} // verus!
