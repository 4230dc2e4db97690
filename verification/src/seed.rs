//! World seeds.

use crate::decimal::{parse_u32, u32_of};
use std::collections::hash_map::DefaultHasher;
use std::hash::{BuildHasher, BuildHasherDefault};
use vstd::prelude::*;
use vstd::std_specs::convert::FromSpecImpl;
use vstd::string::StringSliceAdditionalSpecFns;

verus! {

/// How a world's seed is chosen.
#[derive(Debug, Clone)]
pub enum SeedType {
    /// A fresh seed for every start.
    Random,
    /// The seed itself.
    Value(u32),
    /// A text that the seed is hashed from.
    FromString(String),
}

/// The 32-bit value that all of a world's noise is derived from.
#[derive(Debug, Clone, Copy)]
pub struct Seed(u32);

/// Calls `rand::random`. Nothing is known of the number it gives.
#[verifier::external_body]
fn random_u32() -> u32 {
    rand::random()
}

/// The hash of a text under the standard library's default hasher in its
/// initial state. The hasher has no key of its own, so the hash depends on
/// the text alone; the standard library does not say which hash it is.
pub uninterp spec fn text_hash(text: Seq<char>) -> u64;

/// Calls `std::hash::BuildHasher::hash_one` on the text with the standard
/// library's default hasher in its initial state, and claims no more of
/// the result than that it is the hash of that text.
#[verifier::external_body]
fn hash_text(text: &String) -> (hash: u64)
    ensures
        hash == text_hash(text@),
{
    BuildHasherDefault::<DefaultHasher>::default().hash_one(text)
}

impl Seed {
    /// The seed's value.
    pub closed spec fn value(&self) -> u32 {
        self.0
    }

    /// The seed with a given value.
    pub fn new(value: u32) -> (seed: Seed)
        ensures
            seed.value() == value,
    {
        Seed(value)
    }

    pub fn get(&self) -> (value: u32)
        ensures
            value == self.value(),
    {
        self.0
    }

    /// The seed that a hash of 64 bits stands for: its low 32 bits.
    pub fn from_hash(hash: u64) -> (seed: Seed)
        ensures
            seed.value() == hash % 0x1_0000_0000,
    {
        assert(hash & 0xffff_ffff == hash % 0x1_0000_0000) by (bit_vector);
        Seed((hash & 0xffff_ffff) as u32)
    }
}

impl FromSpecImpl<SeedType> for Seed {
    open spec fn obeys_from_spec() -> bool {
        false
    }

    open spec fn from_spec(seed: SeedType) -> Seed {
        arbitrary()
    }
}

impl From<SeedType> for Seed {
    /// Chooses the seed. A given value is the seed; a text is hashed, and
    /// the seed is the low 32 bits of the hash; a random seed is drawn
    /// anew at each call.
    fn from(seed: SeedType) -> (chosen: Seed)
        ensures
            seed matches SeedType::Value(value) ==> chosen.value() == value,
            seed matches SeedType::FromString(text) ==> chosen.value() == text_hash(text@)
                % 0x1_0000_0000,
    {
        match seed {
            SeedType::Random => Seed::new(random_u32()),
            SeedType::Value(value) => Seed::new(value),
            SeedType::FromString(text) => Seed::from_hash(hash_text(&text)),
        }
    }
}

impl FromSpecImpl<Seed> for u32 {
    open spec fn obeys_from_spec() -> bool {
        true
    }

    open spec fn from_spec(seed: Seed) -> u32 {
        seed.value()
    }
}

impl From<Seed> for u32 {
    fn from(seed: Seed) -> (value: u32) {
        seed.get()
    }
}

/// The choice of seed that a text in a settings file stands for: the empty
/// text for a random seed, a number in decimal digits for that seed, and
/// any other text for the seed hashed from it.
pub open spec fn seed_type_of(text: Seq<char>) -> SeedTypeView {
    if text.len() == 0 {
        SeedTypeView::Random
    } else {
        match u32_of(vstd::utf8::encode_utf8(text)) {
            Some(value) => SeedTypeView::Value(value),
            None => SeedTypeView::FromString(text),
        }
    }
}

/// A choice of seed, with the text as a sequence of characters.
pub enum SeedTypeView {
    Random,
    Value(u32),
    FromString(Seq<char>),
}

impl View for SeedType {
    type V = SeedTypeView;

    open spec fn view(&self) -> SeedTypeView {
        match *self {
            SeedType::Random => SeedTypeView::Random,
            SeedType::Value(value) => SeedTypeView::Value(value),
            SeedType::FromString(text) => SeedTypeView::FromString(text@),
        }
    }
}

impl SeedType {
    /// Reads the choice of seed from a text of a settings file.
    pub fn from_text(text: &str) -> (seed: SeedType)
        ensures
            seed@ == seed_type_of(text@),
    {
        if text.is_empty() {
            return SeedType::Random;
        }
        match parse_u32(text.as_bytes()) {
            Some(value) => SeedType::Value(value),
            None => SeedType::FromString(text.to_owned()),
        }
    }

    /// Reads the choice of seed from a signed number of a settings file:
    /// its low 32 bits are the seed.
    pub fn from_i64(number: i64) -> (seed: SeedType)
        ensures
            seed@ == SeedTypeView::Value((number % 0x1_0000_0000) as u32),
    {
        assert((number & 0xffff_ffff) == number % 0x1_0000_0000) by (bit_vector);
        assert(0 <= (number & 0xffff_ffff) <= 0xffff_ffff) by (bit_vector);
        SeedType::Value((number & 0xffff_ffff) as u32)
    }

    /// Reads the choice of seed from an unsigned number of a settings
    /// file: its low 32 bits are the seed.
    pub fn from_u64(number: u64) -> (seed: SeedType)
        ensures
            seed@ == SeedTypeView::Value((number % 0x1_0000_0000) as u32),
    {
        assert((number & 0xffff_ffff) == number % 0x1_0000_0000) by (bit_vector);
        SeedType::Value((number & 0xffff_ffff) as u32)
    }
}

} // verus!
