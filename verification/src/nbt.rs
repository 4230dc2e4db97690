//! The tree format that chunk payloads and the world metadata share.

use crate::error::{Defect, Failure, ReadChunkError};
use valence_nbt::{Compound, Value};
use vstd::prelude::*;

verus! {

/// `valence_nbt::Compound`, a tree: values of several types under names.
/// What a tree holds is known only through the functions below.
#[verifier::external_type_specification]
#[verifier::external_body]
pub struct ExCompound(Compound);

/// `valence_nbt::Value`, one value of a tree.
#[verifier::external_type_specification]
#[verifier::external_body]
pub struct ExValue(Value);

/// The tree that the binary form at the front of `input` spells, with the
/// number of bytes that follow it; `None` where the bytes are malformed.
pub uninterp spec fn nbt_decode(input: Seq<u8>) -> Option<(Compound, int)>;

/// The value that a compound holds under a key.
pub uninterp spec fn compound_get(tree: Compound, key: Seq<char>) -> Option<Value>;

/// The number in a value that is a 32-bit integer.
pub uninterp spec fn value_as_int(value: Value) -> Option<i32>;

/// The compound in a value that is one.
pub uninterp spec fn value_as_compound(value: Value) -> Option<Compound>;

/// Calls `valence_nbt::Compound::from_binary`, which reads one named root
/// compound from the front of the slice and moves the slice past it. The
/// root's name is dropped. The decoder only ever shortens the slice.
#[verifier::external_body]
pub(crate) fn from_binary(input: &[u8]) -> (r: Result<
    (Compound, usize),
    valence_nbt::binary::Error,
>)
    ensures
        match r {
            Ok((tree, rest)) => nbt_decode(input@) == Some((tree, rest as int)) && rest
                <= input@.len(),
            Err(_) => nbt_decode(input@) is None,
        },
{
    let mut slice = input;
    let (tree, _) = Compound::from_binary(&mut slice)?;
    Ok((tree, slice.len()))
}

/// Calls `valence_nbt::Compound::get` with a string key.
#[verifier::external_body]
pub(crate) fn get<'a>(tree: &'a Compound, key: &str) -> (r: Option<&'a Value>)
    ensures
        r matches Some(v) ==> compound_get(*tree, key@) == Some(*v),
        r is None ==> compound_get(*tree, key@) is None,
{
    tree.get(key)
}

/// Calls `valence_nbt::Value::as_int`, which gives the number of an `Int`
/// value and nothing for any other.
#[verifier::external_body]
pub(crate) fn as_int(value: &Value) -> (r: Option<i32>)
    ensures
        r == value_as_int(*value),
{
    value.as_int().copied()
}

/// Calls `valence_nbt::Value::as_compound`, which gives the compound of a
/// `Compound` value and nothing for any other.
#[verifier::external_body]
pub(crate) fn as_compound<'a>(value: &'a Value) -> (r: Option<&'a Compound>)
    ensures
        r matches Some(c) ==> value_as_compound(*value) == Some(*c),
        r is None ==> value_as_compound(*value) is None,
{
    value.as_compound()
}

/// The tree in `raw`, where `raw` holds one tree and nothing after it.
pub open spec fn whole_tree(raw: Seq<u8>) -> Result<Compound, Failure> {
    match nbt_decode(raw) {
        None => Err(Failure::Nbt(Defect::Malformed)),
        Some((tree, rest)) => if rest != 0 {
            Err(Failure::IncompleteNbtRead)
        } else {
            Ok(tree)
        },
    }
}

/// What follows the decoder: a failed decode is a decode error, and bytes
/// left unread make the read incomplete.
pub fn finish_decode(decoded: Result<(Compound, usize), valence_nbt::binary::Error>) -> (r: Result<
    Compound,
    ReadChunkError,
>)
    ensures
        match decoded {
            Err(_) => r matches Err(e) && e@ == Failure::Nbt(Defect::Malformed),
            Ok((tree, rest)) => if rest != 0 {
                r matches Err(e) && e@ == Failure::IncompleteNbtRead
            } else {
                r == Ok::<Compound, ReadChunkError>(tree)
            },
        },
{
    match decoded {
        Err(e) => Err(ReadChunkError::malformed(e)),
        Ok((tree, rest)) => {
            if rest != 0 {
                Err(ReadChunkError::IncompleteNbtRead)
            } else {
                Ok(tree)
            }
        },
    }
}

/// Decodes `raw` as one tree that takes up all of it.
pub fn decode_tree(raw: &[u8]) -> (r: Result<Compound, ReadChunkError>)
    ensures
        match r {
            Ok(tree) => whole_tree(raw@) == Ok::<Compound, Failure>(tree),
            Err(e) => whole_tree(raw@) == Err::<Compound, Failure>(e@),
        },
{
    finish_decode(from_binary(raw))
}

} // verus!
