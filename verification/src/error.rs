//! The one error type of the chunk store.

use vstd::prelude::*;

verus! {

/// `std::io::Error`, carried as it comes; nothing is read out of it.
#[verifier::external_type_specification]
#[verifier::external_body]
pub struct ExIoError(std::io::Error);

/// `valence_nbt::binary::Error`, carried as it comes; nothing is read out
/// of it.
#[verifier::external_type_specification]
#[verifier::external_body]
pub struct ExNbtError(valence_nbt::binary::Error);

/// A field of the world metadata tree that the spawn point is read from.
#[derive(Clone, Copy, Debug, PartialEq, Eq, Structural)]
pub enum LevelField {
    Data,
    SpawnX,
    SpawnY,
    SpawnZ,
}

/// What is wrong with a tree that could not be read.
#[derive(Clone, Copy, Debug, PartialEq, Eq, Structural)]
pub enum Defect {
    /// The bytes are not a well-formed tree.
    Malformed,
    /// The tree lacks a field, or holds it with another type.
    MissingField(LevelField),
}

/// What a failure is, without the payload that the failing call produced.
#[derive(Clone, Copy, Debug, PartialEq, Eq, Structural)]
pub enum Failure {
    /// Bytes ran out before a read was complete, or a compressed stream was
    /// not valid.
    Io,
    /// The uncompressed bytes are not a tree that can be read.
    Nbt(Defect),
    /// A location entry points into the region header.
    BadSectorOffset,
    /// A payload declares more bytes than its sectors hold.
    BadChunkSize,
    /// The payload's first byte names no known codec.
    UnknownCompressionScheme(u8),
    /// Bytes were left over after the tree.
    IncompleteNbtRead,
}

/// Failure to decode a tree, or to find in it what was to be read.
#[derive(Debug)]
pub enum DecodeError {
    /// The decoder's own error.
    Malformed(valence_nbt::binary::Error),
    /// The tree lacks a field, or holds it with another type.
    MissingField(LevelField),
}

impl View for DecodeError {
    type V = Defect;

    open spec fn view(&self) -> Defect {
        match *self {
            DecodeError::Malformed(_) => Defect::Malformed,
            DecodeError::MissingField(field) => Defect::MissingField(field),
        }
    }
}

impl DecodeError {
    /// The defect without the decoder's error.
    pub fn kind(&self) -> (kind: Defect)
        ensures
            kind == self@,
    {
        match self {
            DecodeError::Malformed(_) => Defect::Malformed,
            DecodeError::MissingField(field) => Defect::MissingField(*field),
        }
    }
}

/// Failure to read a chunk or the world metadata.
#[derive(Debug)]
#[non_exhaustive]
pub enum ReadChunkError {
    Io(std::io::Error),
    Nbt(DecodeError),
    BadSectorOffset,
    BadChunkSize,
    UnknownCompressionScheme(u8),
    IncompleteNbtRead,
}

impl View for ReadChunkError {
    type V = Failure;

    open spec fn view(&self) -> Failure {
        match *self {
            ReadChunkError::Io(_) => Failure::Io,
            ReadChunkError::Nbt(e) => Failure::Nbt(e@),
            ReadChunkError::BadSectorOffset => Failure::BadSectorOffset,
            ReadChunkError::BadChunkSize => Failure::BadChunkSize,
            ReadChunkError::UnknownCompressionScheme(tag) => Failure::UnknownCompressionScheme(tag),
            ReadChunkError::IncompleteNbtRead => Failure::IncompleteNbtRead,
        }
    }
}

impl ReadChunkError {
    /// The error for a tree that the decoder refused.
    pub fn malformed(cause: valence_nbt::binary::Error) -> (error: ReadChunkError)
        ensures
            error@ == Failure::Nbt(Defect::Malformed),
    {
        ReadChunkError::Nbt(DecodeError::Malformed(cause))
    }

    /// The error for a tree that lacks a field.
    pub fn missing(field: LevelField) -> (error: ReadChunkError)
        ensures
            error@ == Failure::Nbt(Defect::MissingField(field)),
    {
        ReadChunkError::Nbt(DecodeError::MissingField(field))
    }

    /// The failure without its payload.
    pub fn kind(&self) -> (kind: Failure)
        ensures
            kind == self@,
    {
        match self {
            ReadChunkError::Io(_) => Failure::Io,
            ReadChunkError::Nbt(e) => Failure::Nbt(e.kind()),
            ReadChunkError::BadSectorOffset => Failure::BadSectorOffset,
            ReadChunkError::BadChunkSize => Failure::BadChunkSize,
            ReadChunkError::UnknownCompressionScheme(tag) => {
                Failure::UnknownCompressionScheme(*tag)
            },
            ReadChunkError::IncompleteNbtRead => Failure::IncompleteNbtRead,
        }
    }
}

} // verus!
