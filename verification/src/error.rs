//! Errors reported by the decoders.

use vstd::prelude::*;

verus! {

/// What was wrong with the input.
#[derive(Clone, Copy, Debug, PartialEq, Eq, Structural)]
pub enum FormatError {
    /// The first four bytes are not the tag of the format being decoded.
    /// `found` is the tag read, as a little-endian word.
    BadMagic { found: u32 },
    /// The header names a revision other than the supported one.
    UnsupportedVersion { major: u8, minor: u8 },
    /// The header's endianness flag is not zero (little-endian).
    UnsupportedEndianness { flag: u8 },
    /// A read of `needed` bytes was attempted with only `available` left.
    TruncatedData { needed: u64, available: u64 },
    /// A chunk's declared length is negative or reaches past the end of the
    /// stream, of which `available` bytes follow the descriptor.
    InvalidChunkLength { length: i32, available: u64 },
    /// A submesh claims `num_vertices` vertices from `first_vertex` on, which
    /// is a negative count or reaches past the `mesh_vertices` of its mesh.
    SubMeshOutOfRange { first_vertex: i32, num_vertices: i32, mesh_vertices: i32 },
    /// The submeshes of a mesh claim `assigned` vertices together, where the
    /// mesh declares `declared`.
    VertexCountMismatch { assigned: i32, declared: i32 },
    /// A node hierarchy declares `count` nodes, which is not positive.
    InvalidNodeCount { count: i32 },
    /// Node `node` names `parent` as its parent, which is neither -1 nor the
    /// index of a node of the hierarchy.
    InvalidParentIndex { node: usize, parent: i32 },
}

/// A decoding failure with its context.
#[derive(Clone, Copy, Debug, PartialEq, Eq, Structural)]
pub struct ParseError {
    /// What went wrong.
    pub kind: FormatError,
    /// Byte offset in the stream at which the violation was found.
    pub offset: usize,
    /// Type tag of the chunk being decoded, when the failure lies inside one.
    pub chunk_type: Option<i32>,
}

/// The error of kind `kind` found at `offset`, outside any chunk.
pub open spec fn fault(kind: FormatError, offset: int) -> ParseError {
    ParseError { kind, offset: offset as usize, chunk_type: None }
}

/// The error for a read of `needed` bytes at `offset` in a stream of `len` bytes.
pub open spec fn truncated(offset: int, needed: int, len: int) -> ParseError {
    fault(
        FormatError::TruncatedData { needed: needed as u64, available: (len - offset) as u64 },
        offset,
    )
}

/// The same failure, attributed to the chunk with type tag `tag`.
pub open spec fn in_chunk(e: ParseError, tag: i32) -> ParseError {
    ParseError { kind: e.kind, offset: e.offset, chunk_type: Some(tag) }
}

impl ParseError {
    /// The error of kind `kind` found at `offset`, outside any chunk.
    pub fn at(kind: FormatError, offset: usize) -> (r: ParseError)
        ensures
            r == fault(kind, offset as int),
    {
        ParseError { kind, offset, chunk_type: None }
    }

    /// Attributes this failure to the chunk with type tag `tag`.
    pub fn within_chunk(self, tag: i32) -> (r: ParseError)
        ensures
            r == in_chunk(self, tag),
    {
        ParseError { kind: self.kind, offset: self.offset, chunk_type: Some(tag) }
    }
}

} // verus!
