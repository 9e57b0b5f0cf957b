//! Type tags of the XSM format.

use vstd::prelude::*;

verus! {

/// The chunk types that the animation-format dispatcher recognizes.
#[derive(Clone, Copy, Debug, PartialEq, Eq, Structural)]
pub enum XsmChunkType {
    XsmMetadataId,
    XsmBoneAnimationId,
}

impl XsmChunkType {
    /// The tag that stands for this chunk type in a chunk descriptor.
    pub open spec fn tag_of(self) -> i32 {
        match self {
            XsmChunkType::XsmMetadataId => 201,
            XsmChunkType::XsmBoneAnimationId => 202,
        }
    }

    /// The chunk type that `tag` stands for, if it is a recognized one.
    pub open spec fn of_tag(tag: i32) -> Option<XsmChunkType> {
        if tag == 201 {
            Some(XsmChunkType::XsmMetadataId)
        } else if tag == 202 {
            Some(XsmChunkType::XsmBoneAnimationId)
        } else {
            None
        }
    }

    /// The tag that stands for this chunk type in a chunk descriptor.
    pub fn tag(self) -> (t: i32)
        ensures
            t == self.tag_of(),
            XsmChunkType::of_tag(t) == Some(self),
    {
        match self {
            XsmChunkType::XsmMetadataId => 201,
            XsmChunkType::XsmBoneAnimationId => 202,
        }
    }

    /// The chunk type that `tag` stands for; `None` for a tag that the
    /// dispatcher skips without decoding.
    pub fn from_tag(tag: i32) -> (t: Option<XsmChunkType>)
        ensures
            t == XsmChunkType::of_tag(tag),
            t matches Some(c) ==> c.tag_of() == tag,
    {
        if tag == 201 {
            Some(XsmChunkType::XsmMetadataId)
        } else if tag == 202 {
            Some(XsmChunkType::XsmBoneAnimationId)
        } else {
            None
        }
    }
}

} // verus!
