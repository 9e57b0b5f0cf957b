//! Type tags of the XAC format.

use vstd::prelude::*;

verus! {

/// The chunk types that the model-format dispatcher recognizes.
#[derive(Clone, Copy, Debug, PartialEq, Eq, Structural)]
pub enum XacChunkType {
    XacMeshId,
    XacSkinningId,
    XacMaterialDefinitionId,
    XacShaderMaterialId,
    XacMetadataId,
    XacNodeHierarchyId,
    XacMorphTargetId,
    XacMaterialTotalId,
}

impl XacChunkType {
    /// The tag that stands for this chunk type in a chunk descriptor.
    pub open spec fn tag_of(self) -> i32 {
        match self {
            XacChunkType::XacMeshId => 1,
            XacChunkType::XacSkinningId => 2,
            XacChunkType::XacMaterialDefinitionId => 3,
            XacChunkType::XacShaderMaterialId => 5,
            XacChunkType::XacMetadataId => 7,
            XacChunkType::XacNodeHierarchyId => 11,
            XacChunkType::XacMorphTargetId => 12,
            XacChunkType::XacMaterialTotalId => 13,
        }
    }

    /// The chunk type that `tag` stands for, if it is a recognized one.
    pub open spec fn of_tag(tag: i32) -> Option<XacChunkType> {
        if tag == 1 {
            Some(XacChunkType::XacMeshId)
        } else if tag == 2 {
            Some(XacChunkType::XacSkinningId)
        } else if tag == 3 {
            Some(XacChunkType::XacMaterialDefinitionId)
        } else if tag == 5 {
            Some(XacChunkType::XacShaderMaterialId)
        } else if tag == 7 {
            Some(XacChunkType::XacMetadataId)
        } else if tag == 11 {
            Some(XacChunkType::XacNodeHierarchyId)
        } else if tag == 12 {
            Some(XacChunkType::XacMorphTargetId)
        } else if tag == 13 {
            Some(XacChunkType::XacMaterialTotalId)
        } else {
            None
        }
    }

    /// The tag that stands for this chunk type in a chunk descriptor.
    pub fn tag(self) -> (t: i32)
        ensures
            t == self.tag_of(),
            XacChunkType::of_tag(t) == Some(self),
    {
        match self {
            XacChunkType::XacMeshId => 1,
            XacChunkType::XacSkinningId => 2,
            XacChunkType::XacMaterialDefinitionId => 3,
            XacChunkType::XacShaderMaterialId => 5,
            XacChunkType::XacMetadataId => 7,
            XacChunkType::XacNodeHierarchyId => 11,
            XacChunkType::XacMorphTargetId => 12,
            XacChunkType::XacMaterialTotalId => 13,
        }
    }

    /// The chunk type that `tag` stands for; `None` for a tag that the
    /// dispatcher skips without decoding.
    pub fn from_tag(tag: i32) -> (t: Option<XacChunkType>)
        ensures
            t == XacChunkType::of_tag(tag),
            t matches Some(c) ==> c.tag_of() == tag,
    {
        if tag == 1 {
            Some(XacChunkType::XacMeshId)
        } else if tag == 2 {
            Some(XacChunkType::XacSkinningId)
        } else if tag == 3 {
            Some(XacChunkType::XacMaterialDefinitionId)
        } else if tag == 5 {
            Some(XacChunkType::XacShaderMaterialId)
        } else if tag == 7 {
            Some(XacChunkType::XacMetadataId)
        } else if tag == 11 {
            Some(XacChunkType::XacNodeHierarchyId)
        } else if tag == 12 {
            Some(XacChunkType::XacMorphTargetId)
        } else if tag == 13 {
            Some(XacChunkType::XacMaterialTotalId)
        } else {
            None
        }
    }
}

/// The kinds of per-vertex attribute layer that a mesh chunk can hold.
#[derive(Clone, Copy, Debug, PartialEq, Eq, Structural)]
pub enum XacVerticesAttributeType {
    XacPositionId,
    XacNormalId,
    XacTangentId,
    XacUVCoordId,
    XacColor32Id,
    XacInfluenceRangeId,
    XacColor128Id,
}

impl XacVerticesAttributeType {
    /// The tag that stands for this attribute type in a layer record.
    pub open spec fn tag_of(self) -> i32 {
        match self {
            XacVerticesAttributeType::XacPositionId => 0,
            XacVerticesAttributeType::XacNormalId => 1,
            XacVerticesAttributeType::XacTangentId => 2,
            XacVerticesAttributeType::XacUVCoordId => 3,
            XacVerticesAttributeType::XacColor32Id => 4,
            XacVerticesAttributeType::XacInfluenceRangeId => 5,
            XacVerticesAttributeType::XacColor128Id => 6,
        }
    }

    /// The attribute type that `tag` stands for, if it is a recognized one.
    pub open spec fn of_tag(tag: i32) -> Option<XacVerticesAttributeType> {
        if tag == 0 {
            Some(XacVerticesAttributeType::XacPositionId)
        } else if tag == 1 {
            Some(XacVerticesAttributeType::XacNormalId)
        } else if tag == 2 {
            Some(XacVerticesAttributeType::XacTangentId)
        } else if tag == 3 {
            Some(XacVerticesAttributeType::XacUVCoordId)
        } else if tag == 4 {
            Some(XacVerticesAttributeType::XacColor32Id)
        } else if tag == 5 {
            Some(XacVerticesAttributeType::XacInfluenceRangeId)
        } else if tag == 6 {
            Some(XacVerticesAttributeType::XacColor128Id)
        } else {
            None
        }
    }

    /// The tag that stands for this attribute type in a layer record.
    pub fn tag(self) -> (t: i32)
        ensures
            t == self.tag_of(),
            XacVerticesAttributeType::of_tag(t) == Some(self),
    {
        match self {
            XacVerticesAttributeType::XacPositionId => 0,
            XacVerticesAttributeType::XacNormalId => 1,
            XacVerticesAttributeType::XacTangentId => 2,
            XacVerticesAttributeType::XacUVCoordId => 3,
            XacVerticesAttributeType::XacColor32Id => 4,
            XacVerticesAttributeType::XacInfluenceRangeId => 5,
            XacVerticesAttributeType::XacColor128Id => 6,
        }
    }

    /// The attribute type that `tag` stands for; `None` for a tag whose
    /// layer is skipped by its declared size.
    pub fn from_tag(tag: i32) -> (t: Option<XacVerticesAttributeType>)
        ensures
            t == XacVerticesAttributeType::of_tag(tag),
            t matches Some(c) ==> c.tag_of() == tag,
    {
        if tag == 0 {
            Some(XacVerticesAttributeType::XacPositionId)
        } else if tag == 1 {
            Some(XacVerticesAttributeType::XacNormalId)
        } else if tag == 2 {
            Some(XacVerticesAttributeType::XacTangentId)
        } else if tag == 3 {
            Some(XacVerticesAttributeType::XacUVCoordId)
        } else if tag == 4 {
            Some(XacVerticesAttributeType::XacColor32Id)
        } else if tag == 5 {
            Some(XacVerticesAttributeType::XacInfluenceRangeId)
        } else if tag == 6 {
            Some(XacVerticesAttributeType::XacColor128Id)
        } else {
            None
        }
    }
}

} // verus!
