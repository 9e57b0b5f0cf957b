//! The decoded XSM document and the records it is made of.
//!
//! Single-precision numbers are kept as their bits ([`Float32`]); what a
//! record with strings or lists holds is given by its view.

use crate::bytes::Float32;
use crate::model::views;
use vstd::prelude::*;

verus! {

/// A triple of single-precision numbers.
#[derive(Clone, Copy, Debug, PartialEq, Eq, Structural)]
pub struct XsmVec3d {
    pub x: Float32,
    pub y: Float32,
    pub z: Float32,
}

impl View for XsmVec3d {
    type V = XsmVec3d;

    open spec fn view(&self) -> XsmVec3d {
        *self
    }
}

/// A rotation in compressed form: four 16-bit integer components.
#[derive(Clone, Copy, Debug, PartialEq, Eq, Structural)]
pub struct XsmQuaternion16 {
    pub x: i16,
    pub y: i16,
    pub z: i16,
    pub w: i16,
}

impl View for XsmQuaternion16 {
    type V = XsmQuaternion16;

    open spec fn view(&self) -> XsmQuaternion16 {
        *self
    }
}

/// A chunk descriptor: type tag, declared byte length of the body, format version.
#[derive(Clone, Copy, Debug, PartialEq, Eq, Structural)]
pub struct XsmChunk {
    pub chunk_type: i32,
    pub length: i32,
    pub version: i32,
}

impl View for XsmChunk {
    type V = XsmChunk;

    open spec fn view(&self) -> XsmChunk {
        *self
    }
}

/// A position keyframe.
#[derive(Clone, Copy, Debug, PartialEq, Eq, Structural)]
pub struct XsmPosKey {
    pub pos: XsmVec3d,
    pub time: Float32,
}

impl View for XsmPosKey {
    type V = XsmPosKey;

    open spec fn view(&self) -> XsmPosKey {
        *self
    }
}

/// A rotation keyframe.
#[derive(Clone, Copy, Debug, PartialEq, Eq, Structural)]
pub struct XsmRotKey {
    pub rot: XsmQuaternion16,
    pub time: Float32,
}

impl View for XsmRotKey {
    type V = XsmRotKey;

    open spec fn view(&self) -> XsmRotKey {
        *self
    }
}

/// A scale keyframe.
#[derive(Clone, Copy, Debug, PartialEq, Eq, Structural)]
pub struct XsmScaleKey {
    pub scale: XsmVec3d,
    pub time: Float32,
}

impl View for XsmScaleKey {
    type V = XsmScaleKey;

    open spec fn view(&self) -> XsmScaleKey {
        *self
    }
}

/// A scale-rotation keyframe.
#[derive(Clone, Copy, Debug, PartialEq, Eq, Structural)]
pub struct XsmScaleRotKey {
    pub rot: XsmQuaternion16,
    pub time: Float32,
}

impl View for XsmScaleRotKey {
    type V = XsmScaleRotKey;

    open spec fn view(&self) -> XsmScaleRotKey {
        *self
    }
}

/// The file header.
#[derive(Clone, Debug, PartialEq, Eq)]
pub struct XsmHeader {
    pub magic: String,
    pub major_version: u8,
    pub minor_version: u8,
    pub big_endian: bool,
}

/// What a [`XsmHeader`] holds, as mathematical values.
pub struct XsmHeaderView {
    pub magic: Seq<char>,
    pub major_version: u8,
    pub minor_version: u8,
    pub big_endian: bool,
}

impl View for XsmHeader {
    type V = XsmHeaderView;

    open spec fn view(&self) -> XsmHeaderView {
        XsmHeaderView {
            magic: self.magic@,
            major_version: self.major_version,
            minor_version: self.minor_version,
            big_endian: self.big_endian,
        }
    }
}

impl XsmHeaderView {
    /// The value before anything was decoded into it: numbers zero, strings and lists empty.
    pub open spec fn empty() -> XsmHeaderView {
        XsmHeaderView {
            magic: Seq::empty(),
            major_version: 0,
            minor_version: 0,
            big_endian: false,
        }
    }
}

impl XsmHeader {
    /// The value before anything was decoded into it: numbers zero, strings and lists empty.
    pub fn empty() -> (r: XsmHeader)
        ensures
            r@ == XsmHeaderView::empty(),
    {
        let r = XsmHeader {
            magic: String::new(),
            major_version: 0,
            minor_version: 0,
            big_endian: false,
        };
        proof {
            assert(r.magic@ =~= Seq::empty());
        }
        r
    }
}

/// Where and how a motion was exported.
#[derive(Clone, Debug, PartialEq, Eq)]
pub struct XsmMetadata {
    pub unused: Float32,
    pub max_acceptable_error: Float32,
    pub fps: i32,
    pub exporter_major_version: u8,
    pub exporter_minor_version: u8,
    pub source_app: String,
    pub original_filename: String,
    pub export_date: String,
    pub motion_name: String,
}

/// What a [`XsmMetadata`] holds, as mathematical values.
pub struct XsmMetadataView {
    pub unused: Float32,
    pub max_acceptable_error: Float32,
    pub fps: i32,
    pub exporter_major_version: u8,
    pub exporter_minor_version: u8,
    pub source_app: Seq<char>,
    pub original_filename: Seq<char>,
    pub export_date: Seq<char>,
    pub motion_name: Seq<char>,
}

impl View for XsmMetadata {
    type V = XsmMetadataView;

    open spec fn view(&self) -> XsmMetadataView {
        XsmMetadataView {
            unused: self.unused,
            max_acceptable_error: self.max_acceptable_error,
            fps: self.fps,
            exporter_major_version: self.exporter_major_version,
            exporter_minor_version: self.exporter_minor_version,
            source_app: self.source_app@,
            original_filename: self.original_filename@,
            export_date: self.export_date@,
            motion_name: self.motion_name@,
        }
    }
}

impl XsmMetadataView {
    /// The value before anything was decoded into it: numbers zero, strings and lists empty.
    pub open spec fn empty() -> XsmMetadataView {
        XsmMetadataView {
            unused: Float32 { bits: 0 },
            max_acceptable_error: Float32 { bits: 0 },
            fps: 0,
            exporter_major_version: 0,
            exporter_minor_version: 0,
            source_app: Seq::empty(),
            original_filename: Seq::empty(),
            export_date: Seq::empty(),
            motion_name: Seq::empty(),
        }
    }
}

impl XsmMetadata {
    /// The value before anything was decoded into it: numbers zero, strings and lists empty.
    pub fn empty() -> (r: XsmMetadata)
        ensures
            r@ == XsmMetadataView::empty(),
    {
        let r = XsmMetadata {
            unused: Float32 { bits: 0 },
            max_acceptable_error: Float32 { bits: 0 },
            fps: 0,
            exporter_major_version: 0,
            exporter_minor_version: 0,
            source_app: String::new(),
            original_filename: String::new(),
            export_date: String::new(),
            motion_name: String::new(),
        };
        proof {
            assert(r.source_app@ =~= Seq::empty());
            assert(r.original_filename@ =~= Seq::empty());
            assert(r.export_date@ =~= Seq::empty());
            assert(r.motion_name@ =~= Seq::empty());
        }
        r
    }
}

/// The keyframe tracks of one bone: pose and bind pose, then the position,
/// rotation, scale and scale-rotation keys in file order.
#[derive(Clone, Debug, PartialEq, Eq)]
pub struct XsmSubMotion {
    pub pose_rot: XsmQuaternion16,
    pub bind_pose_rot: XsmQuaternion16,
    pub pose_scale_rot: XsmQuaternion16,
    pub bind_pose_scale_rot: XsmQuaternion16,
    pub pose_pos: XsmVec3d,
    pub pose_scale: XsmVec3d,
    pub bind_pose_pos: XsmVec3d,
    pub bind_pose_scale_pos: XsmVec3d,
    pub num_pos_keys: i32,
    pub num_rot_keys: i32,
    pub num_scale_keys: i32,
    pub num_scale_rot_keys: i32,
    pub max_error: Float32,
    pub node_name: String,
    pub pos_key: Vec<XsmPosKey>,
    pub rot_key: Vec<XsmRotKey>,
    pub scale_key: Vec<XsmScaleKey>,
    pub scale_rot_key: Vec<XsmScaleRotKey>,
}

/// What a [`XsmSubMotion`] holds, as mathematical values.
pub struct XsmSubMotionView {
    pub pose_rot: XsmQuaternion16,
    pub bind_pose_rot: XsmQuaternion16,
    pub pose_scale_rot: XsmQuaternion16,
    pub bind_pose_scale_rot: XsmQuaternion16,
    pub pose_pos: XsmVec3d,
    pub pose_scale: XsmVec3d,
    pub bind_pose_pos: XsmVec3d,
    pub bind_pose_scale_pos: XsmVec3d,
    pub num_pos_keys: i32,
    pub num_rot_keys: i32,
    pub num_scale_keys: i32,
    pub num_scale_rot_keys: i32,
    pub max_error: Float32,
    pub node_name: Seq<char>,
    pub pos_key: Seq<XsmPosKey>,
    pub rot_key: Seq<XsmRotKey>,
    pub scale_key: Seq<XsmScaleKey>,
    pub scale_rot_key: Seq<XsmScaleRotKey>,
}

impl View for XsmSubMotion {
    type V = XsmSubMotionView;

    open spec fn view(&self) -> XsmSubMotionView {
        XsmSubMotionView {
            pose_rot: self.pose_rot,
            bind_pose_rot: self.bind_pose_rot,
            pose_scale_rot: self.pose_scale_rot,
            bind_pose_scale_rot: self.bind_pose_scale_rot,
            pose_pos: self.pose_pos,
            pose_scale: self.pose_scale,
            bind_pose_pos: self.bind_pose_pos,
            bind_pose_scale_pos: self.bind_pose_scale_pos,
            num_pos_keys: self.num_pos_keys,
            num_rot_keys: self.num_rot_keys,
            num_scale_keys: self.num_scale_keys,
            num_scale_rot_keys: self.num_scale_rot_keys,
            max_error: self.max_error,
            node_name: self.node_name@,
            pos_key: self.pos_key@,
            rot_key: self.rot_key@,
            scale_key: self.scale_key@,
            scale_rot_key: self.scale_rot_key@,
        }
    }
}

/// The submotions of a motion, one per bone, in file order.
#[derive(Clone, Debug, PartialEq, Eq)]
pub struct XsmBoneAnimation {
    pub num_submotion: i32,
    pub skeletal_submotion: Vec<XsmSubMotion>,
}

/// What a [`XsmBoneAnimation`] holds, as mathematical values.
pub struct XsmBoneAnimationView {
    pub num_submotion: i32,
    pub skeletal_submotion: Seq<XsmSubMotionView>,
}

impl View for XsmBoneAnimation {
    type V = XsmBoneAnimationView;

    open spec fn view(&self) -> XsmBoneAnimationView {
        XsmBoneAnimationView {
            num_submotion: self.num_submotion,
            skeletal_submotion: views(self.skeletal_submotion@),
        }
    }
}

impl XsmBoneAnimationView {
    /// The value before anything was decoded into it: numbers zero, strings and lists empty.
    pub open spec fn empty() -> XsmBoneAnimationView {
        XsmBoneAnimationView {
            num_submotion: 0,
            skeletal_submotion: Seq::empty(),
        }
    }
}

impl XsmBoneAnimation {
    /// The value before anything was decoded into it: numbers zero, strings and lists empty.
    pub fn empty() -> (r: XsmBoneAnimation)
        ensures
            r@ == XsmBoneAnimationView::empty(),
    {
        let r = XsmBoneAnimation {
            num_submotion: 0,
            skeletal_submotion: Vec::new(),
        };
        proof {
            assert(views(r.skeletal_submotion@) =~= Seq::empty());
        }
        r
    }
}

/// A decoded animation document.
#[derive(Clone, Debug, PartialEq, Eq)]
pub struct Xsm {
    pub header: XsmHeader,
    pub metadata: XsmMetadata,
    pub bone_animation: XsmBoneAnimation,
}

/// What a [`Xsm`] holds, as mathematical values.
pub struct XsmView {
    pub header: XsmHeaderView,
    pub metadata: XsmMetadataView,
    pub bone_animation: XsmBoneAnimationView,
}

impl View for Xsm {
    type V = XsmView;

    open spec fn view(&self) -> XsmView {
        XsmView {
            header: self.header@,
            metadata: self.metadata@,
            bone_animation: self.bone_animation@,
        }
    }
}

impl XsmView {
    /// The value before anything was decoded into it: numbers zero, strings and lists empty.
    pub open spec fn empty() -> XsmView {
        XsmView {
            header: XsmHeaderView::empty(),
            metadata: XsmMetadataView::empty(),
            bone_animation: XsmBoneAnimationView::empty(),
        }
    }
}

impl Xsm {
    /// The value before anything was decoded into it: numbers zero, strings and lists empty.
    pub fn empty() -> (r: Xsm)
        ensures
            r@ == XsmView::empty(),
    {
        let r = Xsm {
            header: XsmHeader::empty(),
            metadata: XsmMetadata::empty(),
            bone_animation: XsmBoneAnimation::empty(),
        };
        r
    }
}

} // verus!
