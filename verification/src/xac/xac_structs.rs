//! The decoded XAC document and the records it is made of.
//!
//! Single-precision numbers are kept as their bits ([`Float32`]); what a
//! record with strings or lists holds is given by its view.

use crate::bytes::Float32;
use crate::model::views;
use vstd::prelude::*;

verus! {

/// A pair of single-precision numbers.
#[derive(Clone, Copy, Debug, PartialEq, Eq, Structural)]
pub struct XacVec2d {
    pub x: Float32,
    pub y: Float32,
}

impl View for XacVec2d {
    type V = XacVec2d;

    open spec fn view(&self) -> XacVec2d {
        *self
    }
}

/// A triple of single-precision numbers.
#[derive(Clone, Copy, Debug, PartialEq, Eq, Structural)]
pub struct XacVec3d {
    pub x: Float32,
    pub y: Float32,
    pub z: Float32,
}

impl View for XacVec3d {
    type V = XacVec3d;

    open spec fn view(&self) -> XacVec3d {
        *self
    }
}

/// Four single-precision numbers.
#[derive(Clone, Copy, Debug, PartialEq, Eq, Structural)]
pub struct XacVec4d {
    pub x: Float32,
    pub y: Float32,
    pub z: Float32,
    pub w: Float32,
}

impl View for XacVec4d {
    type V = XacVec4d;

    open spec fn view(&self) -> XacVec4d {
        *self
    }
}

impl XacVec4d {
    /// The value with every component zero.
    pub open spec fn zeroed() -> XacVec4d {
        XacVec4d {
            x: Float32 { bits: 0 },
            y: Float32 { bits: 0 },
            z: Float32 { bits: 0 },
            w: Float32 { bits: 0 },
        }
    }

    /// The value with every component zero.
    pub fn zero() -> (r: XacVec4d)
        ensures
            r == XacVec4d::zeroed(),
    {
        XacVec4d {
            x: Float32 { bits: 0 },
            y: Float32 { bits: 0 },
            z: Float32 { bits: 0 },
            w: Float32 { bits: 0 },
        }
    }
}

/// A colour of three 8-bit channels.
#[derive(Clone, Copy, Debug, PartialEq, Eq, Structural)]
pub struct XacColor8 {
    pub x: u8,
    pub y: u8,
    pub z: u8,
}

impl View for XacColor8 {
    type V = XacColor8;

    open spec fn view(&self) -> XacColor8 {
        *self
    }
}

/// A rotation whose four components are stored as 32-bit integers.
#[derive(Clone, Copy, Debug, PartialEq, Eq, Structural)]
pub struct XacQuaternion {
    pub x: i32,
    pub y: i32,
    pub z: i32,
    pub w: i32,
}

impl View for XacQuaternion {
    type V = XacQuaternion;

    open spec fn view(&self) -> XacQuaternion {
        *self
    }
}

/// A transform of three columns and a position.
#[derive(Clone, Copy, Debug, PartialEq, Eq, Structural)]
pub struct XacMatrix44 {
    pub col1: XacVec4d,
    pub col2: XacVec4d,
    pub col3: XacVec4d,
    pub pos: XacVec4d,
}

impl View for XacMatrix44 {
    type V = XacMatrix44;

    open spec fn view(&self) -> XacMatrix44 {
        *self
    }
}

/// A chunk descriptor: type tag, declared byte length of the body, format version.
#[derive(Clone, Copy, Debug, PartialEq, Eq, Structural)]
pub struct XacChunk {
    pub chunk_type: i32,
    pub length: i32,
    pub version: i32,
}

impl View for XacChunk {
    type V = XacChunk;

    open spec fn view(&self) -> XacChunk {
        *self
    }
}

/// The material counts of a model.
#[derive(Clone, Copy, Debug, PartialEq, Eq, Structural)]
pub struct XacMaterialTotal {
    pub num_total_materials: i32,
    pub num_standard_materials: i32,
    pub num_fx_materials: i32,
}

impl View for XacMaterialTotal {
    type V = XacMaterialTotal;

    open spec fn view(&self) -> XacMaterialTotal {
        *self
    }
}

impl XacMaterialTotal {
    /// The value with every component zero.
    pub open spec fn zeroed() -> XacMaterialTotal {
        XacMaterialTotal { num_total_materials: 0, num_standard_materials: 0, num_fx_materials: 0 }
    }

    /// The value with every component zero.
    pub fn zero() -> (r: XacMaterialTotal)
        ensures
            r == XacMaterialTotal::zeroed(),
    {
        XacMaterialTotal { num_total_materials: 0, num_standard_materials: 0, num_fx_materials: 0 }
    }
}

/// The file header.
#[derive(Clone, Debug, PartialEq, Eq)]
pub struct XacHeader {
    pub magic: String,
    pub major_version: u8,
    pub minor_version: u8,
    pub big_endian: u8,
    pub multiply_order: u8,
}

/// What a [`XacHeader`] holds, as mathematical values.
pub struct XacHeaderView {
    pub magic: Seq<char>,
    pub major_version: u8,
    pub minor_version: u8,
    pub big_endian: u8,
    pub multiply_order: u8,
}

impl View for XacHeader {
    type V = XacHeaderView;

    open spec fn view(&self) -> XacHeaderView {
        XacHeaderView {
            magic: self.magic@,
            major_version: self.major_version,
            minor_version: self.minor_version,
            big_endian: self.big_endian,
            multiply_order: self.multiply_order,
        }
    }
}

impl XacHeaderView {
    /// The value before anything was decoded into it: numbers zero, strings and lists empty.
    pub open spec fn empty() -> XacHeaderView {
        XacHeaderView {
            magic: Seq::empty(),
            major_version: 0,
            minor_version: 0,
            big_endian: 0,
            multiply_order: 0,
        }
    }
}

impl XacHeader {
    /// The value before anything was decoded into it: numbers zero, strings and lists empty.
    pub fn empty() -> (r: XacHeader)
        ensures
            r@ == XacHeaderView::empty(),
    {
        let r = XacHeader {
            magic: String::new(),
            major_version: 0,
            minor_version: 0,
            big_endian: 0,
            multiply_order: 0,
        };
        proof {
            assert(r.magic@ =~= Seq::empty());
        }
        r
    }
}

/// Where and how a model was exported.
#[derive(Clone, Debug, PartialEq, Eq)]
pub struct XacMetadata {
    pub reposition_mask: u32,
    pub repositioning_node: i32,
    pub exporter_major_version: u8,
    pub exporter_minor_version: u8,
    pub retarget_root_offset: Float32,
    pub source_app: String,
    pub original_filename: String,
    pub export_date: String,
    pub actor_name: String,
}

/// What a [`XacMetadata`] holds, as mathematical values.
pub struct XacMetadataView {
    pub reposition_mask: u32,
    pub repositioning_node: i32,
    pub exporter_major_version: u8,
    pub exporter_minor_version: u8,
    pub retarget_root_offset: Float32,
    pub source_app: Seq<char>,
    pub original_filename: Seq<char>,
    pub export_date: Seq<char>,
    pub actor_name: Seq<char>,
}

impl View for XacMetadata {
    type V = XacMetadataView;

    open spec fn view(&self) -> XacMetadataView {
        XacMetadataView {
            reposition_mask: self.reposition_mask,
            repositioning_node: self.repositioning_node,
            exporter_major_version: self.exporter_major_version,
            exporter_minor_version: self.exporter_minor_version,
            retarget_root_offset: self.retarget_root_offset,
            source_app: self.source_app@,
            original_filename: self.original_filename@,
            export_date: self.export_date@,
            actor_name: self.actor_name@,
        }
    }
}

impl XacMetadataView {
    /// The value before anything was decoded into it: numbers zero, strings and lists empty.
    pub open spec fn empty() -> XacMetadataView {
        XacMetadataView {
            reposition_mask: 0,
            repositioning_node: 0,
            exporter_major_version: 0,
            exporter_minor_version: 0,
            retarget_root_offset: Float32 { bits: 0 },
            source_app: Seq::empty(),
            original_filename: Seq::empty(),
            export_date: Seq::empty(),
            actor_name: Seq::empty(),
        }
    }
}

impl XacMetadata {
    /// The value before anything was decoded into it: numbers zero, strings and lists empty.
    pub fn empty() -> (r: XacMetadata)
        ensures
            r@ == XacMetadataView::empty(),
    {
        let r = XacMetadata {
            reposition_mask: 0,
            repositioning_node: 0,
            exporter_major_version: 0,
            exporter_minor_version: 0,
            retarget_root_offset: Float32 { bits: 0 },
            source_app: String::new(),
            original_filename: String::new(),
            export_date: String::new(),
            actor_name: String::new(),
        };
        proof {
            assert(r.source_app@ =~= Seq::empty());
            assert(r.original_filename@ =~= Seq::empty());
            assert(r.export_date@ =~= Seq::empty());
            assert(r.actor_name@ =~= Seq::empty());
        }
        r
    }
}

/// One attribute layer of a mesh: its record, and one value per vertex in the
/// buffer that belongs to its type. The other buffers are empty.
#[derive(Clone, Debug, PartialEq, Eq)]
pub struct XacVerticesAttribute {
    pub type_id: i32,
    pub attribute_size: i32,
    pub keep_originals: u8,
    pub scale_factor: u8,
    pub mesh_position: Vec<XacVec3d>,
    pub mesh_normal: Vec<XacVec3d>,
    pub mesh_unknown_vec4d: Vec<XacVec4d>,
    pub mesh_unknown_vec2d: Vec<XacVec2d>,
    pub mesh_color8: Vec<XacColor8>,
    pub mesh_influence_range_indices: Vec<i32>,
    pub mesh_color: Vec<XacVec3d>,
}

/// What a [`XacVerticesAttribute`] holds, as mathematical values.
pub struct XacVerticesAttributeView {
    pub type_id: i32,
    pub attribute_size: i32,
    pub keep_originals: u8,
    pub scale_factor: u8,
    pub mesh_position: Seq<XacVec3d>,
    pub mesh_normal: Seq<XacVec3d>,
    pub mesh_unknown_vec4d: Seq<XacVec4d>,
    pub mesh_unknown_vec2d: Seq<XacVec2d>,
    pub mesh_color8: Seq<XacColor8>,
    pub mesh_influence_range_indices: Seq<i32>,
    pub mesh_color: Seq<XacVec3d>,
}

impl View for XacVerticesAttribute {
    type V = XacVerticesAttributeView;

    open spec fn view(&self) -> XacVerticesAttributeView {
        XacVerticesAttributeView {
            type_id: self.type_id,
            attribute_size: self.attribute_size,
            keep_originals: self.keep_originals,
            scale_factor: self.scale_factor,
            mesh_position: self.mesh_position@,
            mesh_normal: self.mesh_normal@,
            mesh_unknown_vec4d: self.mesh_unknown_vec4d@,
            mesh_unknown_vec2d: self.mesh_unknown_vec2d@,
            mesh_color8: self.mesh_color8@,
            mesh_influence_range_indices: self.mesh_influence_range_indices@,
            mesh_color: self.mesh_color@,
        }
    }
}

/// A contiguous vertex range of a mesh with its slice of every attribute
/// buffer, its triangle indices and its bone ids.
#[derive(Clone, Debug, PartialEq, Eq)]
pub struct XacSubMesh {
    pub num_indices: i32,
    pub num_vertices: i32,
    pub material_id: i32,
    pub num_bones: i32,
    pub sub_position: Vec<XacVec3d>,
    pub sub_normal: Vec<XacVec3d>,
    pub sub_tangent: Vec<XacVec4d>,
    pub sub_bi_tangent: Vec<XacVec4d>,
    pub sub_uv_set: Vec<Vec<XacVec2d>>,
    pub sub_influence_range_indices: Vec<i32>,
    pub sub_color: Vec<Vec<XacVec3d>>,
    pub sub_color8: Vec<Vec<XacColor8>>,
    pub sub_indices: Vec<i32>,
    pub sub_bone_ids: Vec<u8>,
}

/// What a [`XacSubMesh`] holds, as mathematical values.
pub struct XacSubMeshView {
    pub num_indices: i32,
    pub num_vertices: i32,
    pub material_id: i32,
    pub num_bones: i32,
    pub sub_position: Seq<XacVec3d>,
    pub sub_normal: Seq<XacVec3d>,
    pub sub_tangent: Seq<XacVec4d>,
    pub sub_bi_tangent: Seq<XacVec4d>,
    pub sub_uv_set: Seq<Seq<XacVec2d>>,
    pub sub_influence_range_indices: Seq<i32>,
    pub sub_color: Seq<Seq<XacVec3d>>,
    pub sub_color8: Seq<Seq<XacColor8>>,
    pub sub_indices: Seq<i32>,
    pub sub_bone_ids: Seq<u8>,
}

impl View for XacSubMesh {
    type V = XacSubMeshView;

    open spec fn view(&self) -> XacSubMeshView {
        XacSubMeshView {
            num_indices: self.num_indices,
            num_vertices: self.num_vertices,
            material_id: self.material_id,
            num_bones: self.num_bones,
            sub_position: self.sub_position@,
            sub_normal: self.sub_normal@,
            sub_tangent: self.sub_tangent@,
            sub_bi_tangent: self.sub_bi_tangent@,
            sub_uv_set: views(self.sub_uv_set@),
            sub_influence_range_indices: self.sub_influence_range_indices@,
            sub_color: views(self.sub_color@),
            sub_color8: views(self.sub_color8@),
            sub_indices: self.sub_indices@,
            sub_bone_ids: self.sub_bone_ids@,
        }
    }
}

/// A mesh: its counts, its attribute layers and its submeshes.
#[derive(Clone, Debug, PartialEq, Eq)]
pub struct XacActorMesh {
    pub node_id: i32,
    pub num_influence_ranges: i32,
    pub num_vertices: i32,
    pub num_indices: i32,
    pub num_submeshes: i32,
    pub num_attribute_layers: i32,
    pub collision_mesh: u8,
    pub vertices_attribute: Vec<XacVerticesAttribute>,
    pub sub_mesh: Vec<XacSubMesh>,
}

/// What a [`XacActorMesh`] holds, as mathematical values.
pub struct XacActorMeshView {
    pub node_id: i32,
    pub num_influence_ranges: i32,
    pub num_vertices: i32,
    pub num_indices: i32,
    pub num_submeshes: i32,
    pub num_attribute_layers: i32,
    pub collision_mesh: u8,
    pub vertices_attribute: Seq<XacVerticesAttributeView>,
    pub sub_mesh: Seq<XacSubMeshView>,
}

impl View for XacActorMesh {
    type V = XacActorMeshView;

    open spec fn view(&self) -> XacActorMeshView {
        XacActorMeshView {
            node_id: self.node_id,
            num_influence_ranges: self.num_influence_ranges,
            num_vertices: self.num_vertices,
            num_indices: self.num_indices,
            num_submeshes: self.num_submeshes,
            num_attribute_layers: self.num_attribute_layers,
            collision_mesh: self.collision_mesh,
            vertices_attribute: views(self.vertices_attribute@),
            sub_mesh: views(self.sub_mesh@),
        }
    }
}

/// A texture layer of a material.
#[derive(Clone, Debug, PartialEq, Eq)]
pub struct XacActorMaterialLayer {
    pub amount: Float32,
    pub u_offset: Float32,
    pub v_offset: Float32,
    pub u_tiling: Float32,
    pub v_tiling: Float32,
    pub rotation_in_radian: Float32,
    pub material_id: i16,
    pub map_type: u8,
    pub texture: String,
}

/// What a [`XacActorMaterialLayer`] holds, as mathematical values.
pub struct XacActorMaterialLayerView {
    pub amount: Float32,
    pub u_offset: Float32,
    pub v_offset: Float32,
    pub u_tiling: Float32,
    pub v_tiling: Float32,
    pub rotation_in_radian: Float32,
    pub material_id: i16,
    pub map_type: u8,
    pub texture: Seq<char>,
}

impl View for XacActorMaterialLayer {
    type V = XacActorMaterialLayerView;

    open spec fn view(&self) -> XacActorMaterialLayerView {
        XacActorMaterialLayerView {
            amount: self.amount,
            u_offset: self.u_offset,
            v_offset: self.v_offset,
            u_tiling: self.u_tiling,
            v_tiling: self.v_tiling,
            rotation_in_radian: self.rotation_in_radian,
            material_id: self.material_id,
            map_type: self.map_type,
            texture: self.texture@,
        }
    }
}

/// A material definition with its texture layers.
#[derive(Clone, Debug, PartialEq, Eq)]
pub struct XacActorMaterial {
    pub ambient_color: XacVec4d,
    pub diffuse_color: XacVec4d,
    pub specular_color: XacVec4d,
    pub emissive_color: XacVec4d,
    pub shine: Float32,
    pub shine_strength: Float32,
    pub opacity: Float32,
    pub ior: Float32,
    pub double_sided: u8,
    pub wireframe: u8,
    pub num_layers: u8,
    pub name: String,
    pub layers: Vec<XacActorMaterialLayer>,
}

/// What a [`XacActorMaterial`] holds, as mathematical values.
pub struct XacActorMaterialView {
    pub ambient_color: XacVec4d,
    pub diffuse_color: XacVec4d,
    pub specular_color: XacVec4d,
    pub emissive_color: XacVec4d,
    pub shine: Float32,
    pub shine_strength: Float32,
    pub opacity: Float32,
    pub ior: Float32,
    pub double_sided: u8,
    pub wireframe: u8,
    pub num_layers: u8,
    pub name: Seq<char>,
    pub layers: Seq<XacActorMaterialLayerView>,
}

impl View for XacActorMaterial {
    type V = XacActorMaterialView;

    open spec fn view(&self) -> XacActorMaterialView {
        XacActorMaterialView {
            ambient_color: self.ambient_color,
            diffuse_color: self.diffuse_color,
            specular_color: self.specular_color,
            emissive_color: self.emissive_color,
            shine: self.shine,
            shine_strength: self.shine_strength,
            opacity: self.opacity,
            ior: self.ior,
            double_sided: self.double_sided,
            wireframe: self.wireframe,
            num_layers: self.num_layers,
            name: self.name@,
            layers: views(self.layers@),
        }
    }
}

impl XacActorMaterialView {
    /// The value before anything was decoded into it: numbers zero, strings and lists empty.
    pub open spec fn empty() -> XacActorMaterialView {
        XacActorMaterialView {
            ambient_color: XacVec4d::zeroed(),
            diffuse_color: XacVec4d::zeroed(),
            specular_color: XacVec4d::zeroed(),
            emissive_color: XacVec4d::zeroed(),
            shine: Float32 { bits: 0 },
            shine_strength: Float32 { bits: 0 },
            opacity: Float32 { bits: 0 },
            ior: Float32 { bits: 0 },
            double_sided: 0,
            wireframe: 0,
            num_layers: 0,
            name: Seq::empty(),
            layers: Seq::empty(),
        }
    }
}

impl XacActorMaterial {
    /// The value before anything was decoded into it: numbers zero, strings and lists empty.
    pub fn empty() -> (r: XacActorMaterial)
        ensures
            r@ == XacActorMaterialView::empty(),
    {
        let r = XacActorMaterial {
            ambient_color: XacVec4d::zero(),
            diffuse_color: XacVec4d::zero(),
            specular_color: XacVec4d::zero(),
            emissive_color: XacVec4d::zero(),
            shine: Float32 { bits: 0 },
            shine_strength: Float32 { bits: 0 },
            opacity: Float32 { bits: 0 },
            ior: Float32 { bits: 0 },
            double_sided: 0,
            wireframe: 0,
            num_layers: 0,
            name: String::new(),
            layers: Vec::new(),
        };
        proof {
            assert(views(r.layers@) =~= Seq::empty());
            assert(r.name@ =~= Seq::empty());
        }
        r
    }
}

/// A named integer property of a shader material.
#[derive(Clone, Debug, PartialEq, Eq)]
pub struct XacIntProperties {
    pub name_properties: String,
    pub value: i32,
}

/// What a [`XacIntProperties`] holds, as mathematical values.
pub struct XacIntPropertiesView {
    pub name_properties: Seq<char>,
    pub value: i32,
}

impl View for XacIntProperties {
    type V = XacIntPropertiesView;

    open spec fn view(&self) -> XacIntPropertiesView {
        XacIntPropertiesView {
            name_properties: self.name_properties@,
            value: self.value,
        }
    }
}

/// A named single-precision property of a shader material.
#[derive(Clone, Debug, PartialEq, Eq)]
pub struct XacFloatProperties {
    pub name_properties: String,
    pub value: Float32,
}

/// What a [`XacFloatProperties`] holds, as mathematical values.
pub struct XacFloatPropertiesView {
    pub name_properties: Seq<char>,
    pub value: Float32,
}

impl View for XacFloatProperties {
    type V = XacFloatPropertiesView;

    open spec fn view(&self) -> XacFloatPropertiesView {
        XacFloatPropertiesView {
            name_properties: self.name_properties@,
            value: self.value,
        }
    }
}

/// A named boolean property of a shader material, stored as a byte.
#[derive(Clone, Debug, PartialEq, Eq)]
pub struct XacBoolProperties {
    pub name_properties: String,
    pub value: u8,
}

/// What a [`XacBoolProperties`] holds, as mathematical values.
pub struct XacBoolPropertiesView {
    pub name_properties: Seq<char>,
    pub value: u8,
}

impl View for XacBoolProperties {
    type V = XacBoolPropertiesView;

    open spec fn view(&self) -> XacBoolPropertiesView {
        XacBoolPropertiesView {
            name_properties: self.name_properties@,
            value: self.value,
        }
    }
}

/// A named string property of a shader material.
#[derive(Clone, Debug, PartialEq, Eq)]
pub struct XacStringProperties {
    pub name_properties: String,
    pub value: String,
}

/// What a [`XacStringProperties`] holds, as mathematical values.
pub struct XacStringPropertiesView {
    pub name_properties: Seq<char>,
    pub value: Seq<char>,
}

impl View for XacStringProperties {
    type V = XacStringPropertiesView;

    open spec fn view(&self) -> XacStringPropertiesView {
        XacStringPropertiesView {
            name_properties: self.name_properties@,
            value: self.value@,
        }
    }
}

/// A shader material with its four property lists.
#[derive(Clone, Debug, PartialEq, Eq)]
pub struct XacShaderMaterial {
    pub num_int: i32,
    pub num_float: i32,
    pub num_bool: i32,
    pub num_string: i32,
    pub flag: i32,
    pub name_material: String,
    pub name_shader: String,
    pub int_property: Vec<XacIntProperties>,
    pub float_property: Vec<XacFloatProperties>,
    pub bool_property: Vec<XacBoolProperties>,
    pub string_property: Vec<XacStringProperties>,
}

/// What a [`XacShaderMaterial`] holds, as mathematical values.
pub struct XacShaderMaterialView {
    pub num_int: i32,
    pub num_float: i32,
    pub num_bool: i32,
    pub num_string: i32,
    pub flag: i32,
    pub name_material: Seq<char>,
    pub name_shader: Seq<char>,
    pub int_property: Seq<XacIntPropertiesView>,
    pub float_property: Seq<XacFloatPropertiesView>,
    pub bool_property: Seq<XacBoolPropertiesView>,
    pub string_property: Seq<XacStringPropertiesView>,
}

impl View for XacShaderMaterial {
    type V = XacShaderMaterialView;

    open spec fn view(&self) -> XacShaderMaterialView {
        XacShaderMaterialView {
            num_int: self.num_int,
            num_float: self.num_float,
            num_bool: self.num_bool,
            num_string: self.num_string,
            flag: self.flag,
            name_material: self.name_material@,
            name_shader: self.name_shader@,
            int_property: views(self.int_property@),
            float_property: views(self.float_property@),
            bool_property: views(self.bool_property@),
            string_property: views(self.string_property@),
        }
    }
}

/// A node of the hierarchy. Its parent is named by index into the node list; -1 marks a root.
#[derive(Clone, Debug, PartialEq, Eq)]
pub struct XacActorNode {
    pub rotation: XacQuaternion,
    pub scale_rotation: XacQuaternion,
    pub position: XacVec3d,
    pub scale: XacVec3d,
    pub parent_node_id: i32,
    pub num_child_nodes: i32,
    pub include_bounds_calc: i32,
    pub transform: XacMatrix44,
    pub importance_factor: Float32,
    pub name: String,
}

/// What a [`XacActorNode`] holds, as mathematical values.
pub struct XacActorNodeView {
    pub rotation: XacQuaternion,
    pub scale_rotation: XacQuaternion,
    pub position: XacVec3d,
    pub scale: XacVec3d,
    pub parent_node_id: i32,
    pub num_child_nodes: i32,
    pub include_bounds_calc: i32,
    pub transform: XacMatrix44,
    pub importance_factor: Float32,
    pub name: Seq<char>,
}

impl View for XacActorNode {
    type V = XacActorNodeView;

    open spec fn view(&self) -> XacActorNodeView {
        XacActorNodeView {
            rotation: self.rotation,
            scale_rotation: self.scale_rotation,
            position: self.position,
            scale: self.scale,
            parent_node_id: self.parent_node_id,
            num_child_nodes: self.num_child_nodes,
            include_bounds_calc: self.include_bounds_calc,
            transform: self.transform,
            importance_factor: self.importance_factor,
            name: self.name@,
        }
    }
}

/// The flat list of nodes, in file order.
#[derive(Clone, Debug, PartialEq, Eq)]
pub struct XacNodeHierarchy {
    pub num_nodes: i32,
    pub num_root_nodes: i32,
    pub node_data: Vec<XacActorNode>,
}

/// What a [`XacNodeHierarchy`] holds, as mathematical values.
pub struct XacNodeHierarchyView {
    pub num_nodes: i32,
    pub num_root_nodes: i32,
    pub node_data: Seq<XacActorNodeView>,
}

impl View for XacNodeHierarchy {
    type V = XacNodeHierarchyView;

    open spec fn view(&self) -> XacNodeHierarchyView {
        XacNodeHierarchyView {
            num_nodes: self.num_nodes,
            num_root_nodes: self.num_root_nodes,
            node_data: views(self.node_data@),
        }
    }
}

impl XacNodeHierarchyView {
    /// The value before anything was decoded into it: numbers zero, strings and lists empty.
    pub open spec fn empty() -> XacNodeHierarchyView {
        XacNodeHierarchyView {
            num_nodes: 0,
            num_root_nodes: 0,
            node_data: Seq::empty(),
        }
    }
}

impl XacNodeHierarchy {
    /// The value before anything was decoded into it: numbers zero, strings and lists empty.
    pub fn empty() -> (r: XacNodeHierarchy)
        ensures
            r@ == XacNodeHierarchyView::empty(),
    {
        let r = XacNodeHierarchy {
            num_nodes: 0,
            num_root_nodes: 0,
            node_data: Vec::new(),
        };
        proof {
            assert(views(r.node_data@) =~= Seq::empty());
        }
        r
    }
}

/// A decoded model document.
#[derive(Clone, Debug, PartialEq, Eq)]
pub struct Xac {
    pub header: XacHeader,
    pub metadata: XacMetadata,
    pub node_hierarchy: XacNodeHierarchy,
    pub material_total: XacMaterialTotal,
    pub material_definition: XacActorMaterial,
    pub mesh: Vec<XacActorMesh>,
    pub shader_material: Vec<XacShaderMaterial>,
}

/// What a [`Xac`] holds, as mathematical values.
pub struct XacView {
    pub header: XacHeaderView,
    pub metadata: XacMetadataView,
    pub node_hierarchy: XacNodeHierarchyView,
    pub material_total: XacMaterialTotal,
    pub material_definition: XacActorMaterialView,
    pub mesh: Seq<XacActorMeshView>,
    pub shader_material: Seq<XacShaderMaterialView>,
}

impl View for Xac {
    type V = XacView;

    open spec fn view(&self) -> XacView {
        XacView {
            header: self.header@,
            metadata: self.metadata@,
            node_hierarchy: self.node_hierarchy@,
            material_total: self.material_total,
            material_definition: self.material_definition@,
            mesh: views(self.mesh@),
            shader_material: views(self.shader_material@),
        }
    }
}

impl XacView {
    /// The value before anything was decoded into it: numbers zero, strings and lists empty.
    pub open spec fn empty() -> XacView {
        XacView {
            header: XacHeaderView::empty(),
            metadata: XacMetadataView::empty(),
            node_hierarchy: XacNodeHierarchyView::empty(),
            material_total: XacMaterialTotal::zeroed(),
            material_definition: XacActorMaterialView::empty(),
            mesh: Seq::empty(),
            shader_material: Seq::empty(),
        }
    }
}

impl Xac {
    /// The value before anything was decoded into it: numbers zero, strings and lists empty.
    pub fn empty() -> (r: Xac)
        ensures
            r@ == XacView::empty(),
    {
        let r = Xac {
            header: XacHeader::empty(),
            metadata: XacMetadata::empty(),
            node_hierarchy: XacNodeHierarchy::empty(),
            material_total: XacMaterialTotal::zero(),
            material_definition: XacActorMaterial::empty(),
            mesh: Vec::new(),
            shader_material: Vec::new(),
        };
        proof {
            assert(views(r.mesh@) =~= Seq::empty());
            assert(views(r.shader_material@) =~= Seq::empty());
        }
        r
    }
}

} // verus!
