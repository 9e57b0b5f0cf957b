//! Decoders for the primitive values of the XAC format and for its header.

use crate::bytes::{le_i32, le_u32};
use crate::error::{fault, in_chunk, truncated, FormatError, ParseError};
use crate::model::lemma_views_push;
use crate::reader::{decoded, entries, fixed, float_at, spec_string, Reader};
use crate::xac::xac_enums::XacChunkType;
use crate::xac::xac_material::{
    read_material_definition, read_shader_material, spec_material, spec_shader_material,
};
use crate::xac::xac_forest::parents_exist;
use crate::xac::xac_mesh::{lemma_decoded_mesh_consistent, mesh_consistent, read_mesh, spec_mesh};
use crate::xac::xac_nodes::{lemma_decoded_hierarchy, read_node_hierarchy, spec_node_hierarchy};
use crate::xac::xac_structs::{
    Xac, XacChunk, XacColor8, XacHeader, XacHeaderView, XacMaterialTotal, XacMatrix44, XacMetadata,
    XacMetadataView, XacQuaternion, XacVec2d, XacVec3d, XacVec4d, XacView,
};
use vstd::prelude::*;
use vstd::string::*;

verus! {

/// The colour whose three channels start at `data[pos]`.
pub open spec fn color8_at(data: Seq<u8>, pos: int) -> XacColor8 {
    XacColor8 { x: data[pos], y: data[pos + 1], z: data[pos + 2] }
}

/// The pair of numbers whose encoding starts at `data[pos]`.
pub open spec fn vec2d_at(data: Seq<u8>, pos: int) -> XacVec2d {
    XacVec2d { x: float_at(data, pos), y: float_at(data, pos + 4) }
}

/// The triple of numbers whose encoding starts at `data[pos]`.
pub open spec fn vec3d_at(data: Seq<u8>, pos: int) -> XacVec3d {
    XacVec3d { x: float_at(data, pos), y: float_at(data, pos + 4), z: float_at(data, pos + 8) }
}

/// The four numbers whose encoding starts at `data[pos]`.
pub open spec fn vec4d_at(data: Seq<u8>, pos: int) -> XacVec4d {
    XacVec4d {
        x: float_at(data, pos),
        y: float_at(data, pos + 4),
        z: float_at(data, pos + 8),
        w: float_at(data, pos + 12),
    }
}

/// The quaternion whose four 32-bit integer components start at `data[pos]`.
pub open spec fn quaternion_at(data: Seq<u8>, pos: int) -> XacQuaternion {
    XacQuaternion {
        x: le_i32(data, pos) as i32,
        y: le_i32(data, pos + 4) as i32,
        z: le_i32(data, pos + 8) as i32,
        w: le_i32(data, pos + 12) as i32,
    }
}

/// The transform whose three columns and position start at `data[pos]`.
pub open spec fn matrix44_at(data: Seq<u8>, pos: int) -> XacMatrix44 {
    XacMatrix44 {
        col1: vec4d_at(data, pos),
        col2: vec4d_at(data, pos + 16),
        col3: vec4d_at(data, pos + 32),
        pos: vec4d_at(data, pos + 48),
    }
}

/// Reads a length-prefixed string: a signed 32-bit length `n`, then `n` bytes,
/// each taken as one character. A length of zero gives the empty string, and
/// so does a negative one. A string of `n` characters takes `4 + n` bytes.
pub fn xac_read_string(file: &mut Reader) -> (res: Result<String, ParseError>)
    requires
        old(file).wf(),
    ensures
        final(file).follows(old(file)),
        decoded(res, final(file).cursor(), spec_string(old(file).bytes(), old(file).cursor())),
        res matches Ok(s) ==> final(file).cursor() == old(file).cursor() + 4 + s@.len(),
        res matches Ok(s) ==> s@.len() == entries(le_i32(old(file).bytes(), old(file).cursor())),
{
    file.read_string()
}

/// Reads a colour of three bytes.
pub fn xac_read_color8(file: &mut Reader) -> (res: Result<XacColor8, ParseError>)
    requires
        old(file).wf(),
    ensures
        final(file).follows(old(file)),
        decoded(
            res,
            final(file).cursor(),
            fixed(
                old(file).bytes(),
                old(file).cursor(),
                3,
                color8_at(old(file).bytes(), old(file).cursor()),
            ),
        ),
{
    file.need(3)?;
    let x = file.read_u8()?;
    let y = file.read_u8()?;
    let z = file.read_u8()?;
    Ok(XacColor8 { x, y, z })
}

/// Reads two single-precision numbers.
pub fn xac_read_vec2d(file: &mut Reader) -> (res: Result<XacVec2d, ParseError>)
    requires
        old(file).wf(),
    ensures
        final(file).follows(old(file)),
        decoded(
            res,
            final(file).cursor(),
            fixed(
                old(file).bytes(),
                old(file).cursor(),
                8,
                vec2d_at(old(file).bytes(), old(file).cursor()),
            ),
        ),
{
    file.need(8)?;
    let x = file.read_float()?;
    let y = file.read_float()?;
    Ok(XacVec2d { x, y })
}

/// Reads three single-precision numbers.
pub fn xac_read_vec3d(file: &mut Reader) -> (res: Result<XacVec3d, ParseError>)
    requires
        old(file).wf(),
    ensures
        final(file).follows(old(file)),
        decoded(
            res,
            final(file).cursor(),
            fixed(
                old(file).bytes(),
                old(file).cursor(),
                12,
                vec3d_at(old(file).bytes(), old(file).cursor()),
            ),
        ),
{
    file.need(12)?;
    let x = file.read_float()?;
    let y = file.read_float()?;
    let z = file.read_float()?;
    Ok(XacVec3d { x, y, z })
}

/// Reads four single-precision numbers.
pub fn xac_read_vec4d(file: &mut Reader) -> (res: Result<XacVec4d, ParseError>)
    requires
        old(file).wf(),
    ensures
        final(file).follows(old(file)),
        decoded(
            res,
            final(file).cursor(),
            fixed(
                old(file).bytes(),
                old(file).cursor(),
                16,
                vec4d_at(old(file).bytes(), old(file).cursor()),
            ),
        ),
{
    file.need(16)?;
    let x = file.read_float()?;
    let y = file.read_float()?;
    let z = file.read_float()?;
    let w = file.read_float()?;
    Ok(XacVec4d { x, y, z, w })
}

/// Reads a quaternion of four 32-bit integer components.
pub fn xac_read_quaternion(file: &mut Reader) -> (res: Result<XacQuaternion, ParseError>)
    requires
        old(file).wf(),
    ensures
        final(file).follows(old(file)),
        decoded(
            res,
            final(file).cursor(),
            fixed(
                old(file).bytes(),
                old(file).cursor(),
                16,
                quaternion_at(old(file).bytes(), old(file).cursor()),
            ),
        ),
{
    file.need(16)?;
    let x = file.read_i32()?;
    let y = file.read_i32()?;
    let z = file.read_i32()?;
    let w = file.read_i32()?;
    Ok(XacQuaternion { x, y, z, w })
}

/// Reads a transform: three columns of four numbers, then a position of four.
pub fn xac_read_matrix44(file: &mut Reader) -> (res: Result<XacMatrix44, ParseError>)
    requires
        old(file).wf(),
    ensures
        final(file).follows(old(file)),
        decoded(
            res,
            final(file).cursor(),
            fixed(
                old(file).bytes(),
                old(file).cursor(),
                64,
                matrix44_at(old(file).bytes(), old(file).cursor()),
            ),
        ),
{
    file.need(64)?;
    let col1 = xac_read_vec4d(file)?;
    let col2 = xac_read_vec4d(file)?;
    let col3 = xac_read_vec4d(file)?;
    let pos = xac_read_vec4d(file)?;
    Ok(XacMatrix44 { col1, col2, col3, pos })
}

/// The first four bytes of a model file, read as a little-endian word.
pub const XAC_MAGIC: u32 = 0x2043_4158;

/// The four characters that open a model file.
pub open spec fn xac_magic() -> Seq<char> {
    seq!['X', 'A', 'C', ' ']
}

/// The header at `pos`: the four bytes "XAC ", the major and minor version,
/// which must be 1 and 0, the endianness flag, which must be 0, and the
/// multiply-order flag. Each field is checked as soon as it is read.
pub open spec fn spec_header(data: Seq<u8>, pos: int) -> Result<(XacHeaderView, int), ParseError> {
    if pos + 4 > data.len() {
        Err(truncated(pos, 4, data.len() as int))
    } else if le_u32(data, pos) != XAC_MAGIC {
        Err(fault(FormatError::BadMagic { found: le_u32(data, pos) as u32 }, pos))
    } else if pos + 5 > data.len() {
        Err(truncated(pos + 4, 1, data.len() as int))
    } else if pos + 6 > data.len() {
        Err(truncated(pos + 5, 1, data.len() as int))
    } else if data[pos + 4] != 1 || data[pos + 5] != 0 {
        Err(
            fault(
                FormatError::UnsupportedVersion { major: data[pos + 4], minor: data[pos + 5] },
                pos + 4,
            ),
        )
    } else if pos + 7 > data.len() {
        Err(truncated(pos + 6, 1, data.len() as int))
    } else if data[pos + 6] != 0 {
        Err(fault(FormatError::UnsupportedEndianness { flag: data[pos + 6] }, pos + 6))
    } else if pos + 8 > data.len() {
        Err(truncated(pos + 7, 1, data.len() as int))
    } else {
        Ok(
            (
                XacHeaderView {
                    magic: xac_magic(),
                    major_version: 1,
                    minor_version: 0,
                    big_endian: 0,
                    multiply_order: data[pos + 7],
                },
                pos + 8,
            ),
        )
    }
}

/// Reads the header of a model file, and refuses a file that does not open
/// with "XAC ", one of another revision than 1.0, and one that is not
/// little-endian, in this order.
pub fn read_header(file: &mut Reader) -> (res: Result<XacHeader, ParseError>)
    requires
        old(file).wf(),
    ensures
        final(file).follows(old(file)),
        decoded(res, final(file).cursor(), spec_header(old(file).bytes(), old(file).cursor())),
{
    let at = file.position();
    let found = file.read_u32()?;
    if found != XAC_MAGIC {
        return Err(ParseError::at(FormatError::BadMagic { found }, at));
    }
    let version_at = file.position();
    let major_version = file.read_u8()?;
    let minor_version = file.read_u8()?;
    if major_version != 1 || minor_version != 0 {
        return Err(
            ParseError::at(
                FormatError::UnsupportedVersion { major: major_version, minor: minor_version },
                version_at,
            ),
        );
    }
    let flag_at = file.position();
    let big_endian = file.read_u8()?;
    if big_endian != 0 {
        return Err(
            ParseError::at(FormatError::UnsupportedEndianness { flag: big_endian }, flag_at),
        );
    }
    let multiply_order = file.read_u8()?;
    let magic = String::from_str("XAC ");
    proof {
        reveal_strlit("XAC ");
        assert(magic@ =~= xac_magic());
    }
    Ok(XacHeader { magic, major_version, minor_version, big_endian, multiply_order })
}

/// The metadata at `pos`: the reposition mask, the repositioning node, the
/// exporter's major and minor version, two bytes of padding, the retarget
/// root offset, then four strings: the source application, the name of the
/// source file, the export date and the actor's name.
pub open spec fn spec_metadata(data: Seq<u8>, pos: int) -> Result<
    (XacMetadataView, int),
    ParseError,
> {
    if pos + 16 > data.len() {
        Err(truncated(pos, 16, data.len() as int))
    } else {
        match spec_string(data, pos + 16) {
            Err(e) => Err(e),
            Ok((source_app, p1)) => match spec_string(data, p1) {
                Err(e) => Err(e),
                Ok((original_filename, p2)) => match spec_string(data, p2) {
                    Err(e) => Err(e),
                    Ok((export_date, p3)) => match spec_string(data, p3) {
                        Err(e) => Err(e),
                        Ok((actor_name, end)) => Ok(
                            (
                                XacMetadataView {
                                    reposition_mask: le_u32(data, pos) as u32,
                                    repositioning_node: le_i32(data, pos + 4) as i32,
                                    exporter_major_version: data[pos + 8],
                                    exporter_minor_version: data[pos + 9],
                                    retarget_root_offset: float_at(data, pos + 12),
                                    source_app,
                                    original_filename,
                                    export_date,
                                    actor_name,
                                },
                                end,
                            ),
                        ),
                    },
                },
            },
        }
    }
}

/// Reads the export metadata of a model.
pub fn read_metadata(file: &mut Reader) -> (res: Result<XacMetadata, ParseError>)
    requires
        old(file).wf(),
    ensures
        final(file).follows(old(file)),
        decoded(res, final(file).cursor(), spec_metadata(old(file).bytes(), old(file).cursor())),
{
    file.need(16)?;
    let reposition_mask = file.read_u32()?;
    let repositioning_node = file.read_i32()?;
    let exporter_major_version = file.read_u8()?;
    let exporter_minor_version = file.read_u8()?;
    file.skip(2)?;
    let retarget_root_offset = file.read_float()?;
    let source_app = xac_read_string(file)?;
    let original_filename = xac_read_string(file)?;
    let export_date = xac_read_string(file)?;
    let actor_name = xac_read_string(file)?;
    Ok(
        XacMetadata {
            reposition_mask,
            repositioning_node,
            exporter_major_version,
            exporter_minor_version,
            retarget_root_offset,
            source_app,
            original_filename,
            export_date,
            actor_name,
        },
    )
}

/// The material counts at `pos`: total, standard and effect materials.
pub open spec fn material_total_at(data: Seq<u8>, pos: int) -> XacMaterialTotal {
    XacMaterialTotal {
        num_total_materials: le_i32(data, pos) as i32,
        num_standard_materials: le_i32(data, pos + 4) as i32,
        num_fx_materials: le_i32(data, pos + 8) as i32,
    }
}

/// Reads the material counts of a model.
pub fn read_material_total(file: &mut Reader) -> (res: Result<XacMaterialTotal, ParseError>)
    requires
        old(file).wf(),
    ensures
        final(file).follows(old(file)),
        decoded(
            res,
            final(file).cursor(),
            fixed(
                old(file).bytes(),
                old(file).cursor(),
                12,
                material_total_at(old(file).bytes(), old(file).cursor()),
            ),
        ),
{
    file.need(12)?;
    let num_total_materials = file.read_i32()?;
    let num_standard_materials = file.read_i32()?;
    let num_fx_materials = file.read_i32()?;
    Ok(XacMaterialTotal { num_total_materials, num_standard_materials, num_fx_materials })
}

/// A skinning chunk is recognized and not decoded: nothing is read and the
/// document stays as it is.
#[allow(unused_variables)]
pub fn read_skinning(file: &mut Reader, xac: Xac) -> (r: Xac)
    ensures
        *final(file) == *old(file),
        r == xac,
{
    xac
}

/// A morph-target chunk is recognized and not decoded: nothing is read and
/// the document stays as it is.
#[allow(unused_variables)]
pub fn read_morph_target(file: &mut Reader, xac: Xac) -> (r: Xac)
    ensures
        *final(file) == *old(file),
        r == xac,
{
    xac
}

/// The chunk descriptor at `pos`: type tag, declared length of the body,
/// format version.
pub open spec fn chunk_at(data: Seq<u8>, pos: int) -> XacChunk {
    XacChunk {
        chunk_type: le_i32(data, pos) as i32,
        length: le_i32(data, pos + 4) as i32,
        version: le_i32(data, pos + 8) as i32,
    }
}

/// Reads a chunk descriptor of twelve bytes.
pub fn read_chunk_descriptor(file: &mut Reader) -> (res: Result<XacChunk, ParseError>)
    requires
        old(file).wf(),
    ensures
        final(file).follows(old(file)),
        decoded(
            res,
            final(file).cursor(),
            fixed(
                old(file).bytes(),
                old(file).cursor(),
                12,
                chunk_at(old(file).bytes(), old(file).cursor()),
            ),
        ),
{
    file.need(12)?;
    let chunk_type = file.read_i32()?;
    let length = file.read_i32()?;
    let version = file.read_i32()?;
    Ok(XacChunk { chunk_type, length, version })
}

/// The document `doc` after the body at `body` of a chunk with type tag
/// `tag` was decoded into it. A mesh or a shader material is added to its
/// list; metadata, node hierarchy, material definition and material counts
/// take the place of what the document held; a skinning or morph-target
/// chunk, and one of an unrecognized type, leave the document as it is.
#[verifier::opaque]
pub open spec fn spec_chunk_body(data: Seq<u8>, body: int, tag: i32, doc: XacView) -> Result<
    XacView,
    ParseError,
> {
    match XacChunkType::of_tag(tag) {
        Some(XacChunkType::XacMeshId) => match spec_mesh(data, body) {
            Err(e) => Err(e),
            Ok((mesh, _)) => Ok(XacView { mesh: doc.mesh.push(mesh), ..doc }),
        },
        Some(XacChunkType::XacMaterialDefinitionId) => match spec_material(data, body) {
            Err(e) => Err(e),
            Ok((material_definition, _)) => Ok(XacView { material_definition, ..doc }),
        },
        Some(XacChunkType::XacShaderMaterialId) => match spec_shader_material(data, body) {
            Err(e) => Err(e),
            Ok((shader, _)) => Ok(
                XacView { shader_material: doc.shader_material.push(shader), ..doc },
            ),
        },
        Some(XacChunkType::XacMetadataId) => match spec_metadata(data, body) {
            Err(e) => Err(e),
            Ok((metadata, _)) => Ok(XacView { metadata, ..doc }),
        },
        Some(XacChunkType::XacNodeHierarchyId) => match spec_node_hierarchy(data, body) {
            Err(e) => Err(e),
            Ok((node_hierarchy, _)) => Ok(XacView { node_hierarchy, ..doc }),
        },
        Some(XacChunkType::XacMaterialTotalId) => match fixed(
            data,
            body,
            12,
            material_total_at(data, body),
        ) {
            Err(e) => Err(e),
            Ok((material_total, _)) => Ok(XacView { material_total, ..doc }),
        },
        Some(XacChunkType::XacSkinningId) => Ok(doc),
        Some(XacChunkType::XacMorphTargetId) => Ok(doc),
        None => Ok(doc),
    }
}

/// The error for the chunk at `pos` whose descriptor declares a length that
/// is negative or reaches past the end of the stream.
pub open spec fn bad_chunk_length(data: Seq<u8>, pos: int) -> ParseError {
    ParseError {
        kind: FormatError::InvalidChunkLength {
            length: chunk_at(data, pos).length,
            available: (data.len() - (pos + 12)) as u64,
        },
        offset: pos as usize,
        chunk_type: Some(chunk_at(data, pos).chunk_type),
    }
}

/// The document `doc` after the chunk at `pos`, and where the next chunk
/// starts: behind the descriptor by the declared length, whatever the
/// decoder of the body took. A failure in the body is attributed to the
/// chunk; a body that decodes in a chunk whose declared length is negative or
/// reaches past the end of the stream fails the chunk.
#[verifier::opaque]
pub open spec fn spec_chunk(data: Seq<u8>, pos: int, doc: XacView) -> Result<
    (XacView, int),
    ParseError,
> {
    if pos + 12 > data.len() {
        Err(truncated(pos, 12, data.len() as int))
    } else {
        let chunk = chunk_at(data, pos);
        match spec_chunk_body(data, pos + 12, chunk.chunk_type, doc) {
            Err(e) => Err(in_chunk(e, chunk.chunk_type)),
            Ok(after) => if chunk.length < 0 || pos + 12 + chunk.length > data.len() {
                Err(bad_chunk_length(data, pos))
            } else {
                Ok((after, pos + 12 + chunk.length))
            },
        }
    }
}

/// Where the next chunk starts does not depend on what the chunk holds: a
/// chunk at `pos` that decodes is followed by one at `pos + 12` plus its
/// declared length, which is not negative and keeps within the stream.
pub proof fn lemma_next_chunk_position(data: Seq<u8>, pos: int, doc: XacView)
    ensures
        spec_chunk(data, pos, doc) matches Ok((_, next)) ==> next == pos + 12 + chunk_at(
            data,
            pos,
        ).length && chunk_at(data, pos).length >= 0 && next <= data.len(),
{
    reveal(spec_chunk);
}

/// A chunk of a type that is not recognized leaves the document as it is.
pub proof fn lemma_unrecognized_chunk_changes_nothing(data: Seq<u8>, pos: int, doc: XacView)
    requires
        pos + 12 <= data.len(),
        XacChunkType::of_tag(chunk_at(data, pos).chunk_type) is None,
    ensures
        spec_chunk(data, pos, doc) matches Ok((after, _)) ==> after == doc,
{
    reveal(spec_chunk);
    reveal(spec_chunk_body);
}

/// The document `doc` after all the chunks from `pos` to the end of the
/// stream.
pub open spec fn spec_chunks(data: Seq<u8>, pos: int, doc: XacView) -> Result<XacView, ParseError>
    decreases data.len() - pos,
{
    if pos >= data.len() {
        Ok(doc)
    } else {
        match spec_chunk(data, pos, doc) {
            Err(e) => Err(e),
            Ok((after, next)) => if pos < next <= data.len() {
                spec_chunks(data, next, after)
            } else {
                Ok(after)
            },
        }
    }
}

/// The document that the model file `data` holds.
pub open spec fn spec_xac(data: Seq<u8>) -> Result<XacView, ParseError> {
    match spec_header(data, 0) {
        Err(e) => Err(e),
        Ok((header, pos)) => spec_chunks(data, pos, XacView { header, ..XacView::empty() }),
    }
}

/// What holds of every document that was decoded: each of its meshes is
/// consistent, and each of its nodes names a parent that exists.
pub open spec fn document_consistent(doc: XacView) -> bool {
    &&& forall|i: int| 0 <= i < doc.mesh.len() ==> mesh_consistent(#[trigger] doc.mesh[i])
    &&& parents_exist(doc.node_hierarchy.node_data)
}

/// What the body of a chunk does to the meshes and the node hierarchy of a
/// document: a mesh chunk adds its mesh, a node-hierarchy chunk puts its
/// hierarchy in the place of the one before, and any other chunk leaves both
/// as they are.
pub proof fn lemma_body_changes(data: Seq<u8>, body: int, tag: i32, doc: XacView)
    ensures
        spec_chunk_body(data, body, tag, doc) matches Ok(after) ==> {
            &&& tag == 1 ==> (spec_mesh(data, body) matches Ok((mesh, _)) && after.mesh
                == doc.mesh.push(mesh))
            &&& tag != 1 ==> after.mesh == doc.mesh
            &&& tag == 11 ==> (spec_node_hierarchy(data, body) matches Ok((nodes, _))
                && after.node_hierarchy == nodes)
            &&& tag != 11 ==> after.node_hierarchy == doc.node_hierarchy
        },
{
    reveal(spec_chunk_body);
}

/// The body of a chunk keeps a consistent document consistent.
pub proof fn lemma_body_keeps_consistent(data: Seq<u8>, body: int, tag: i32, doc: XacView)
    requires
        document_consistent(doc),
    ensures
        spec_chunk_body(data, body, tag, doc) matches Ok(after) ==> document_consistent(after),
{
    if spec_chunk_body(data, body, tag, doc) is Ok {
        let after = spec_chunk_body(data, body, tag, doc)->Ok_0;
        lemma_body_changes(data, body, tag, doc);
        if tag == 1 {
            lemma_decoded_mesh_consistent(data, body);
            assert forall|i: int| 0 <= i < after.mesh.len() implies mesh_consistent(
                #[trigger] after.mesh[i],
            ) by {
                if i < doc.mesh.len() {
                    assert(after.mesh[i] == doc.mesh[i]);
                }
            }
        }
        if tag == 11 {
            lemma_decoded_hierarchy(data, body);
        }
    }
}

/// A chunk keeps a consistent document consistent.
pub proof fn lemma_chunk_keeps_consistent(data: Seq<u8>, pos: int, doc: XacView)
    requires
        document_consistent(doc),
    ensures
        spec_chunk(data, pos, doc) matches Ok((after, _)) ==> document_consistent(after),
{
    reveal(spec_chunk);
    if pos + 12 <= data.len() {
        lemma_body_keeps_consistent(data, pos + 12, chunk_at(data, pos).chunk_type, doc);
    }
}

/// The chunks of a stream keep a consistent document consistent.
pub proof fn lemma_chunks_keep_consistent(data: Seq<u8>, pos: int, doc: XacView)
    requires
        document_consistent(doc),
    ensures
        spec_chunks(data, pos, doc) matches Ok(after) ==> document_consistent(after),
    decreases data.len() - pos,
{
    if pos < data.len() {
        lemma_chunk_keeps_consistent(data, pos, doc);
        lemma_next_chunk_position(data, pos, doc);
        if spec_chunk(data, pos, doc) is Ok {
            let (after, next) = spec_chunk(data, pos, doc)->Ok_0;
            lemma_chunks_keep_consistent(data, next, after);
        }
    }
}

/// A document as decoded is consistent.
pub proof fn lemma_decoded_document_consistent(data: Seq<u8>)
    ensures
        spec_xac(data) matches Ok(doc) ==> document_consistent(doc),
{
    if spec_header(data, 0) is Ok {
        let (header, pos) = spec_header(data, 0)->Ok_0;
        let start = XacView { header, ..XacView::empty() };
        assert(start.mesh.len() == 0);
        assert(start.node_hierarchy.node_data.len() == 0);
        lemma_chunks_keep_consistent(data, pos, start);
    }
}

/// Reads the chunk at the cursor into the document: its descriptor, then its
/// body if the type is a recognized one, and moves the cursor to where the
/// descriptor says the chunk ends. So the next descriptor is read at the
/// position behind this one plus the declared length, whether the body was
/// decoded or not and however many bytes its decoder took.
pub fn read_next_chunk(file: &mut Reader, xac: Xac) -> (res: Result<Xac, ParseError>)
    requires
        old(file).wf(),
    ensures
        final(file).follows(old(file)),
        decoded(
            res,
            final(file).cursor(),
            spec_chunk(old(file).bytes(), old(file).cursor(), xac@),
        ),
        res is Ok ==> final(file).cursor() == old(file).cursor() + 12 + le_i32(
            old(file).bytes(),
            old(file).cursor() + 4,
        ),
        res is Ok ==> le_i32(old(file).bytes(), old(file).cursor() + 4) >= 0,
{
    reveal(spec_chunk);
    reveal(spec_chunk_body);
    let at = file.position();
    let chunk = read_chunk_descriptor(file)?;
    let body = file.position();
    let tag = chunk.chunk_type;
    let mut xac = xac;
    match XacChunkType::from_tag(tag) {
        Some(XacChunkType::XacMeshId) => {
            match read_mesh(file) {
                Err(e) => {
                    return Err(e.within_chunk(tag));
                },
                Ok(mesh) => {
                    proof {
                        lemma_views_push(xac.mesh@, mesh);
                    }
                    xac.mesh.push(mesh);
                },
            }
        },
        Some(XacChunkType::XacSkinningId) => {
            xac = read_skinning(file, xac);
        },
        Some(XacChunkType::XacMaterialDefinitionId) => {
            match read_material_definition(file) {
                Err(e) => {
                    return Err(e.within_chunk(tag));
                },
                Ok(material) => {
                    xac.material_definition = material;
                },
            }
        },
        Some(XacChunkType::XacShaderMaterialId) => {
            match read_shader_material(file) {
                Err(e) => {
                    return Err(e.within_chunk(tag));
                },
                Ok(shader) => {
                    proof {
                        lemma_views_push(xac.shader_material@, shader);
                    }
                    xac.shader_material.push(shader);
                },
            }
        },
        Some(XacChunkType::XacMetadataId) => {
            match read_metadata(file) {
                Err(e) => {
                    return Err(e.within_chunk(tag));
                },
                Ok(metadata) => {
                    xac.metadata = metadata;
                },
            }
        },
        Some(XacChunkType::XacNodeHierarchyId) => {
            match read_node_hierarchy(file) {
                Err(e) => {
                    return Err(e.within_chunk(tag));
                },
                Ok(nodes) => {
                    xac.node_hierarchy = nodes;
                },
            }
        },
        Some(XacChunkType::XacMorphTargetId) => {
            xac = read_morph_target(file, xac);
        },
        Some(XacChunkType::XacMaterialTotalId) => {
            match read_material_total(file) {
                Err(e) => {
                    return Err(e.within_chunk(tag));
                },
                Ok(total) => {
                    xac.material_total = total;
                },
            }
        },
        None => {},
    }
    let room = file.len() - body;
    if chunk.length < 0 || chunk.length as u64 > room as u64 {
        return Err(
            ParseError {
                kind: FormatError::InvalidChunkLength {
                    length: chunk.length,
                    available: room as u64,
                },
                offset: at,
                chunk_type: Some(tag),
            },
        );
    }
    file.seek(body + chunk.length as usize);
    Ok(xac)
}

/// Reads chunk after chunk into the document until the cursor stands at the
/// end of the stream.
pub fn read_chunk(file: &mut Reader, xac: Xac) -> (res: Result<Xac, ParseError>)
    requires
        old(file).wf(),
    ensures
        final(file).follows(old(file)),
        match spec_chunks(old(file).bytes(), old(file).cursor(), xac@) {
            Ok(doc) => res matches Ok(x) && x@ == doc
                && final(file).cursor() >= final(file).bytes().len(),
            Err(e) => res matches Err(x) && x == e,
        },
{
    let ghost data = file.bytes();
    let ghost whole = spec_chunks(file.bytes(), file.cursor(), xac@);
    let mut doc = xac;
    loop
        invariant
            file.wf(),
            file.bytes() == data,
            data == old(file).bytes(),
            spec_chunks(data, file.cursor(), doc@) == whole,
            whole == spec_chunks(old(file).bytes(), old(file).cursor(), xac@),
        decreases data.len() - file.cursor(),
    {
        if file.at_end() {
            return Ok(doc);
        }
        match read_next_chunk(file, doc) {
            Err(e) => {
                return Err(e);
            },
            Ok(after) => {
                doc = after;
            },
        }
    }
}

/// Decodes a model file: the header, then every chunk to the end of the
/// stream. Any violation of the format fails the whole decoding; no partial
/// document is returned. In the document that is returned every mesh is
/// consistent and every node names a parent that exists.
pub fn xacparse(data: &[u8]) -> (res: Result<Xac, ParseError>)
    ensures
        match spec_xac(data@) {
            Ok(doc) => res matches Ok(x) && x@ == doc,
            Err(e) => res matches Err(x) && x == e,
        },
        res matches Ok(x) ==> document_consistent(x@),
{
    proof {
        lemma_decoded_document_consistent(data@);
    }
    let mut file = Reader::new(data);
    let header = read_header(&mut file)?;
    let mut xac = Xac::empty();
    xac.header = header;
    read_chunk(&mut file, xac)
}

} // verus!
