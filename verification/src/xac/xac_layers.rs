//! The attribute layers of a mesh: one record and one buffer each, and the
//! buffers of the mesh that they fill.

use crate::bytes::le_i32;
use crate::error::{truncated, ParseError};
use crate::model::{lemma_views_push, views};
use crate::reader::{decoded, entries, fixed, Reader};
use crate::xac::xac_enums::XacVerticesAttributeType;
use crate::xac::xac_parser::{
    color8_at, vec2d_at, vec3d_at, vec4d_at, xac_read_color8, xac_read_vec2d, xac_read_vec3d,
    xac_read_vec4d,
};
use crate::xac::xac_structs::{
    XacColor8, XacVec2d, XacVec3d, XacVec4d, XacVerticesAttribute, XacVerticesAttributeView,
};
use vstd::prelude::*;

verus! {

/// The `n` triples of numbers laid out back to back from `data[pos]` on.
pub open spec fn vec3d_list_at(data: Seq<u8>, pos: int, n: int) -> Seq<XacVec3d> {
    Seq::new(n as nat, |i: int| vec3d_at(data, pos + 12 * i))
}

/// Reads `count` triples of numbers laid out back to back; a negative count reads none.
/// Fails before reading any if the stream does not hold them all.
pub fn read_vec3d_list(file: &mut Reader, count: i32) -> (res: Result<Vec<XacVec3d>, ParseError>)
    requires
        old(file).wf(),
    ensures
        final(file).follows(old(file)),
        decoded(
            res,
            final(file).cursor(),
            fixed(
                old(file).bytes(),
                old(file).cursor(),
                12 * entries(count as int),
                vec3d_list_at(old(file).bytes(), old(file).cursor(), entries(count as int)),
            ),
        ),
{
    let n: usize = if count < 0 {
        0
    } else {
        count as usize
    };
    file.need(12 * (n as u64))?;
    let ghost data = file.bytes();
    let ghost pos = file.cursor();
    let mut out: Vec<XacVec3d> = Vec::new();
    let mut i: usize = 0;
    while i < n
        invariant
            i <= n,
            file.wf(),
            file.bytes() == data,
            file.cursor() == pos + 12 * i,
            pos + 12 * n <= data.len(),
            out@ == vec3d_list_at(data, pos, i as int),
        decreases n - i,
    {
        let v = xac_read_vec3d(file)?;
        out.push(v);
        i = i + 1;
        assert(out@ =~= vec3d_list_at(data, pos, i as int));
    }
    Ok(out)
}

/// The `n` quadruples of numbers laid out back to back from `data[pos]` on.
pub open spec fn vec4d_list_at(data: Seq<u8>, pos: int, n: int) -> Seq<XacVec4d> {
    Seq::new(n as nat, |i: int| vec4d_at(data, pos + 16 * i))
}

/// Reads `count` quadruples of numbers laid out back to back; a negative count reads none.
/// Fails before reading any if the stream does not hold them all.
pub fn read_vec4d_list(file: &mut Reader, count: i32) -> (res: Result<Vec<XacVec4d>, ParseError>)
    requires
        old(file).wf(),
    ensures
        final(file).follows(old(file)),
        decoded(
            res,
            final(file).cursor(),
            fixed(
                old(file).bytes(),
                old(file).cursor(),
                16 * entries(count as int),
                vec4d_list_at(old(file).bytes(), old(file).cursor(), entries(count as int)),
            ),
        ),
{
    let n: usize = if count < 0 {
        0
    } else {
        count as usize
    };
    file.need(16 * (n as u64))?;
    let ghost data = file.bytes();
    let ghost pos = file.cursor();
    let mut out: Vec<XacVec4d> = Vec::new();
    let mut i: usize = 0;
    while i < n
        invariant
            i <= n,
            file.wf(),
            file.bytes() == data,
            file.cursor() == pos + 16 * i,
            pos + 16 * n <= data.len(),
            out@ == vec4d_list_at(data, pos, i as int),
        decreases n - i,
    {
        let v = xac_read_vec4d(file)?;
        out.push(v);
        i = i + 1;
        assert(out@ =~= vec4d_list_at(data, pos, i as int));
    }
    Ok(out)
}

/// The `n` pairs of numbers laid out back to back from `data[pos]` on.
pub open spec fn vec2d_list_at(data: Seq<u8>, pos: int, n: int) -> Seq<XacVec2d> {
    Seq::new(n as nat, |i: int| vec2d_at(data, pos + 8 * i))
}

/// Reads `count` pairs of numbers laid out back to back; a negative count reads none.
/// Fails before reading any if the stream does not hold them all.
pub fn read_vec2d_list(file: &mut Reader, count: i32) -> (res: Result<Vec<XacVec2d>, ParseError>)
    requires
        old(file).wf(),
    ensures
        final(file).follows(old(file)),
        decoded(
            res,
            final(file).cursor(),
            fixed(
                old(file).bytes(),
                old(file).cursor(),
                8 * entries(count as int),
                vec2d_list_at(old(file).bytes(), old(file).cursor(), entries(count as int)),
            ),
        ),
{
    let n: usize = if count < 0 {
        0
    } else {
        count as usize
    };
    file.need(8 * (n as u64))?;
    let ghost data = file.bytes();
    let ghost pos = file.cursor();
    let mut out: Vec<XacVec2d> = Vec::new();
    let mut i: usize = 0;
    while i < n
        invariant
            i <= n,
            file.wf(),
            file.bytes() == data,
            file.cursor() == pos + 8 * i,
            pos + 8 * n <= data.len(),
            out@ == vec2d_list_at(data, pos, i as int),
        decreases n - i,
    {
        let v = xac_read_vec2d(file)?;
        out.push(v);
        i = i + 1;
        assert(out@ =~= vec2d_list_at(data, pos, i as int));
    }
    Ok(out)
}

/// The `n` three-byte colours laid out back to back from `data[pos]` on.
pub open spec fn color8_list_at(data: Seq<u8>, pos: int, n: int) -> Seq<XacColor8> {
    Seq::new(n as nat, |i: int| color8_at(data, pos + 3 * i))
}

/// Reads `count` three-byte colours laid out back to back; a negative count reads none.
/// Fails before reading any if the stream does not hold them all.
pub fn read_color8_list(file: &mut Reader, count: i32) -> (res: Result<Vec<XacColor8>, ParseError>)
    requires
        old(file).wf(),
    ensures
        final(file).follows(old(file)),
        decoded(
            res,
            final(file).cursor(),
            fixed(
                old(file).bytes(),
                old(file).cursor(),
                3 * entries(count as int),
                color8_list_at(old(file).bytes(), old(file).cursor(), entries(count as int)),
            ),
        ),
{
    let n: usize = if count < 0 {
        0
    } else {
        count as usize
    };
    file.need(3 * (n as u64))?;
    let ghost data = file.bytes();
    let ghost pos = file.cursor();
    let mut out: Vec<XacColor8> = Vec::new();
    let mut i: usize = 0;
    while i < n
        invariant
            i <= n,
            file.wf(),
            file.bytes() == data,
            file.cursor() == pos + 3 * i,
            pos + 3 * n <= data.len(),
            out@ == color8_list_at(data, pos, i as int),
        decreases n - i,
    {
        let v = xac_read_color8(file)?;
        out.push(v);
        i = i + 1;
        assert(out@ =~= color8_list_at(data, pos, i as int));
    }
    Ok(out)
}

/// The `n` signed 32-bit integers laid out back to back from `data[pos]` on.
pub open spec fn i32_list_at(data: Seq<u8>, pos: int, n: int) -> Seq<i32> {
    Seq::new(n as nat, |i: int| le_i32(data, pos + 4 * i) as i32)
}

/// Reads `count` signed 32-bit integers laid out back to back; a negative count reads none.
/// Fails before reading any if the stream does not hold them all.
pub fn read_i32_list(file: &mut Reader, count: i32) -> (res: Result<Vec<i32>, ParseError>)
    requires
        old(file).wf(),
    ensures
        final(file).follows(old(file)),
        decoded(
            res,
            final(file).cursor(),
            fixed(
                old(file).bytes(),
                old(file).cursor(),
                4 * entries(count as int),
                i32_list_at(old(file).bytes(), old(file).cursor(), entries(count as int)),
            ),
        ),
{
    let n: usize = if count < 0 {
        0
    } else {
        count as usize
    };
    file.need(4 * (n as u64))?;
    let ghost data = file.bytes();
    let ghost pos = file.cursor();
    let mut out: Vec<i32> = Vec::new();
    let mut i: usize = 0;
    while i < n
        invariant
            i <= n,
            file.wf(),
            file.bytes() == data,
            file.cursor() == pos + 4 * i,
            pos + 4 * n <= data.len(),
            out@ == i32_list_at(data, pos, i as int),
        decreases n - i,
    {
        let v = file.read_i32()?;
        out.push(v);
        i = i + 1;
        assert(out@ =~= i32_list_at(data, pos, i as int));
    }
    Ok(out)
}

/// The `n` bytes from `data[pos]` on.
pub open spec fn u8_list_at(data: Seq<u8>, pos: int, n: int) -> Seq<u8> {
    Seq::new(n as nat, |i: int| data[pos + i])
}

/// Reads `n` bytes. Fails before reading any if the stream does not hold
/// them all.
pub fn read_bytes(file: &mut Reader, n: u64) -> (res: Result<Vec<u8>, ParseError>)
    requires
        old(file).wf(),
    ensures
        final(file).follows(old(file)),
        decoded(
            res,
            final(file).cursor(),
            fixed(
                old(file).bytes(),
                old(file).cursor(),
                n as int,
                u8_list_at(old(file).bytes(), old(file).cursor(), n as int),
            ),
        ),
{
    file.need(n)?;
    let ghost data = file.bytes();
    let ghost pos = file.cursor();
    let mut out: Vec<u8> = Vec::new();
    let mut i: u64 = 0;
    while i < n
        invariant
            i <= n,
            file.wf(),
            file.bytes() == data,
            file.cursor() == pos + i,
            pos + n <= data.len(),
            out@ == u8_list_at(data, pos, i as int),
        decreases n - i,
    {
        let v = file.read_u8()?;
        out.push(v);
        i = i + 1;
        assert(out@ =~= u8_list_at(data, pos, i as int));
    }
    Ok(out)
}

/// Number of bytes that the buffer of a layer takes: one value of the type's
/// size per vertex for a layer that is decoded; the declared size per vertex
/// for one that is skipped, which is a layer of an unrecognized type or a
/// tangent layer that follows two others.
pub open spec fn layer_body_len(type_id: i32, attribute_size: i32, nv: int, tangents: nat) -> int {
    if type_id == 0 || type_id == 1 || type_id == 6 {
        12 * nv
    } else if type_id == 2 && tangents < 2 {
        16 * nv
    } else if type_id == 3 {
        8 * nv
    } else if type_id == 4 {
        3 * nv
    } else if type_id == 5 {
        4 * nv
    } else {
        entries(attribute_size as int) * nv
    }
}

/// The attribute layer at `pos` of a mesh of `num_vertices` vertices, where
/// `tangents` tangent layers came before it: a record of twelve bytes (type
/// tag, size per vertex, two flags, two bytes of padding), then the buffer.
pub open spec fn spec_layer(data: Seq<u8>, pos: int, num_vertices: i32, tangents: nat) -> Result<
    (XacVerticesAttributeView, int),
    ParseError,
> {
    if pos + 12 > data.len() {
        Err(truncated(pos, 12, data.len() as int))
    } else {
        let type_id = le_i32(data, pos) as i32;
        let attribute_size = le_i32(data, pos + 4) as i32;
        let nv = entries(num_vertices as int);
        let body = pos + 12;
        let n = layer_body_len(type_id, attribute_size, nv, tangents);
        if body + n > data.len() {
            Err(truncated(body, n, data.len() as int))
        } else {
            Ok(
                (
                    XacVerticesAttributeView {
                        type_id,
                        attribute_size,
                        keep_originals: data[pos + 8],
                        scale_factor: data[pos + 9],
                        mesh_position: if type_id == 0 {
                            vec3d_list_at(data, body, nv)
                        } else {
                            Seq::empty()
                        },
                        mesh_normal: if type_id == 1 {
                            vec3d_list_at(data, body, nv)
                        } else {
                            Seq::empty()
                        },
                        mesh_unknown_vec4d: if type_id == 2 && tangents < 2 {
                            vec4d_list_at(data, body, nv)
                        } else {
                            Seq::empty()
                        },
                        mesh_unknown_vec2d: if type_id == 3 {
                            vec2d_list_at(data, body, nv)
                        } else {
                            Seq::empty()
                        },
                        mesh_color8: if type_id == 4 {
                            color8_list_at(data, body, nv)
                        } else {
                            Seq::empty()
                        },
                        mesh_influence_range_indices: if type_id == 5 {
                            i32_list_at(data, body, nv)
                        } else {
                            Seq::empty()
                        },
                        mesh_color: if type_id == 6 {
                            vec3d_list_at(data, body, nv)
                        } else {
                            Seq::empty()
                        },
                    },
                    body + n,
                ),
            )
        }
    }
}

/// Number of bytes to pass over for a layer that is not decoded: the declared
/// size per vertex times the number of vertices, neither taken below zero.
pub fn skipped_len(attribute_size: i32, num_vertices: i32) -> (n: u64)
    ensures
        n as int == entries(attribute_size as int) * entries(num_vertices as int),
{
    let a: u64 = if attribute_size < 0 {
        0
    } else {
        attribute_size as u64
    };
    let v: u64 = if num_vertices < 0 {
        0
    } else {
        num_vertices as u64
    };
    assert(a * v <= 0x7fff_ffff * 0x7fff_ffff) by (nonlinear_arith)
        requires
            a <= 0x7fff_ffff,
            v <= 0x7fff_ffff,
    ;
    a * v
}

/// Reads one attribute layer of a mesh of `num_vertices` vertices, where
/// `tangents` tangent layers came before it. A layer of a recognized type has
/// one value per vertex read into the buffer of that type; the first two
/// tangent layers count as recognized, later ones and layers of any other type
/// are passed over by their declared size.
pub fn read_vertices_attribute(file: &mut Reader, num_vertices: i32, tangents: usize) -> (res:
    Result<XacVerticesAttribute, ParseError>)
    requires
        old(file).wf(),
    ensures
        final(file).follows(old(file)),
        decoded(
            res,
            final(file).cursor(),
            spec_layer(old(file).bytes(), old(file).cursor(), num_vertices, tangents as nat),
        ),
{
    file.need(12)?;
    let type_id = file.read_i32()?;
    let attribute_size = file.read_i32()?;
    let keep_originals = file.read_u8()?;
    let scale_factor = file.read_u8()?;
    file.skip(2)?;
    let mut layer = XacVerticesAttribute {
        type_id,
        attribute_size,
        keep_originals,
        scale_factor,
        mesh_position: Vec::new(),
        mesh_normal: Vec::new(),
        mesh_unknown_vec4d: Vec::new(),
        mesh_unknown_vec2d: Vec::new(),
        mesh_color8: Vec::new(),
        mesh_influence_range_indices: Vec::new(),
        mesh_color: Vec::new(),
    };
    match XacVerticesAttributeType::from_tag(type_id) {
        Some(XacVerticesAttributeType::XacPositionId) => {
            layer.mesh_position = read_vec3d_list(file, num_vertices)?;
        },
        Some(XacVerticesAttributeType::XacNormalId) => {
            layer.mesh_normal = read_vec3d_list(file, num_vertices)?;
        },
        Some(XacVerticesAttributeType::XacTangentId) => {
            if tangents < 2 {
                layer.mesh_unknown_vec4d = read_vec4d_list(file, num_vertices)?;
            } else {
                file.skip(skipped_len(attribute_size, num_vertices))?;
            }
        },
        Some(XacVerticesAttributeType::XacUVCoordId) => {
            layer.mesh_unknown_vec2d = read_vec2d_list(file, num_vertices)?;
        },
        Some(XacVerticesAttributeType::XacColor32Id) => {
            layer.mesh_color8 = read_color8_list(file, num_vertices)?;
        },
        Some(XacVerticesAttributeType::XacInfluenceRangeId) => {
            layer.mesh_influence_range_indices = read_i32_list(file, num_vertices)?;
        },
        Some(XacVerticesAttributeType::XacColor128Id) => {
            layer.mesh_color = read_vec3d_list(file, num_vertices)?;
        },
        None => {
            file.skip(skipped_len(attribute_size, num_vertices))?;
        },
    }
    Ok(layer)
}

/// The buffers of a mesh that its submeshes take their vertices from, as the
/// attribute layers fill them.
pub struct MeshBuffers {
    /// Number of tangent layers among the layers.
    pub tangents: nat,
    /// Buffer of the last position layer.
    pub position: Seq<XacVec3d>,
    /// Buffer of the last normal layer.
    pub normal: Seq<XacVec3d>,
    /// Buffer of the first tangent layer.
    pub tangent: Seq<XacVec4d>,
    /// Buffer of the second tangent layer.
    pub bi_tangent: Seq<XacVec4d>,
    /// Buffers of the UV layers, in file order.
    pub uv_sets: Seq<Seq<XacVec2d>>,
    /// Buffer of the last influence-range layer.
    pub influence: Seq<i32>,
    /// Buffers of the 128-bit colour layers, in file order.
    pub colors: Seq<Seq<XacVec3d>>,
    /// Buffers of the 32-bit colour layers, in file order.
    pub colors8: Seq<Seq<XacColor8>>,
}

/// The buffers of a mesh without layers.
pub open spec fn no_buffers() -> MeshBuffers {
    MeshBuffers {
        tangents: 0,
        position: Seq::empty(),
        normal: Seq::empty(),
        tangent: Seq::empty(),
        bi_tangent: Seq::empty(),
        uv_sets: Seq::empty(),
        influence: Seq::empty(),
        colors: Seq::empty(),
        colors8: Seq::empty(),
    }
}

/// The buffers `b` after one more layer `l`.
pub open spec fn with_layer(b: MeshBuffers, l: XacVerticesAttributeView) -> MeshBuffers {
    if l.type_id == 0 {
        MeshBuffers { position: l.mesh_position, ..b }
    } else if l.type_id == 1 {
        MeshBuffers { normal: l.mesh_normal, ..b }
    } else if l.type_id == 2 {
        if b.tangents == 0 {
            MeshBuffers { tangents: 1, tangent: l.mesh_unknown_vec4d, ..b }
        } else if b.tangents == 1 {
            MeshBuffers { tangents: 2, bi_tangent: l.mesh_unknown_vec4d, ..b }
        } else {
            MeshBuffers { tangents: b.tangents + 1, ..b }
        }
    } else if l.type_id == 3 {
        MeshBuffers { uv_sets: b.uv_sets.push(l.mesh_unknown_vec2d), ..b }
    } else if l.type_id == 4 {
        MeshBuffers { colors8: b.colors8.push(l.mesh_color8), ..b }
    } else if l.type_id == 5 {
        MeshBuffers { influence: l.mesh_influence_range_indices, ..b }
    } else if l.type_id == 6 {
        MeshBuffers { colors: b.colors.push(l.mesh_color), ..b }
    } else {
        b
    }
}

/// The buffers of a mesh with the layers `layers`.
pub open spec fn buffers_of(layers: Seq<XacVerticesAttributeView>) -> MeshBuffers
    decreases layers.len(),
{
    if layers.len() == 0 {
        no_buffers()
    } else {
        with_layer(buffers_of(layers.drop_last()), layers.last())
    }
}

/// The first `count` attribute layers from `pos` on, of a mesh of
/// `num_vertices` vertices, and the position behind them.
pub open spec fn spec_layers(data: Seq<u8>, pos: int, num_vertices: i32, count: nat) -> Result<
    (Seq<XacVerticesAttributeView>, int),
    ParseError,
>
    decreases count,
{
    if count == 0 {
        Ok((Seq::empty(), pos))
    } else {
        match spec_layers(data, pos, num_vertices, (count - 1) as nat) {
            Err(e) => Err(e),
            Ok((layers, p)) => match spec_layer(
                data,
                p,
                num_vertices,
                buffers_of(layers).tangents,
            ) {
                Err(e) => Err(e),
                Ok((l, q)) => Ok((layers.push(l), q)),
            },
        }
    }
}

/// Every buffer of the layer is empty or has `nv` values.
pub open spec fn layer_sized(l: XacVerticesAttributeView, nv: int) -> bool {
    &&& l.mesh_position.len() == 0 || l.mesh_position.len() == nv
    &&& l.mesh_normal.len() == 0 || l.mesh_normal.len() == nv
    &&& l.mesh_unknown_vec4d.len() == 0 || l.mesh_unknown_vec4d.len() == nv
    &&& l.mesh_unknown_vec2d.len() == 0 || l.mesh_unknown_vec2d.len() == nv
    &&& l.mesh_color8.len() == 0 || l.mesh_color8.len() == nv
    &&& l.mesh_influence_range_indices.len() == 0 || l.mesh_influence_range_indices.len() == nv
    &&& l.mesh_color.len() == 0 || l.mesh_color.len() == nv
}

/// Every buffer of every layer is empty or has `nv` values.
pub open spec fn layers_sized(layers: Seq<XacVerticesAttributeView>, nv: int) -> bool {
    forall|k: int| 0 <= k < layers.len() ==> layer_sized(#[trigger] layers[k], nv)
}

/// Every buffer is empty or has `nv` values.
pub open spec fn buffers_sized(b: MeshBuffers, nv: int) -> bool {
    &&& b.position.len() == 0 || b.position.len() == nv
    &&& b.normal.len() == 0 || b.normal.len() == nv
    &&& b.tangent.len() == 0 || b.tangent.len() == nv
    &&& b.bi_tangent.len() == 0 || b.bi_tangent.len() == nv
    &&& b.influence.len() == 0 || b.influence.len() == nv
    &&& forall|k: int|
        0 <= k < b.uv_sets.len() ==> (#[trigger] b.uv_sets[k]).len() == 0 || b.uv_sets[k].len()
            == nv
    &&& forall|k: int|
        0 <= k < b.colors.len() ==> (#[trigger] b.colors[k]).len() == 0 || b.colors[k].len() == nv
    &&& forall|k: int|
        0 <= k < b.colors8.len() ==> (#[trigger] b.colors8[k]).len() == 0 || b.colors8[k].len()
            == nv
}

/// A layer as decoded has buffers of the mesh's vertex count.
pub proof fn lemma_layer_sized(data: Seq<u8>, pos: int, num_vertices: i32, tangents: nat)
    requires
        spec_layer(data, pos, num_vertices, tangents) is Ok,
    ensures
        layer_sized(
            spec_layer(data, pos, num_vertices, tangents)->Ok_0.0,
            entries(num_vertices as int),
        ),
{
}

/// Buffers filled from layers of one size have that size.
pub proof fn lemma_buffers_sized(layers: Seq<XacVerticesAttributeView>, nv: int)
    requires
        layers_sized(layers, nv),
    ensures
        buffers_sized(buffers_of(layers), nv),
    decreases layers.len(),
{
    if layers.len() > 0 {
        let front = layers.drop_last();
        assert forall|k: int| 0 <= k < front.len() implies layer_sized(
            #[trigger] front[k],
            nv,
        ) by {
            assert(front[k] == layers[k]);
        }
        lemma_buffers_sized(front, nv);
        assert(layer_sized(layers[layers.len() - 1], nv));
    }
}

/// Once the layers up to `count` fail to decode, so do those up to any
/// larger count, with the same error.
pub proof fn lemma_layers_error_stays(
    data: Seq<u8>,
    pos: int,
    num_vertices: i32,
    count: nat,
    more: nat,
)
    requires
        count <= more,
        spec_layers(data, pos, num_vertices, count) is Err,
    ensures
        spec_layers(data, pos, num_vertices, more) == spec_layers(data, pos, num_vertices, count),
    decreases more,
{
    if count < more {
        lemma_layers_error_stays(data, pos, num_vertices, count, (more - 1) as nat);
    }
}

/// Where among the layers of a mesh its buffers lie: for each buffer the
/// index of the layer that holds it.
pub(crate) struct LayerIndex {
    /// Number of tangent layers seen.
    pub(crate) tangents: usize,
    /// The last position layer.
    pub(crate) position: Option<usize>,
    /// The last normal layer.
    pub(crate) normal: Option<usize>,
    /// The first tangent layer.
    pub(crate) tangent: Option<usize>,
    /// The second tangent layer.
    pub(crate) bi_tangent: Option<usize>,
    /// The last influence-range layer.
    pub(crate) influence: Option<usize>,
    /// The UV layers, in file order.
    pub(crate) uv: Vec<usize>,
    /// The 128-bit colour layers, in file order.
    pub(crate) color: Vec<usize>,
    /// The 32-bit colour layers, in file order.
    pub(crate) color8: Vec<usize>,
}

impl LayerIndex {
    /// The index names, for each buffer of a mesh with the layers `layers`,
    /// the layer that holds it.
    pub(crate) open spec fn describes(&self, layers: Seq<XacVerticesAttributeView>) -> bool {
        let b = buffers_of(layers);
        &&& self.tangents == b.tangents
        &&& b.tangents <= layers.len()
        &&& match self.position {
            Some(k) => k < layers.len() && layers[k as int].mesh_position == b.position,
            None => b.position == Seq::<XacVec3d>::empty(),
        }
        &&& match self.normal {
            Some(k) => k < layers.len() && layers[k as int].mesh_normal == b.normal,
            None => b.normal == Seq::<XacVec3d>::empty(),
        }
        &&& match self.tangent {
            Some(k) => k < layers.len() && layers[k as int].mesh_unknown_vec4d == b.tangent,
            None => b.tangent == Seq::<XacVec4d>::empty(),
        }
        &&& match self.bi_tangent {
            Some(k) => k < layers.len() && layers[k as int].mesh_unknown_vec4d == b.bi_tangent,
            None => b.bi_tangent == Seq::<XacVec4d>::empty(),
        }
        &&& match self.influence {
            Some(k) => k < layers.len() && layers[k as int].mesh_influence_range_indices
                == b.influence,
            None => b.influence == Seq::<i32>::empty(),
        }
        &&& self.uv@.len() == b.uv_sets.len()
        &&& forall|j: int|
            0 <= j < self.uv@.len() ==> (#[trigger] self.uv@[j]) < layers.len()
                && layers[self.uv@[j] as int].mesh_unknown_vec2d == b.uv_sets[j]
        &&& self.color@.len() == b.colors.len()
        &&& forall|j: int|
            0 <= j < self.color@.len() ==> (#[trigger] self.color@[j]) < layers.len()
                && layers[self.color@[j] as int].mesh_color == b.colors[j]
        &&& self.color8@.len() == b.colors8.len()
        &&& forall|j: int|
            0 <= j < self.color8@.len() ==> (#[trigger] self.color8@[j]) < layers.len()
                && layers[self.color8@[j] as int].mesh_color8 == b.colors8[j]
    }

    /// The index of a mesh without layers.
    pub(crate) fn new() -> (r: LayerIndex)
        ensures
            r.describes(Seq::empty()),
    {
        LayerIndex {
            tangents: 0,
            position: None,
            normal: None,
            tangent: None,
            bi_tangent: None,
            influence: None,
            uv: Vec::new(),
            color: Vec::new(),
            color8: Vec::new(),
        }
    }

    /// Takes note of one more layer, of type `type_id`, which is the layer
    /// number `at` of the mesh.
    pub(crate) fn note(
        &mut self,
        type_id: i32,
        at: usize,
        Ghost(layers): Ghost<Seq<XacVerticesAttributeView>>,
        Ghost(layer): Ghost<XacVerticesAttributeView>,
    )
        requires
            old(self).describes(layers),
            at == layers.len(),
            at < usize::MAX,
            type_id == layer.type_id,
        ensures
            final(self).describes(layers.push(layer)),
    {
        proof {
            assert(layers.push(layer).drop_last() =~= layers);
        }
        match XacVerticesAttributeType::from_tag(type_id) {
            Some(XacVerticesAttributeType::XacPositionId) => {
                self.position = Some(at);
            },
            Some(XacVerticesAttributeType::XacNormalId) => {
                self.normal = Some(at);
            },
            Some(XacVerticesAttributeType::XacTangentId) => {
                if self.tangents == 0 {
                    self.tangent = Some(at);
                } else if self.tangents == 1 {
                    self.bi_tangent = Some(at);
                }
                self.tangents = self.tangents + 1;
            },
            Some(XacVerticesAttributeType::XacUVCoordId) => {
                self.uv.push(at);
            },
            Some(XacVerticesAttributeType::XacColor32Id) => {
                self.color8.push(at);
            },
            Some(XacVerticesAttributeType::XacInfluenceRangeId) => {
                self.influence = Some(at);
            },
            Some(XacVerticesAttributeType::XacColor128Id) => {
                self.color.push(at);
            },
            None => {},
        }
    }
}

/// Reads the `count` attribute layers of a mesh of `num_vertices` vertices,
/// and notes which layer holds which buffer of the mesh.
pub(crate) fn read_layers(file: &mut Reader, num_vertices: i32, count: i32) -> (res: Result<
    (Vec<XacVerticesAttribute>, LayerIndex),
    ParseError,
>)
    requires
        old(file).wf(),
    ensures
        final(file).follows(old(file)),
        match spec_layers(
            old(file).bytes(),
            old(file).cursor(),
            num_vertices,
            entries(count as int) as nat,
        ) {
            Ok((layers, next)) => res matches Ok(r) && views(r.0@) == layers && r.1.describes(
                layers,
            )
                && layers_sized(layers, entries(num_vertices as int)) && final(file).cursor()
                == next,
            Err(e) => res matches Err(x) && x == e,
        },
{
    let ghost data = file.bytes();
    let ghost start = file.cursor();
    let mut layers: Vec<XacVerticesAttribute> = Vec::new();
    let mut index = LayerIndex::new();
    let mut i: i32 = 0;
    proof {
        assert(views(layers@) =~= Seq::empty());
    }
    while i < count
        invariant
            0 <= i,
            i <= entries(count as int),
            file.wf(),
            file.bytes() == data,
            data == old(file).bytes(),
            start == old(file).cursor(),
            layers@.len() == i,
            spec_layers(data, start, num_vertices, i as nat) == Ok::<
                (Seq<XacVerticesAttributeView>, int),
                ParseError,
            >((views(layers@), file.cursor())),
            index.describes(views(layers@)),
            layers_sized(views(layers@), entries(num_vertices as int)),
        decreases count - i,
    {
        let ghost before = views(layers@);
        let ghost at = file.cursor();
        match read_vertices_attribute(file, num_vertices, index.tangents) {
            Err(e) => {
                proof {
                    lemma_layers_error_stays(
                        data,
                        start,
                        num_vertices,
                        (i + 1) as nat,
                        entries(count as int) as nat,
                    );
                }
                return Err(e);
            },
            Ok(layer) => {
                proof {
                    lemma_views_push(layers@, layer);
                    lemma_layer_sized(data, at, num_vertices, index.tangents as nat);
                }
                index.note(layer.type_id, layers.len(), Ghost(before), Ghost(layer@));
                layers.push(layer);
                i = i + 1;
            },
        }
    }
    Ok((layers, index))
}

} // verus!
