//! The mesh chunk: mesh-level counts, the attribute layers, then the
//! submeshes, each of which takes the next run of vertices from every buffer
//! of the mesh.

use crate::bytes::le_i32;
use crate::error::{fault, truncated, FormatError, ParseError};
use crate::model::{lemma_views_push, views};
use crate::reader::{decoded, entries, Reader};
use crate::xac::xac_layers::{
    buffers_of, buffers_sized, i32_list_at, layers_sized, lemma_buffers_sized, lemma_layer_sized,
    read_bytes, read_i32_list, read_layers, spec_layers, u8_list_at, LayerIndex, MeshBuffers,
};
use crate::xac::xac_structs::{
    XacActorMesh, XacActorMeshView, XacColor8, XacSubMesh, XacSubMeshView, XacVec2d, XacVec3d,
    XacVerticesAttribute,
};
use vstd::prelude::*;
use vstd::slice::{slice_subrange, slice_to_vec};

verus! {

/// The `n` values of `buf` from index `first` on; nothing where the buffer is
/// empty, which is the buffer of an attribute that the mesh does not have.
pub open spec fn slice_of<T>(buf: Seq<T>, first: int, n: int) -> Seq<T> {
    if buf.len() == 0 {
        Seq::empty()
    } else {
        buf.subrange(first, first + n)
    }
}

/// The same run of values of each of the buffers `bufs`.
pub open spec fn slices_of<T>(bufs: Seq<Seq<T>>, first: int, n: int) -> Seq<Seq<T>> {
    Seq::new(bufs.len(), |k: int| slice_of(bufs[k], first, n))
}

/// The error for a submesh record at `pos` that claims `num_vertices`
/// vertices from `first` on, in a mesh of `mesh_vertices`.
pub open spec fn out_of_range(pos: int, first: int, num_vertices: i32, mesh_vertices: i32) ->
    ParseError {
    fault(
        FormatError::SubMeshOutOfRange { first_vertex: first as i32, num_vertices, mesh_vertices },
        pos,
    )
}

/// The submesh at `pos` of a mesh of `mesh_vertices` vertices with the
/// buffers `b`, where the submeshes before it took the vertices below
/// `first`: a record of four integers (index count, vertex count, material,
/// bone count), then the indices, then four bytes for each bone. The submesh
/// takes the vertices from `first` on, of every buffer.
pub open spec fn spec_sub_mesh(
    data: Seq<u8>,
    pos: int,
    b: MeshBuffers,
    mesh_vertices: i32,
    first: int,
) -> Result<(XacSubMeshView, int), ParseError> {
    if pos + 16 > data.len() {
        Err(truncated(pos, 16, data.len() as int))
    } else {
        let num_indices = le_i32(data, pos) as i32;
        let num_vertices = le_i32(data, pos + 4) as i32;
        let material_id = le_i32(data, pos + 8) as i32;
        let num_bones = le_i32(data, pos + 12) as i32;
        let indices_at = pos + 16;
        let bones_at = indices_at + 4 * entries(num_indices as int);
        let end = bones_at + 4 * entries(num_bones as int);
        if num_vertices < 0 || first + num_vertices > mesh_vertices {
            Err(out_of_range(pos, first, num_vertices, mesh_vertices))
        } else if bones_at > data.len() {
            Err(truncated(indices_at, 4 * entries(num_indices as int), data.len() as int))
        } else if end > data.len() {
            Err(truncated(bones_at, 4 * entries(num_bones as int), data.len() as int))
        } else {
            let n = num_vertices as int;
            Ok(
                (
                    XacSubMeshView {
                        num_indices,
                        num_vertices,
                        material_id,
                        num_bones,
                        sub_position: slice_of(b.position, first, n),
                        sub_normal: slice_of(b.normal, first, n),
                        sub_tangent: slice_of(b.tangent, first, n),
                        sub_bi_tangent: slice_of(b.bi_tangent, first, n),
                        sub_uv_set: slices_of(b.uv_sets, first, n),
                        sub_influence_range_indices: slice_of(b.influence, first, n),
                        sub_color: slices_of(b.colors, first, n),
                        sub_color8: slices_of(b.colors8, first, n),
                        sub_indices: i32_list_at(data, indices_at, entries(num_indices as int)),
                        sub_bone_ids: u8_list_at(data, bones_at, 4 * entries(num_bones as int)),
                    },
                    end,
                ),
            )
        }
    }
}

/// Number of vertices that the submeshes `subs` claim together.
pub open spec fn vertex_total(subs: Seq<XacSubMeshView>) -> int
    decreases subs.len(),
{
    if subs.len() == 0 {
        0
    } else {
        vertex_total(subs.drop_last()) + subs.last().num_vertices
    }
}

/// The first `count` submeshes from `pos` on, each taking the vertices that
/// follow those of the one before, and the position behind them.
pub open spec fn spec_sub_meshes(
    data: Seq<u8>,
    pos: int,
    b: MeshBuffers,
    mesh_vertices: i32,
    count: nat,
) -> Result<(Seq<XacSubMeshView>, int), ParseError>
    decreases count,
{
    if count == 0 {
        Ok((Seq::empty(), pos))
    } else {
        match spec_sub_meshes(data, pos, b, mesh_vertices, (count - 1) as nat) {
            Err(e) => Err(e),
            Ok((subs, p)) => match spec_sub_mesh(data, p, b, mesh_vertices, vertex_total(subs)) {
                Err(e) => Err(e),
                Ok((sub, q)) => Ok((subs.push(sub), q)),
            },
        }
    }
}

/// Once the submeshes up to `count` fail to decode, so do those up to any
/// larger count, with the same error.
pub proof fn lemma_sub_meshes_error_stays(
    data: Seq<u8>,
    pos: int,
    b: MeshBuffers,
    mesh_vertices: i32,
    count: nat,
    more: nat,
)
    requires
        count <= more,
        spec_sub_meshes(data, pos, b, mesh_vertices, count) is Err,
    ensures
        spec_sub_meshes(data, pos, b, mesh_vertices, more) == spec_sub_meshes(
            data,
            pos,
            b,
            mesh_vertices,
            count,
        ),
    decreases more,
{
    if count < more {
        lemma_sub_meshes_error_stays(data, pos, b, mesh_vertices, count, (more - 1) as nat);
    }
}

/// Copies the `n` values of `buf` from index `first` on; nothing from an
/// empty buffer.
pub(crate) fn slice_copy<T: Copy>(buf: &Vec<T>, first: usize, n: usize) -> (r: Vec<T>)
    requires
        buf@.len() == 0 || first + n <= buf@.len(),
    ensures
        r@ == slice_of(buf@, first as int, n as int),
{
    if buf.len() == 0 {
        Vec::new()
    } else {
        slice_to_vec(slice_subrange(buf.as_slice(), first, first + n))
    }
}

/// Copies the `n` values from index `first` on of the buffer of each of the
/// UV layers, which are the layers `which` of `layers`.
pub(crate) fn slice_uv_sets(
    layers: &Vec<XacVerticesAttribute>,
    which: &Vec<usize>,
    first: usize,
    n: usize,
    Ghost(bufs): Ghost<Seq<Seq<XacVec2d>>>,
) -> (r: Vec<Vec<XacVec2d>>)
    requires
        which@.len() == bufs.len(),
        forall|j: int|
            0 <= j < which@.len() ==> (#[trigger] which@[j]) < layers@.len()
                && layers@[which@[j] as int].mesh_unknown_vec2d@ == bufs[j],
        forall|j: int|
            0 <= j < bufs.len() ==> (#[trigger] bufs[j]).len() == 0 || first + n <= bufs[j].len(),
    ensures
        views(r@) == slices_of(bufs, first as int, n as int),
{
    let mut out: Vec<Vec<XacVec2d>> = Vec::new();
    let mut j: usize = 0;
    while j < which.len()
        invariant
            j <= which@.len(),
            which@.len() == bufs.len(),
            forall|j: int|
                0 <= j < which@.len() ==> (#[trigger] which@[j]) < layers@.len()
                    && layers@[which@[j] as int].mesh_unknown_vec2d@ == bufs[j],
            forall|j: int|
                0 <= j < bufs.len() ==> (#[trigger] bufs[j]).len() == 0 || first + n
                    <= bufs[j].len(),
            out@.len() == j,
            forall|k: int|
                0 <= k < j ==> (#[trigger] out@[k])@ == slice_of(bufs[k], first as int, n as int),
        decreases which@.len() - j,
    {
        let k = which[j];
        assert(bufs[j as int].len() == 0 || first + n <= bufs[j as int].len());
        let part = slice_copy(&layers[k].mesh_unknown_vec2d, first, n);
        out.push(part);
        j = j + 1;
    }
    assert(views(out@) =~= slices_of(bufs, first as int, n as int));
    out
}

/// Copies the `n` values from index `first` on of the buffer of each of the
/// 128-bit colour layers, which are the layers `which` of `layers`.
pub(crate) fn slice_color_sets(
    layers: &Vec<XacVerticesAttribute>,
    which: &Vec<usize>,
    first: usize,
    n: usize,
    Ghost(bufs): Ghost<Seq<Seq<XacVec3d>>>,
) -> (r: Vec<Vec<XacVec3d>>)
    requires
        which@.len() == bufs.len(),
        forall|j: int|
            0 <= j < which@.len() ==> (#[trigger] which@[j]) < layers@.len()
                && layers@[which@[j] as int].mesh_color@ == bufs[j],
        forall|j: int|
            0 <= j < bufs.len() ==> (#[trigger] bufs[j]).len() == 0 || first + n <= bufs[j].len(),
    ensures
        views(r@) == slices_of(bufs, first as int, n as int),
{
    let mut out: Vec<Vec<XacVec3d>> = Vec::new();
    let mut j: usize = 0;
    while j < which.len()
        invariant
            j <= which@.len(),
            which@.len() == bufs.len(),
            forall|j: int|
                0 <= j < which@.len() ==> (#[trigger] which@[j]) < layers@.len()
                    && layers@[which@[j] as int].mesh_color@ == bufs[j],
            forall|j: int|
                0 <= j < bufs.len() ==> (#[trigger] bufs[j]).len() == 0 || first + n
                    <= bufs[j].len(),
            out@.len() == j,
            forall|k: int|
                0 <= k < j ==> (#[trigger] out@[k])@ == slice_of(bufs[k], first as int, n as int),
        decreases which@.len() - j,
    {
        let k = which[j];
        assert(bufs[j as int].len() == 0 || first + n <= bufs[j as int].len());
        let part = slice_copy(&layers[k].mesh_color, first, n);
        out.push(part);
        j = j + 1;
    }
    assert(views(out@) =~= slices_of(bufs, first as int, n as int));
    out
}

/// Copies the `n` values from index `first` on of the buffer of each of the
/// 32-bit colour layers, which are the layers `which` of `layers`.
pub(crate) fn slice_color8_sets(
    layers: &Vec<XacVerticesAttribute>,
    which: &Vec<usize>,
    first: usize,
    n: usize,
    Ghost(bufs): Ghost<Seq<Seq<XacColor8>>>,
) -> (r: Vec<Vec<XacColor8>>)
    requires
        which@.len() == bufs.len(),
        forall|j: int|
            0 <= j < which@.len() ==> (#[trigger] which@[j]) < layers@.len()
                && layers@[which@[j] as int].mesh_color8@ == bufs[j],
        forall|j: int|
            0 <= j < bufs.len() ==> (#[trigger] bufs[j]).len() == 0 || first + n <= bufs[j].len(),
    ensures
        views(r@) == slices_of(bufs, first as int, n as int),
{
    let mut out: Vec<Vec<XacColor8>> = Vec::new();
    let mut j: usize = 0;
    while j < which.len()
        invariant
            j <= which@.len(),
            which@.len() == bufs.len(),
            forall|j: int|
                0 <= j < which@.len() ==> (#[trigger] which@[j]) < layers@.len()
                    && layers@[which@[j] as int].mesh_color8@ == bufs[j],
            forall|j: int|
                0 <= j < bufs.len() ==> (#[trigger] bufs[j]).len() == 0 || first + n
                    <= bufs[j].len(),
            out@.len() == j,
            forall|k: int|
                0 <= k < j ==> (#[trigger] out@[k])@ == slice_of(bufs[k], first as int, n as int),
        decreases which@.len() - j,
    {
        let k = which[j];
        assert(bufs[j as int].len() == 0 || first + n <= bufs[j as int].len());
        let part = slice_copy(&layers[k].mesh_color8, first, n);
        out.push(part);
        j = j + 1;
    }
    assert(views(out@) =~= slices_of(bufs, first as int, n as int));
    out
}

/// Reads one submesh of a mesh of `mesh_vertices` vertices whose layers are
/// `layers`, where the submeshes before it took the vertices below `first`.
/// The submesh gets the next run of vertices of every buffer of the mesh; a
/// run that would be negative or reach past the mesh's vertices is refused.
pub(crate) fn read_sub_mesh(
    file: &mut Reader,
    layers: &Vec<XacVerticesAttribute>,
    index: &LayerIndex,
    mesh_vertices: i32,
    first: i32,
) -> (res: Result<XacSubMesh, ParseError>)
    requires
        old(file).wf(),
        index.describes(views(layers@)),
        layers_sized(views(layers@), entries(mesh_vertices as int)),
        0 <= first,
    ensures
        final(file).follows(old(file)),
        decoded(
            res,
            final(file).cursor(),
            spec_sub_mesh(
                old(file).bytes(),
                old(file).cursor(),
                buffers_of(views(layers@)),
                mesh_vertices,
                first as int,
            ),
        ),
{
    let at = file.position();
    file.need(16)?;
    let num_indices = file.read_i32()?;
    let num_vertices = file.read_i32()?;
    let material_id = file.read_i32()?;
    let num_bones = file.read_i32()?;
    if num_vertices < 0 || first as i64 + num_vertices as i64 > mesh_vertices as i64 {
        return Err(
            ParseError::at(
                FormatError::SubMeshOutOfRange { first_vertex: first, num_vertices, mesh_vertices },
                at,
            ),
        );
    }
    let sub_indices = read_i32_list(file, num_indices)?;
    let bones: u64 = if num_bones < 0 {
        0
    } else {
        num_bones as u64
    };
    let sub_bone_ids = read_bytes(file, 4 * bones)?;
    let ghost b = buffers_of(views(layers@));
    proof {
        lemma_buffers_sized(views(layers@), entries(mesh_vertices as int));
    }
    let f: usize = first as usize;
    let n: usize = num_vertices as usize;
    let sub_position = match index.position {
        Some(k) => slice_copy(&layers[k].mesh_position, f, n),
        None => Vec::new(),
    };
    let sub_normal = match index.normal {
        Some(k) => slice_copy(&layers[k].mesh_normal, f, n),
        None => Vec::new(),
    };
    let sub_tangent = match index.tangent {
        Some(k) => slice_copy(&layers[k].mesh_unknown_vec4d, f, n),
        None => Vec::new(),
    };
    let sub_bi_tangent = match index.bi_tangent {
        Some(k) => slice_copy(&layers[k].mesh_unknown_vec4d, f, n),
        None => Vec::new(),
    };
    let sub_influence_range_indices = match index.influence {
        Some(k) => slice_copy(&layers[k].mesh_influence_range_indices, f, n),
        None => Vec::new(),
    };
    let sub_uv_set = slice_uv_sets(layers, &index.uv, f, n, Ghost(b.uv_sets));
    let sub_color = slice_color_sets(layers, &index.color, f, n, Ghost(b.colors));
    let sub_color8 = slice_color8_sets(layers, &index.color8, f, n, Ghost(b.colors8));
    let sub = XacSubMesh {
        num_indices,
        num_vertices,
        material_id,
        num_bones,
        sub_position,
        sub_normal,
        sub_tangent,
        sub_bi_tangent,
        sub_uv_set,
        sub_influence_range_indices,
        sub_color,
        sub_color8,
        sub_indices,
        sub_bone_ids,
    };
    proof {
        assert(sub@.sub_position =~= slice_of(b.position, first as int, n as int));
        assert(sub@.sub_normal =~= slice_of(b.normal, first as int, n as int));
        assert(sub@.sub_tangent =~= slice_of(b.tangent, first as int, n as int));
        assert(sub@.sub_bi_tangent =~= slice_of(b.bi_tangent, first as int, n as int));
        assert(sub@.sub_influence_range_indices =~= slice_of(b.influence, first as int, n as int));
    }
    Ok(sub)
}

/// Reads the `count` submeshes of a mesh of `mesh_vertices` vertices whose
/// layers are `layers`. Each takes the vertices that follow those of the one
/// before. Returns the submeshes and the number of vertices that they claim
/// together.
pub(crate) fn read_sub_meshes(
    file: &mut Reader,
    layers: &Vec<XacVerticesAttribute>,
    index: &LayerIndex,
    mesh_vertices: i32,
    count: i32,
) -> (res: Result<(Vec<XacSubMesh>, i32), ParseError>)
    requires
        old(file).wf(),
        index.describes(views(layers@)),
        layers_sized(views(layers@), entries(mesh_vertices as int)),
    ensures
        final(file).follows(old(file)),
        match spec_sub_meshes(
            old(file).bytes(),
            old(file).cursor(),
            buffers_of(views(layers@)),
            mesh_vertices,
            entries(count as int) as nat,
        ) {
            Ok((subs, next)) => res matches Ok(r) && views(r.0@) == subs && r.1 == vertex_total(
                subs,
            ) && final(file).cursor() == next,
            Err(e) => res matches Err(x) && x == e,
        },
{
    let ghost data = file.bytes();
    let ghost start = file.cursor();
    let ghost b = buffers_of(views(layers@));
    let mut subs: Vec<XacSubMesh> = Vec::new();
    let mut first: i32 = 0;
    let mut i: i32 = 0;
    proof {
        assert(views(subs@) =~= Seq::empty());
    }
    while i < count
        invariant
            0 <= i,
            i <= entries(count as int),
            file.wf(),
            file.bytes() == data,
            data == old(file).bytes(),
            start == old(file).cursor(),
            b == buffers_of(views(layers@)),
            index.describes(views(layers@)),
            layers_sized(views(layers@), entries(mesh_vertices as int)),
            subs@.len() == i,
            0 <= first,
            first == vertex_total(views(subs@)),
            spec_sub_meshes(data, start, b, mesh_vertices, i as nat) == Ok::<
                (Seq<XacSubMeshView>, int),
                ParseError,
            >((views(subs@), file.cursor())),
        decreases count - i,
    {
        match read_sub_mesh(file, layers, index, mesh_vertices, first) {
            Err(e) => {
                proof {
                    lemma_sub_meshes_error_stays(
                        data,
                        start,
                        b,
                        mesh_vertices,
                        (i + 1) as nat,
                        entries(count as int) as nat,
                    );
                }
                return Err(e);
            },
            Ok(sub) => {
                proof {
                    lemma_views_push(subs@, sub);
                    assert(views(subs@).push(sub@).drop_last() =~= views(subs@));
                }
                first = first + sub.num_vertices;
                subs.push(sub);
                i = i + 1;
            },
        }
    }
    Ok((subs, first))
}

/// The error for a mesh at `pos` whose submeshes claim `assigned` vertices
/// together, where the mesh declares `declared`.
pub open spec fn count_mismatch(pos: int, assigned: int, declared: i32) -> ParseError {
    fault(FormatError::VertexCountMismatch { assigned: assigned as i32, declared }, pos)
}

/// The mesh at `pos`: six integers (owning node, influence-range count,
/// vertex count, index count, submesh count, layer count), the
/// collision-mesh flag and three bytes of padding; then the attribute
/// layers; then the submeshes, which must claim the mesh's vertices exactly.
pub open spec fn spec_mesh(data: Seq<u8>, pos: int) -> Result<(XacActorMeshView, int), ParseError> {
    if pos + 28 > data.len() {
        Err(truncated(pos, 28, data.len() as int))
    } else {
        let num_vertices = le_i32(data, pos + 8) as i32;
        let num_submeshes = le_i32(data, pos + 16) as i32;
        let num_attribute_layers = le_i32(data, pos + 20) as i32;
        match spec_layers(
            data,
            pos + 28,
            num_vertices,
            entries(num_attribute_layers as int) as nat,
        ) {
            Err(e) => Err(e),
            Ok((layers, p)) => match spec_sub_meshes(
                data,
                p,
                buffers_of(layers),
                num_vertices,
                entries(num_submeshes as int) as nat,
            ) {
                Err(e) => Err(e),
                Ok((subs, q)) => if vertex_total(subs) != num_vertices {
                    Err(count_mismatch(pos, vertex_total(subs), num_vertices))
                } else {
                    Ok(
                        (
                            XacActorMeshView {
                                node_id: le_i32(data, pos) as i32,
                                num_influence_ranges: le_i32(data, pos + 4) as i32,
                                num_vertices,
                                num_indices: le_i32(data, pos + 12) as i32,
                                num_submeshes,
                                num_attribute_layers,
                                collision_mesh: data[pos + 24],
                                vertices_attribute: layers,
                                sub_mesh: subs,
                            },
                            q,
                        ),
                    )
                },
            },
        }
    }
}

/// Reads a mesh: its counts, its attribute layers, then its submeshes. The
/// submeshes divide the mesh's vertices among them in file order, so their
/// vertex counts add up to the mesh's; a mesh where they do not is refused.
pub fn read_mesh(file: &mut Reader) -> (res: Result<XacActorMesh, ParseError>)
    requires
        old(file).wf(),
    ensures
        final(file).follows(old(file)),
        decoded(res, final(file).cursor(), spec_mesh(old(file).bytes(), old(file).cursor())),
        res matches Ok(mesh) ==> vertex_total(mesh@.sub_mesh) == mesh.num_vertices,
        res matches Ok(mesh) ==> mesh_consistent(mesh@),
{
    proof {
        lemma_decoded_mesh_consistent(file.bytes(), file.cursor());
    }
    let at = file.position();
    file.need(28)?;
    let node_id = file.read_i32()?;
    let num_influence_ranges = file.read_i32()?;
    let num_vertices = file.read_i32()?;
    let num_indices = file.read_i32()?;
    let num_submeshes = file.read_i32()?;
    let num_attribute_layers = file.read_i32()?;
    let collision_mesh = file.read_u8()?;
    file.skip(3)?;
    let (vertices_attribute, index) = read_layers(file, num_vertices, num_attribute_layers)?;
    let (sub_mesh, assigned) = read_sub_meshes(
        file,
        &vertices_attribute,
        &index,
        num_vertices,
        num_submeshes,
    )?;
    if assigned != num_vertices {
        return Err(
            ParseError::at(
                FormatError::VertexCountMismatch { assigned, declared: num_vertices },
                at,
            ),
        );
    }
    Ok(
        XacActorMesh {
            node_id,
            num_influence_ranges,
            num_vertices,
            num_indices,
            num_submeshes,
            num_attribute_layers,
            collision_mesh,
            vertices_attribute,
            sub_mesh,
        },
    )
}

/// The submesh `sub` holds, of every buffer in `b`, the run of its
/// `num_vertices` values from index `first` on.
pub open spec fn takes_run(sub: XacSubMeshView, b: MeshBuffers, first: int) -> bool {
    let n = sub.num_vertices as int;
    &&& 0 <= n
    &&& sub.sub_position == slice_of(b.position, first, n)
    &&& sub.sub_normal == slice_of(b.normal, first, n)
    &&& sub.sub_tangent == slice_of(b.tangent, first, n)
    &&& sub.sub_bi_tangent == slice_of(b.bi_tangent, first, n)
    &&& sub.sub_uv_set == slices_of(b.uv_sets, first, n)
    &&& sub.sub_influence_range_indices == slice_of(b.influence, first, n)
    &&& sub.sub_color == slices_of(b.colors, first, n)
    &&& sub.sub_color8 == slices_of(b.colors8, first, n)
}

/// Index of the first vertex of submesh `i`: the number of vertices that the
/// submeshes before it claim.
pub open spec fn first_vertex(subs: Seq<XacSubMeshView>, i: int) -> int {
    vertex_total(subs.take(i))
}

/// Each submesh of `subs` holds the run of vertices that follows the runs of
/// those before it.
pub open spec fn runs_in_order(subs: Seq<XacSubMeshView>, b: MeshBuffers) -> bool {
    forall|i: int| 0 <= i < subs.len() ==> takes_run(#[trigger] subs[i], b, first_vertex(subs, i))
}

/// What holds of every mesh that was decoded: it has as many layers and
/// submeshes as it declares; every buffer of the mesh is empty or has one
/// value per vertex; the vertex counts of the submeshes add up to the
/// mesh's; and the submeshes hold consecutive runs of every buffer, in file
/// order.
#[verifier::opaque]
pub open spec fn mesh_consistent(mesh: XacActorMeshView) -> bool {
    let b = buffers_of(mesh.vertices_attribute);
    &&& mesh.vertices_attribute.len() == entries(mesh.num_attribute_layers as int)
    &&& mesh.sub_mesh.len() == entries(mesh.num_submeshes as int)
    &&& buffers_sized(b, entries(mesh.num_vertices as int))
    &&& vertex_total(mesh.sub_mesh) == mesh.num_vertices
    &&& runs_in_order(mesh.sub_mesh, b)
}

/// Submeshes as decoded hold consecutive runs, none of a negative length,
/// and together claim no more vertices than the mesh has.
pub proof fn lemma_decoded_sub_meshes(
    data: Seq<u8>,
    pos: int,
    b: MeshBuffers,
    mesh_vertices: i32,
    count: nat,
)
    requires
        spec_sub_meshes(data, pos, b, mesh_vertices, count) is Ok,
    ensures
        ({
            let subs = spec_sub_meshes(data, pos, b, mesh_vertices, count)->Ok_0.0;
            &&& subs.len() == count
            &&& runs_in_order(subs, b)
            &&& 0 <= vertex_total(subs)
            &&& count > 0 ==> vertex_total(subs) <= mesh_vertices
        }),
    decreases count,
{
    if count > 0 {
        lemma_decoded_sub_meshes(data, pos, b, mesh_vertices, (count - 1) as nat);
        let (front, p) = spec_sub_meshes(data, pos, b, mesh_vertices, (count - 1) as nat)->Ok_0;
        let (sub, q) = spec_sub_mesh(data, p, b, mesh_vertices, vertex_total(front))->Ok_0;
        let subs = front.push(sub);
        assert(subs.drop_last() =~= front);
        assert forall|i: int| 0 <= i < subs.len() implies takes_run(
            #[trigger] subs[i],
            b,
            first_vertex(subs, i),
        ) by {
            if i < front.len() {
                assert(subs.take(i) =~= front.take(i));
                assert(takes_run(front[i], b, first_vertex(front, i)));
            } else {
                assert(subs.take(i) =~= front);
            }
        }
    }
}

/// Layers as decoded are as many as were asked for, and have buffers of the
/// mesh's vertex count.
pub proof fn lemma_decoded_layers(data: Seq<u8>, pos: int, num_vertices: i32, count: nat)
    requires
        spec_layers(data, pos, num_vertices, count) is Ok,
    ensures
        spec_layers(data, pos, num_vertices, count)->Ok_0.0.len() == count,
        layers_sized(
            spec_layers(data, pos, num_vertices, count)->Ok_0.0,
            entries(num_vertices as int),
        ),
    decreases count,
{
    if count > 0 {
        lemma_decoded_layers(data, pos, num_vertices, (count - 1) as nat);
        let (front, p) = spec_layers(data, pos, num_vertices, (count - 1) as nat)->Ok_0;
        lemma_layer_sized(data, p, num_vertices, buffers_of(front).tangents);
    }
}

/// A mesh as decoded is consistent.
pub proof fn lemma_decoded_mesh_consistent(data: Seq<u8>, pos: int)
    ensures
        spec_mesh(data, pos) matches Ok((mesh, _)) ==> mesh_consistent(mesh),
{
    reveal(mesh_consistent);
    if spec_mesh(data, pos) is Ok {
        let num_vertices = le_i32(data, pos + 8) as i32;
        let num_submeshes = le_i32(data, pos + 16) as i32;
        let num_attribute_layers = le_i32(data, pos + 20) as i32;
        let layers_count = entries(num_attribute_layers as int) as nat;
        let (layers, p) = spec_layers(data, pos + 28, num_vertices, layers_count)->Ok_0;
        lemma_decoded_layers(data, pos + 28, num_vertices, layers_count);
        lemma_buffers_sized(layers, entries(num_vertices as int));
        lemma_decoded_sub_meshes(
            data,
            p,
            buffers_of(layers),
            num_vertices,
            entries(num_submeshes as int) as nat,
        );
    }
}

/// The runs of the submeshes lie one behind the other: each starts where the
/// one before it ends, the first at vertex 0.
pub proof fn lemma_runs_are_consecutive(subs: Seq<XacSubMeshView>, i: int)
    requires
        0 <= i < subs.len(),
    ensures
        first_vertex(subs, 0) == 0,
        first_vertex(subs, i + 1) == first_vertex(subs, i) + subs[i].num_vertices,
        first_vertex(subs, subs.len() as int) == vertex_total(subs),
{
    assert(subs.take(i + 1).drop_last() =~= subs.take(i));
    assert(subs.take(subs.len() as int) =~= subs);
    assert(subs.take(0).len() == 0);
}

/// In a consistent mesh the runs of two different submeshes do not overlap:
/// the earlier one ends before the later one starts, and none reaches past
/// the mesh's vertices.
pub proof fn lemma_runs_do_not_overlap(mesh: XacActorMeshView, i: int, j: int)
    requires
        mesh_consistent(mesh),
        0 <= i < j < mesh.sub_mesh.len(),
    ensures
        0 <= first_vertex(mesh.sub_mesh, i),
        first_vertex(mesh.sub_mesh, i) + mesh.sub_mesh[i].num_vertices <= first_vertex(
            mesh.sub_mesh,
            j,
        ),
        first_vertex(mesh.sub_mesh, j) + mesh.sub_mesh[j].num_vertices <= mesh.num_vertices,
{
    reveal(mesh_consistent);
    let subs = mesh.sub_mesh;
    lemma_first_vertex_grows(mesh, 0, i);
    lemma_first_vertex_grows(mesh, i + 1, j);
    lemma_first_vertex_grows(mesh, j + 1, subs.len() as int);
    lemma_runs_are_consecutive(subs, i);
    lemma_runs_are_consecutive(subs, j);
}

/// In a consistent mesh a later submesh starts no earlier than an earlier
/// one.
pub proof fn lemma_first_vertex_grows(mesh: XacActorMeshView, i: int, j: int)
    requires
        mesh_consistent(mesh),
        0 <= i <= j <= mesh.sub_mesh.len(),
    ensures
        first_vertex(mesh.sub_mesh, i) <= first_vertex(mesh.sub_mesh, j),
    decreases j - i,
{
    reveal(mesh_consistent);
    if i < j {
        lemma_first_vertex_grows(mesh, i, j - 1);
        lemma_runs_are_consecutive(mesh.sub_mesh, j - 1);
        assert(takes_run(
            mesh.sub_mesh[j - 1],
            buffers_of(mesh.vertices_attribute),
            first_vertex(mesh.sub_mesh, j - 1),
        ));
    }
}

/// In a consistent mesh every vertex lies in the run of some submesh: the
/// one that this function returns. With [`lemma_runs_do_not_overlap`], it is
/// the only one.
pub proof fn lemma_every_vertex_in_a_run(mesh: XacActorMeshView, v: int) -> (i: int)
    requires
        mesh_consistent(mesh),
        0 <= v < mesh.num_vertices,
    ensures
        0 <= i < mesh.sub_mesh.len(),
        first_vertex(mesh.sub_mesh, i) <= v < first_vertex(mesh.sub_mesh, i)
            + mesh.sub_mesh[i].num_vertices,
{
    reveal(mesh_consistent);
    assert(mesh.sub_mesh.take(mesh.sub_mesh.len() as int) =~= mesh.sub_mesh);
    lemma_vertex_below(mesh, v, mesh.sub_mesh.len() as int)
}

/// A vertex below the start of submesh `upto` lies in the run of a submesh
/// before it.
proof fn lemma_vertex_below(mesh: XacActorMeshView, v: int, upto: int) -> (i: int)
    requires
        mesh_consistent(mesh),
        0 <= upto <= mesh.sub_mesh.len(),
        0 <= v < first_vertex(mesh.sub_mesh, upto),
    ensures
        0 <= i < upto,
        first_vertex(mesh.sub_mesh, i) <= v < first_vertex(mesh.sub_mesh, i)
            + mesh.sub_mesh[i].num_vertices,
    decreases upto,
{
    reveal(mesh_consistent);
    if upto == 0 {
        assert(mesh.sub_mesh.take(0).len() == 0);
        0
    } else {
        lemma_runs_are_consecutive(mesh.sub_mesh, upto - 1);
        if v >= first_vertex(mesh.sub_mesh, upto - 1) {
            upto - 1
        } else {
            lemma_vertex_below(mesh, v, upto - 1)
        }
    }
}

/// A run of `n` values from index `first` on, of a buffer that has a value
/// for each vertex, holds the value of vertex `v` at the vertex's place in
/// the run.
pub proof fn lemma_run_holds_vertex<T>(buf: Seq<T>, first: int, n: int, v: int)
    requires
        0 <= first <= v < first + n <= buf.len(),
    ensures
        slice_of(buf, first, n).len() == n,
        slice_of(buf, first, n)[v - first] == buf[v],
{
}

/// In a consistent mesh with positions, the position of vertex `v` stands in
/// the submesh `i` whose run holds `v`, at the vertex's place in the run.
/// The same holds of every other buffer of the mesh, by
/// [`lemma_run_holds_vertex`].
pub proof fn lemma_position_of_vertex(mesh: XacActorMeshView, i: int, v: int)
    requires
        mesh_consistent(mesh),
        0 <= i < mesh.sub_mesh.len(),
        first_vertex(mesh.sub_mesh, i) <= v < first_vertex(mesh.sub_mesh, i)
            + mesh.sub_mesh[i].num_vertices,
        buffers_of(mesh.vertices_attribute).position.len() > 0,
    ensures
        buffers_of(mesh.vertices_attribute).position.len() == mesh.num_vertices,
        mesh.sub_mesh[i].sub_position.len() == mesh.sub_mesh[i].num_vertices,
        mesh.sub_mesh[i].sub_position[v - first_vertex(mesh.sub_mesh, i)] == buffers_of(
            mesh.vertices_attribute,
        ).position[v],
{
    reveal(mesh_consistent);
    let subs = mesh.sub_mesh;
    let b = buffers_of(mesh.vertices_attribute);
    assert(takes_run(subs[i], b, first_vertex(subs, i)));
    lemma_first_vertex_grows(mesh, 0, i);
    lemma_first_vertex_grows(mesh, i + 1, subs.len() as int);
    lemma_runs_are_consecutive(subs, i);
    lemma_run_holds_vertex(b.position, first_vertex(subs, i), subs[i].num_vertices as int, v);
}

} // verus!
