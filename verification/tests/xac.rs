use tos_parser::bytes::Float32;
use tos_parser::error::{FormatError, ParseError};
use tos_parser::reader::Reader;
use tos_parser::xac::xac_enums::{XacChunkType, XacVerticesAttributeType};
use tos_parser::xac::xac_material::{read_material_definition, read_shader_material};
use tos_parser::xac::xac_mesh::read_mesh;
use tos_parser::xac::xac_forest::{count_roots, find_stray_parent, forms_forest};
use tos_parser::xac::xac_nodes::read_node_hierarchy;
use tos_parser::xac::xac_parser::{
    read_chunk, read_header, read_metadata, read_next_chunk, xac_read_color8, xac_read_matrix44,
    xac_read_quaternion, xac_read_vec2d, xac_read_vec3d, xac_read_vec4d, xacparse,
};
use tos_parser::xac::xac_structs::{
    Xac, XacActorMaterial, XacColor8, XacMaterialTotal, XacMetadata, XacNodeHierarchy,
    XacQuaternion, XacVec2d, XacVec3d, XacVec4d,
};

fn i(v: i32) -> Vec<u8> {
    v.to_le_bytes().to_vec()
}

fn f(v: f32) -> Vec<u8> {
    v.to_le_bytes().to_vec()
}

fn fl(v: f32) -> Float32 {
    Float32 { bits: v.to_bits() }
}

fn v3(x: f32, y: f32, z: f32) -> XacVec3d {
    XacVec3d { x: fl(x), y: fl(y), z: fl(z) }
}

fn s(text: &str) -> Vec<u8> {
    let mut out = i(text.len() as i32);
    out.extend_from_slice(text.as_bytes());
    out
}

fn cat(parts: &[Vec<u8>]) -> Vec<u8> {
    parts.iter().flat_map(|p| p.iter().copied()).collect()
}

fn header() -> Vec<u8> {
    vec![b'X', b'A', b'C', b' ', 1, 0, 0, 0]
}

fn chunk(tag: i32, body: &[u8]) -> Vec<u8> {
    cat(&[i(tag), i(body.len() as i32), i(1), body.to_vec()])
}

fn at(kind: FormatError, offset: usize) -> ParseError {
    ParseError { kind, offset, chunk_type: None }
}

fn in_chunk(kind: FormatError, offset: usize, tag: i32) -> ParseError {
    ParseError { kind, offset, chunk_type: Some(tag) }
}

fn metadata_body(source_app: &str, original_filename: &str) -> Vec<u8> {
    cat(&[
        vec![0x04, 0x03, 0x02, 0x01],
        i(-7),
        vec![3, 9, 0xaa, 0xbb],
        f(0.25),
        s(source_app),
        s(original_filename),
        s("2020-01-02"),
        s("actor"),
    ])
}

fn mesh_head(vertices: i32, submeshes: i32, layers: i32) -> Vec<u8> {
    cat(&[i(5), i(2), i(vertices), i(6), i(submeshes), i(layers), vec![1, 0, 0, 0]])
}

fn layer_head(type_id: i32, size: i32) -> Vec<u8> {
    cat(&[i(type_id), i(size), vec![1, 2, 0, 0]])
}

fn sub_head(indices: i32, vertices: i32, material: i32, bones: i32) -> Vec<u8> {
    cat(&[i(indices), i(vertices), i(material), i(bones)])
}

fn positions(n: usize) -> Vec<u8> {
    (0..n).flat_map(|k| cat(&[f(k as f32), f(k as f32 + 0.5), f(-(k as f32))])).collect()
}

fn node(parent: i32, name: &str) -> Vec<u8> {
    cat(&[
        i(1), i(2), i(3), i(4),
        i(5), i(6), i(7), i(8),
        f(1.0), f(2.0), f(3.0),
        f(4.0), f(5.0), f(6.0),
        vec![0xee; 20],
        i(parent), i(2), i(1),
        (0..16).flat_map(|k| f(k as f32)).collect(),
        f(0.5),
        s(name),
    ])
}

fn nodes_body(parents: &[i32], roots: i32) -> Vec<u8> {
    let mut out = cat(&[i(parents.len() as i32), i(roots)]);
    for (k, p) in parents.iter().enumerate() {
        out.extend(node(*p, &format!("n{}", k)));
    }
    out
}

#[test]
fn model_header_alone_gives_empty_document() {
    let doc = xacparse(&header()).unwrap();
    assert_eq!(doc.header.magic, "XAC ");
    assert_eq!(doc.header.major_version, 1);
    assert_eq!(doc.header.minor_version, 0);
    assert_eq!(doc.header.big_endian, 0);
    assert_eq!(doc.metadata, XacMetadata::empty());
    assert_eq!(doc.metadata.source_app, "");
    assert_eq!(doc.metadata.reposition_mask, 0);
    assert!(doc.mesh.is_empty());
    assert!(doc.shader_material.is_empty());
    assert_eq!(doc.node_hierarchy, XacNodeHierarchy::empty());
    assert_eq!(doc.material_definition, XacActorMaterial::empty());
    assert_eq!(doc.material_total, XacMaterialTotal::zero());
}

#[test]
fn metadata_with_an_empty_file_name() {
    let data = cat(&[header(), chunk(7, &metadata_body("3dsMax", ""))]);
    let doc = xacparse(&data).unwrap();
    assert_eq!(doc.metadata.source_app, "3dsMax");
    assert_eq!(doc.metadata.original_filename, "");
    assert_eq!(doc.metadata.export_date, "2020-01-02");
    assert_eq!(doc.metadata.actor_name, "actor");
    assert_eq!(doc.metadata.reposition_mask, 0x0102_0304);
    assert_eq!(doc.metadata.repositioning_node, -7);
    assert_eq!(doc.metadata.exporter_major_version, 3);
    assert_eq!(doc.metadata.exporter_minor_version, 9);
    assert_eq!(doc.metadata.retarget_root_offset, fl(0.25));
}

#[test]
fn single_submesh_takes_the_whole_position_buffer() {
    let body = cat(&[
        mesh_head(3, 1, 1),
        layer_head(0, 12),
        positions(3),
        sub_head(3, 3, 4, 1),
        i(0), i(2), i(1),
        vec![9, 8, 7, 6],
    ]);
    let data = cat(&[header(), chunk(1, &body)]);
    let doc = xacparse(&data).unwrap();
    assert_eq!(doc.mesh.len(), 1);
    let mesh = &doc.mesh[0];
    assert_eq!(mesh.node_id, 5);
    assert_eq!(mesh.num_influence_ranges, 2);
    assert_eq!(mesh.num_vertices, 3);
    assert_eq!(mesh.num_indices, 6);
    assert_eq!(mesh.collision_mesh, 1);
    assert_eq!(mesh.vertices_attribute.len(), 1);
    let raw = &mesh.vertices_attribute[0].mesh_position;
    assert_eq!(raw, &vec![v3(0.0, 0.5, -0.0), v3(1.0, 1.5, -1.0), v3(2.0, 2.5, -2.0)]);
    assert_eq!(mesh.sub_mesh.len(), 1);
    let sub = &mesh.sub_mesh[0];
    assert_eq!(sub.sub_position.len(), 3);
    assert_eq!(&sub.sub_position, raw);
    assert_eq!(sub.num_vertices, 3);
    assert_eq!(sub.material_id, 4);
    assert_eq!(sub.sub_indices, vec![0, 2, 1]);
    assert_eq!(sub.sub_bone_ids, vec![9, 8, 7, 6]);
    assert!(sub.sub_normal.is_empty());
    assert!(sub.sub_uv_set.is_empty());
}

#[test]
fn other_major_version_is_refused_before_any_chunk() {
    let mut data = vec![b'X', b'A', b'C', b' ', 2, 0, 0, 0];
    data.extend_from_slice(&[0xff; 5]);
    assert_eq!(
        xacparse(&data),
        Err(at(FormatError::UnsupportedVersion { major: 2, minor: 0 }, 4))
    );
}

#[test]
fn unrecognized_chunk_between_two_recognized() {
    let total = cat(&[i(4), i(3), i(1)]);
    let data = cat(&[
        header(),
        chunk(7, &metadata_body("Maya", "a.max")),
        chunk(99, &[0xabu8; 40]),
        chunk(13, &total),
    ]);
    let doc = xacparse(&data).unwrap();
    assert_eq!(doc.metadata.source_app, "Maya");
    assert_eq!(doc.metadata.original_filename, "a.max");
    assert_eq!(
        doc.material_total,
        XacMaterialTotal { num_total_materials: 4, num_standard_materials: 3, num_fx_materials: 1 }
    );
    let without = cat(&[header(), chunk(7, &metadata_body("Maya", "a.max")), chunk(13, &total)]);
    assert_eq!(xacparse(&without).unwrap(), doc);
}

#[test]
fn bad_magic_is_refused() {
    let data = vec![b'X', b'S', b'M', b' ', 1, 0, 0, 0];
    assert_eq!(xacparse(&data), Err(at(FormatError::BadMagic { found: 0x204d_5358 }, 0)));
}

#[test]
fn bad_magic_comes_before_the_version() {
    let data = vec![b'N', b'O', b'P', b'E', 9, 9, 1, 0];
    let found = u32::from_le_bytes([b'N', b'O', b'P', b'E']);
    assert_eq!(xacparse(&data), Err(at(FormatError::BadMagic { found }, 0)));
}

#[test]
fn other_minor_version_is_refused() {
    let data = vec![b'X', b'A', b'C', b' ', 1, 1, 0, 0];
    assert_eq!(
        xacparse(&data),
        Err(at(FormatError::UnsupportedVersion { major: 1, minor: 1 }, 4))
    );
}

#[test]
fn big_endian_is_refused() {
    let data = vec![b'X', b'A', b'C', b' ', 1, 0, 1, 0];
    assert_eq!(xacparse(&data), Err(at(FormatError::UnsupportedEndianness { flag: 1 }, 6)));
}

#[test]
fn short_header_is_truncated() {
    assert_eq!(
        xacparse(&[b'X', b'A']),
        Err(at(FormatError::TruncatedData { needed: 4, available: 2 }, 0))
    );
    assert_eq!(
        xacparse(&[b'X', b'A', b'C', b' ', 1]),
        Err(at(FormatError::TruncatedData { needed: 1, available: 0 }, 5))
    );
    assert_eq!(
        xacparse(&[b'X', b'A', b'C', b' ', 1, 0, 0]),
        Err(at(FormatError::TruncatedData { needed: 1, available: 0 }, 7))
    );
    assert_eq!(xacparse(&[]), Err(at(FormatError::TruncatedData { needed: 4, available: 0 }, 0)));
}

#[test]
fn header_keeps_the_multiply_order() {
    let data = [b'X', b'A', b'C', b' ', 1, 0, 0, 7];
    let mut r = Reader::new(&data);
    let h = read_header(&mut r).unwrap();
    assert_eq!(h.multiply_order, 7);
    assert_eq!(r.position(), 8);
}

#[test]
fn short_descriptor_is_truncated() {
    let data = cat(&[header(), i(7), i(0)]);
    assert_eq!(
        xacparse(&data),
        Err(at(FormatError::TruncatedData { needed: 12, available: 8 }, 8))
    );
}

#[test]
fn chunk_that_reaches_past_the_end_is_refused() {
    let data = cat(&[header(), i(99), i(5), i(1), vec![0; 4]]);
    assert_eq!(
        xacparse(&data),
        Err(in_chunk(FormatError::InvalidChunkLength { length: 5, available: 4 }, 8, 99))
    );
}

#[test]
fn chunk_of_negative_length_is_refused() {
    let data = cat(&[header(), i(99), i(-12), i(1)]);
    assert_eq!(
        xacparse(&data),
        Err(in_chunk(FormatError::InvalidChunkLength { length: -12, available: 0 }, 8, 99))
    );
}

#[test]
fn chunk_that_ends_at_the_end_is_taken() {
    let data = cat(&[header(), chunk(99, &[1, 2, 3])]);
    assert_eq!(xacparse(&data).unwrap(), xacparse(&header()).unwrap());
}

#[test]
fn failure_in_a_body_names_the_chunk() {
    let data = cat(&[header(), chunk(7, &[0u8; 10])]);
    assert_eq!(
        xacparse(&data),
        Err(in_chunk(FormatError::TruncatedData { needed: 16, available: 10 }, 20, 7))
    );
}

#[test]
fn next_descriptor_is_read_behind_the_declared_length() {
    // The metadata decoder takes fewer bytes than the chunk declares.
    let mut body = metadata_body("x", "y");
    let taken = body.len();
    body.extend_from_slice(&[0x55; 9]);
    let data = cat(&[header(), chunk(7, &body), chunk(13, &cat(&[i(1), i(2), i(3)]))]);
    let mut r = Reader::new(&data);
    read_header(&mut r).unwrap();
    let doc = read_next_chunk(&mut r, Xac::empty()).unwrap();
    assert_eq!(r.position(), 8 + 12 + taken + 9);
    assert_eq!(doc.metadata.source_app, "x");
    let doc = read_next_chunk(&mut r, doc).unwrap();
    assert_eq!(r.position(), data.len());
    assert_eq!(doc.material_total.num_fx_materials, 3);
}

#[test]
fn decoder_may_take_more_than_the_declared_length() {
    // The chunk declares 4 bytes; the material totals take 12, reaching into
    // what follows. The next descriptor is still read 4 bytes behind the body's start.
    let tail = chunk(99, &[]);
    assert_eq!(tail.len(), 12);
    let data = cat(&[header(), i(13), i(4), i(1), i(77), tail.clone()]);
    let mut r = Reader::new(&data);
    read_header(&mut r).unwrap();
    let doc = read_next_chunk(&mut r, Xac::empty()).unwrap();
    assert_eq!(r.position(), 8 + 12 + 4);
    assert_eq!(doc.material_total.num_total_materials, 77);
    assert_eq!(doc.material_total.num_standard_materials, 99);
    assert_eq!(doc.material_total.num_fx_materials, 0);
    let doc = read_chunk(&mut r, doc).unwrap();
    assert!(r.at_end());
    assert_eq!(doc.material_total.num_total_materials, 77);
}

#[test]
fn skinning_and_morph_target_chunks_are_passed_over() {
    let data = cat(&[header(), chunk(2, &[1, 2, 3, 4]), chunk(12, &[5u8; 7])]);
    assert_eq!(xacparse(&data).unwrap(), xacparse(&header()).unwrap());
}

#[test]
fn later_metadata_takes_the_place_of_earlier() {
    let data = cat(&[
        header(),
        chunk(7, &metadata_body("first", "a")),
        chunk(7, &metadata_body("second", "b")),
    ]);
    let doc = xacparse(&data).unwrap();
    assert_eq!(doc.metadata.source_app, "second");
    assert_eq!(doc.metadata.original_filename, "b");
}

#[test]
fn chunk_tags() {
    assert_eq!(XacChunkType::XacMeshId.tag(), 1);
    assert_eq!(XacChunkType::XacSkinningId.tag(), 2);
    assert_eq!(XacChunkType::XacMaterialDefinitionId.tag(), 3);
    assert_eq!(XacChunkType::XacShaderMaterialId.tag(), 5);
    assert_eq!(XacChunkType::XacMetadataId.tag(), 7);
    assert_eq!(XacChunkType::XacNodeHierarchyId.tag(), 11);
    assert_eq!(XacChunkType::XacMorphTargetId.tag(), 12);
    assert_eq!(XacChunkType::XacMaterialTotalId.tag(), 13);
    assert_eq!(XacChunkType::from_tag(11), Some(XacChunkType::XacNodeHierarchyId));
    assert_eq!(XacChunkType::from_tag(4), None);
    assert_eq!(XacChunkType::from_tag(0), None);
    assert_eq!(XacVerticesAttributeType::XacPositionId.tag(), 0);
    assert_eq!(XacVerticesAttributeType::XacColor128Id.tag(), 6);
    assert_eq!(
        XacVerticesAttributeType::from_tag(5),
        Some(XacVerticesAttributeType::XacInfluenceRangeId)
    );
    assert_eq!(XacVerticesAttributeType::from_tag(7), None);
    assert_eq!(XacVerticesAttributeType::from_tag(-1), None);
}

#[test]
fn primitive_values() {
    let data = cat(&[
        vec![10, 20, 30],
        f(1.0), f(2.0),
        f(3.0), f(4.0), f(5.0),
        f(6.0), f(7.0), f(8.0), f(9.0),
        i(-1), i(2), i(-3), i(4),
    ]);
    let mut r = Reader::new(&data);
    assert_eq!(xac_read_color8(&mut r), Ok(XacColor8 { x: 10, y: 20, z: 30 }));
    assert_eq!(xac_read_vec2d(&mut r), Ok(XacVec2d { x: fl(1.0), y: fl(2.0) }));
    assert_eq!(xac_read_vec3d(&mut r), Ok(v3(3.0, 4.0, 5.0)));
    assert_eq!(
        xac_read_vec4d(&mut r),
        Ok(XacVec4d { x: fl(6.0), y: fl(7.0), z: fl(8.0), w: fl(9.0) })
    );
    assert_eq!(xac_read_quaternion(&mut r), Ok(XacQuaternion { x: -1, y: 2, z: -3, w: 4 }));
    assert!(r.at_end());
    assert_eq!(
        xac_read_vec3d(&mut r),
        Err(at(FormatError::TruncatedData { needed: 12, available: 0 }, data.len()))
    );
}

#[test]
fn matrix_is_three_columns_and_a_position() {
    let data: Vec<u8> = (0..16).flat_map(|k| f(k as f32)).collect();
    let mut r = Reader::new(&data);
    let m = xac_read_matrix44(&mut r).unwrap();
    assert_eq!(m.col1, XacVec4d { x: fl(0.0), y: fl(1.0), z: fl(2.0), w: fl(3.0) });
    assert_eq!(m.col3, XacVec4d { x: fl(8.0), y: fl(9.0), z: fl(10.0), w: fl(11.0) });
    assert_eq!(m.pos, XacVec4d { x: fl(12.0), y: fl(13.0), z: fl(14.0), w: fl(15.0) });
    let mut short = Reader::new(&data[..63]);
    assert_eq!(
        xac_read_matrix44(&mut short),
        Err(at(FormatError::TruncatedData { needed: 64, available: 63 }, 0))
    );
}

#[test]
fn metadata_alone() {
    let body = metadata_body("app", "file");
    let mut r = Reader::new(&body);
    let m = read_metadata(&mut r).unwrap();
    assert_eq!(m.source_app, "app");
    assert_eq!(r.position(), body.len());
}

#[test]
fn submeshes_divide_the_buffers() {
    let uv: Vec<u8> = (0..5).flat_map(|k| cat(&[f(k as f32), f(10.0 + k as f32)])).collect();
    let colors: Vec<u8> = (0..5u8).flat_map(|k| vec![k, k + 1, k + 2]).collect();
    let influence: Vec<u8> = (0..5).flat_map(|k| i(100 + k)).collect();
    let body = cat(&[
        mesh_head(5, 3, 4),
        layer_head(0, 12), positions(5),
        layer_head(3, 8), uv,
        layer_head(4, 3), colors,
        layer_head(5, 4), influence,
        sub_head(0, 2, 0, 0),
        sub_head(1, 0, 1, 0), i(42),
        sub_head(0, 3, 2, 2), vec![1, 2, 3, 4, 5, 6, 7, 8],
    ]);
    let mut r = Reader::new(&body);
    let mesh = read_mesh(&mut r).unwrap();
    assert_eq!(r.position(), body.len());
    let raw = mesh.vertices_attribute[0].mesh_position.clone();
    assert_eq!(raw.len(), 5);
    let subs = &mesh.sub_mesh;
    assert_eq!(subs.len(), 3);
    assert_eq!(subs.iter().map(|s| s.num_vertices).sum::<i32>(), mesh.num_vertices);
    assert_eq!(subs[0].sub_position, raw[0..2].to_vec());
    assert_eq!(subs[1].sub_position, Vec::<XacVec3d>::new());
    assert_eq!(subs[2].sub_position, raw[2..5].to_vec());
    let joined: Vec<XacVec3d> = subs.iter().flat_map(|s| s.sub_position.iter().copied()).collect();
    assert_eq!(joined, raw);
    assert_eq!(subs[0].sub_influence_range_indices, vec![100, 101]);
    assert_eq!(subs[2].sub_influence_range_indices, vec![102, 103, 104]);
    assert_eq!(subs[2].sub_uv_set.len(), 1);
    assert_eq!(subs[2].sub_uv_set[0], mesh.vertices_attribute[1].mesh_unknown_vec2d[2..5].to_vec());
    assert_eq!(subs[0].sub_color8, vec![vec![
        XacColor8 { x: 0, y: 1, z: 2 },
        XacColor8 { x: 1, y: 2, z: 3 }
    ]]);
    assert!(subs[0].sub_color.is_empty());
    assert_eq!(subs[1].sub_indices, vec![42]);
    assert_eq!(subs[2].sub_bone_ids, vec![1, 2, 3, 4, 5, 6, 7, 8]);
}

#[test]
fn tangent_layers_first_second_and_skipped() {
    let t = |base: f32| -> Vec<u8> {
        (0..2).flat_map(|k| cat(&[f(base), f(base + 1.0), f(base + 2.0), f(k as f32)])).collect()
    };
    let body = cat(&[
        mesh_head(2, 1, 4),
        layer_head(2, 16), t(1.0),
        layer_head(2, 16), t(5.0),
        layer_head(2, 5), vec![0x77; 10],
        layer_head(1, 12), positions(2),
        sub_head(0, 2, 0, 0),
    ]);
    let mut r = Reader::new(&body);
    let mesh = read_mesh(&mut r).unwrap();
    assert_eq!(r.position(), body.len());
    let layers = &mesh.vertices_attribute;
    assert_eq!(layers[0].mesh_unknown_vec4d.len(), 2);
    assert_eq!(layers[1].mesh_unknown_vec4d.len(), 2);
    assert!(layers[2].mesh_unknown_vec4d.is_empty());
    assert_eq!(layers[2].type_id, 2);
    assert_eq!(layers[2].attribute_size, 5);
    assert_eq!(layers[3].mesh_normal.len(), 2);
    assert!(layers[3].mesh_position.is_empty());
    let sub = &mesh.sub_mesh[0];
    assert_eq!(sub.sub_tangent, layers[0].mesh_unknown_vec4d);
    assert_eq!(sub.sub_bi_tangent, layers[1].mesh_unknown_vec4d);
    assert_eq!(sub.sub_tangent[0].x, fl(1.0));
    assert_eq!(sub.sub_bi_tangent[1].w, fl(1.0));
    assert_eq!(sub.sub_normal, layers[3].mesh_normal);
}

#[test]
fn layer_of_unrecognized_type_is_skipped_by_its_size() {
    let body = cat(&[
        mesh_head(3, 1, 3),
        layer_head(42, 7), vec![0x11; 21],
        layer_head(6, 12), positions(3),
        layer_head(0, 12), positions(3),
        sub_head(0, 3, 0, 0),
    ]);
    let mut r = Reader::new(&body);
    let mesh = read_mesh(&mut r).unwrap();
    assert_eq!(r.position(), body.len());
    let layers = &mesh.vertices_attribute;
    assert_eq!(layers[0].type_id, 42);
    assert_eq!(layers[0].keep_originals, 1);
    assert_eq!(layers[0].scale_factor, 2);
    assert!(layers[0].mesh_position.is_empty() && layers[0].mesh_color.is_empty());
    assert_eq!(layers[1].mesh_color.len(), 3);
    assert_eq!(layers[2].mesh_position[1], v3(1.0, 1.5, -1.0));
    assert_eq!(mesh.sub_mesh[0].sub_color, vec![layers[1].mesh_color.clone()]);
}

#[test]
fn last_position_layer_is_the_one_sliced() {
    let second: Vec<u8> = (0..2).flat_map(|k| cat(&[f(9.0), f(9.0), f(k as f32)])).collect();
    let body = cat(&[
        mesh_head(2, 2, 2),
        layer_head(0, 12), positions(2),
        layer_head(0, 12), second,
        sub_head(0, 1, 0, 0),
        sub_head(0, 1, 0, 0),
    ]);
    let mut r = Reader::new(&body);
    let mesh = read_mesh(&mut r).unwrap();
    assert_eq!(mesh.sub_mesh[0].sub_position, vec![v3(9.0, 9.0, 0.0)]);
    assert_eq!(mesh.sub_mesh[1].sub_position, vec![v3(9.0, 9.0, 1.0)]);
}

#[test]
fn submesh_past_the_mesh_is_refused() {
    let body = cat(&[
        mesh_head(3, 2, 1),
        layer_head(0, 12), positions(3),
        sub_head(0, 2, 0, 0),
        sub_head(0, 2, 0, 0),
    ]);
    let at_second = 28 + 12 + 36 + 16;
    let mut r = Reader::new(&body);
    assert_eq!(
        read_mesh(&mut r),
        Err(at(
            FormatError::SubMeshOutOfRange { first_vertex: 2, num_vertices: 2, mesh_vertices: 3 },
            at_second
        ))
    );
}

#[test]
fn submesh_of_negative_vertex_count_is_refused() {
    let body = cat(&[mesh_head(3, 1, 0), sub_head(0, -1, 0, 0)]);
    let mut r = Reader::new(&body);
    assert_eq!(
        read_mesh(&mut r),
        Err(at(
            FormatError::SubMeshOutOfRange { first_vertex: 0, num_vertices: -1, mesh_vertices: 3 },
            28
        ))
    );
}

#[test]
fn submeshes_that_leave_vertices_over_are_refused() {
    let body = cat(&[
        mesh_head(3, 1, 1),
        layer_head(0, 12), positions(3),
        sub_head(0, 2, 0, 0),
    ]);
    let mut r = Reader::new(&body);
    assert_eq!(
        read_mesh(&mut r),
        Err(at(FormatError::VertexCountMismatch { assigned: 2, declared: 3 }, 0))
    );
}

#[test]
fn mesh_without_vertices_and_submeshes() {
    let body = mesh_head(0, 0, 0);
    let mut r = Reader::new(&body);
    let mesh = read_mesh(&mut r).unwrap();
    assert!(mesh.sub_mesh.is_empty() && mesh.vertices_attribute.is_empty());
    assert_eq!(r.position(), 28);
}

#[test]
fn mesh_of_negative_vertex_count_is_refused() {
    let body = cat(&[mesh_head(-1, 0, 1), layer_head(0, 12)]);
    let mut r = Reader::new(&body);
    assert_eq!(
        read_mesh(&mut r),
        Err(at(FormatError::VertexCountMismatch { assigned: 0, declared: -1 }, 0))
    );
}

#[test]
fn layer_buffer_cut_short_is_truncated() {
    let body = cat(&[mesh_head(3, 1, 1), layer_head(0, 12), positions(2)]);
    let mut r = Reader::new(&body);
    assert_eq!(
        read_mesh(&mut r),
        Err(at(FormatError::TruncatedData { needed: 36, available: 24 }, 40))
    );
}

#[test]
fn huge_declared_counts_fail_without_reading() {
    let body = cat(&[mesh_head(i32::MAX, 1, 1), layer_head(42, i32::MAX)]);
    let mut r = Reader::new(&body);
    let needed = (i32::MAX as u64) * (i32::MAX as u64);
    assert_eq!(
        read_mesh(&mut r),
        Err(at(FormatError::TruncatedData { needed, available: 0 }, 40))
    );
}

#[test]
fn two_meshes_are_kept_in_file_order() {
    let one = cat(&[mesh_head(0, 0, 0)]);
    let mut two = mesh_head(0, 0, 0);
    two[0] = 9;
    let data = cat(&[header(), chunk(1, &one), chunk(1, &two)]);
    let doc = xacparse(&data).unwrap();
    assert_eq!(doc.mesh.len(), 2);
    assert_eq!(doc.mesh[0].node_id, 5);
    assert_eq!(doc.mesh[1].node_id, 9);
}

fn material_body(layers: u8) -> Vec<u8> {
    let mut out = cat(&[
        (0..16).flat_map(|k| f(k as f32)).collect(),
        f(0.1), f(0.2), f(0.3), f(0.4),
        vec![1, 0, 0xcc, layers],
        s("steel"),
    ]);
    for k in 0..layers {
        out.extend(cat(&[
            f(1.0), f(2.0), f(3.0), f(4.0), f(5.0), f(6.0),
            vec![0xfe, 0xff, k, 0xdd],
            s(&format!("tex{}.dds", k)),
        ]));
    }
    out
}

#[test]
fn material_with_layers() {
    let body = material_body(2);
    let mut r = Reader::new(&body);
    let m = read_material_definition(&mut r).unwrap();
    assert_eq!(r.position(), body.len());
    assert_eq!(m.ambient_color.x, fl(0.0));
    assert_eq!(m.emissive_color.w, fl(15.0));
    assert_eq!(m.shine, fl(0.1));
    assert_eq!(m.ior, fl(0.4));
    assert_eq!(m.double_sided, 1);
    assert_eq!(m.wireframe, 0);
    assert_eq!(m.num_layers, 2);
    assert_eq!(m.name, "steel");
    assert_eq!(m.layers.len(), 2);
    assert_eq!(m.layers[0].amount, fl(1.0));
    assert_eq!(m.layers[0].rotation_in_radian, fl(6.0));
    assert_eq!(m.layers[0].material_id, -2);
    assert_eq!(m.layers[1].map_type, 1);
    assert_eq!(m.layers[1].texture, "tex1.dds");
}

#[test]
fn material_missing_a_layer_is_truncated() {
    let mut body = material_body(1);
    let full = body.len();
    body.extend_from_slice(&[0u8; 5]);
    body[83] = 2;
    let mut r = Reader::new(&body);
    assert_eq!(
        read_material_definition(&mut r),
        Err(at(FormatError::TruncatedData { needed: 28, available: 5 }, full))
    );
}

#[test]
fn shader_material_with_its_four_lists() {
    let body = cat(&[
        i(2), i(1), i(0x55), i(1), i(0x0bad), i(1),
        s("mat"), s("shader.fx"),
        s("a"), i(-5),
        s("b"), i(6),
        s("gloss"), f(0.75),
        s("on"), vec![1],
        i(3), vec![0xaa, 0xbb, 0xcc],
        s("map"), s("wood.dds"),
    ]);
    let mut r = Reader::new(&body);
    let m = read_shader_material(&mut r).unwrap();
    assert_eq!(r.position(), body.len());
    assert_eq!((m.num_int, m.num_float, m.num_bool, m.num_string, m.flag), (2, 1, 1, 1, 0x55));
    assert_eq!(m.name_material, "mat");
    assert_eq!(m.name_shader, "shader.fx");
    assert_eq!(m.int_property.len(), 2);
    assert_eq!(m.int_property[0].name_properties, "a");
    assert_eq!(m.int_property[0].value, -5);
    assert_eq!(m.int_property[1].value, 6);
    assert_eq!(m.float_property[0].name_properties, "gloss");
    assert_eq!(m.float_property[0].value, fl(0.75));
    assert_eq!(m.bool_property[0].value, 1);
    assert_eq!(m.string_property[0].name_properties, "map");
    assert_eq!(m.string_property[0].value, "wood.dds");
}

#[test]
fn shader_material_reserved_region_cut_short() {
    let body = cat(&[i(0), i(0), i(0), i(0), i(0), i(0), s(""), s(""), i(4), vec![1, 2]]);
    let mut r = Reader::new(&body);
    assert_eq!(
        read_shader_material(&mut r),
        Err(at(FormatError::TruncatedData { needed: 4, available: 2 }, 36))
    );
}

#[test]
fn shader_materials_are_kept_in_file_order() {
    let one = cat(&[i(0), i(0), i(0), i(0), i(0), i(0), s("one"), s(""), i(0)]);
    let two = cat(&[i(0), i(0), i(0), i(0), i(0), i(0), s("two"), s(""), i(-1)]);
    let data = cat(&[header(), chunk(5, &one), chunk(3, &material_body(0)), chunk(5, &two)]);
    let doc = xacparse(&data).unwrap();
    assert_eq!(doc.shader_material.len(), 2);
    assert_eq!(doc.shader_material[0].name_material, "one");
    assert_eq!(doc.shader_material[1].name_material, "two");
    assert_eq!(doc.material_definition.name, "steel");
}

#[test]
fn node_hierarchy_keeps_the_nodes_in_file_order() {
    let body = nodes_body(&[-1, 0, 0, 2, -1], 2);
    let mut r = Reader::new(&body);
    let h = read_node_hierarchy(&mut r).unwrap();
    assert_eq!(r.position(), body.len());
    assert_eq!(h.num_nodes, 5);
    assert_eq!(h.num_root_nodes, 2);
    assert_eq!(h.node_data.len(), 5);
    let parents: Vec<i32> = h.node_data.iter().map(|n| n.parent_node_id).collect();
    assert_eq!(parents, vec![-1, 0, 0, 2, -1]);
    assert_eq!(count_roots(&h.node_data) as i32, h.num_root_nodes);
    assert_eq!(find_stray_parent(&h.node_data), 5);
    assert!(forms_forest(&h.node_data));
    let n = &h.node_data[3];
    assert_eq!(n.name, "n3");
    assert_eq!(n.rotation, XacQuaternion { x: 1, y: 2, z: 3, w: 4 });
    assert_eq!(n.scale_rotation, XacQuaternion { x: 5, y: 6, z: 7, w: 8 });
    assert_eq!(n.position, v3(1.0, 2.0, 3.0));
    assert_eq!(n.scale, v3(4.0, 5.0, 6.0));
    assert_eq!(n.num_child_nodes, 2);
    assert_eq!(n.include_bounds_calc, 1);
    assert_eq!(n.transform.col2.x, fl(4.0));
    assert_eq!(n.transform.pos.w, fl(15.0));
    assert_eq!(n.importance_factor, fl(0.5));
}

#[test]
fn every_parent_is_a_node_and_no_node_is_its_own_ancestor() {
    let body = nodes_body(&[3, 0, 1, -1, 2, 4], 1);
    let mut r = Reader::new(&body);
    let h = read_node_hierarchy(&mut r).unwrap();
    assert!(forms_forest(&h.node_data));
    let n = h.node_data.len() as i32;
    for (k, node) in h.node_data.iter().enumerate() {
        let p = node.parent_node_id;
        assert!(p == -1 || (0 <= p && p < n));
        let mut cur = p;
        let mut steps = 0;
        while cur != -1 {
            assert_ne!(cur as usize, k);
            cur = h.node_data[cur as usize].parent_node_id;
            steps += 1;
            assert!(steps <= n);
        }
    }
}

#[test]
fn declared_root_count_is_not_enforced() {
    let body = nodes_body(&[-1, -1], 7);
    let mut r = Reader::new(&body);
    let h = read_node_hierarchy(&mut r).unwrap();
    assert_eq!(h.num_root_nodes, 7);
    assert_eq!(count_roots(&h.node_data), 2);
}

#[test]
fn hierarchy_without_nodes_is_refused() {
    let body = cat(&[i(0), i(0)]);
    let mut r = Reader::new(&body);
    assert_eq!(
        read_node_hierarchy(&mut r),
        Err(at(FormatError::InvalidNodeCount { count: 0 }, 0))
    );
    let body = cat(&[i(-3), i(0)]);
    let data = cat(&[header(), chunk(11, &body)]);
    assert_eq!(
        xacparse(&data),
        Err(in_chunk(FormatError::InvalidNodeCount { count: -3 }, 20, 11))
    );
}

#[test]
fn parent_outside_the_list_is_refused() {
    let body = nodes_body(&[-1, 0, 3], 1);
    let mut r = Reader::new(&body);
    assert_eq!(
        read_node_hierarchy(&mut r),
        Err(at(FormatError::InvalidParentIndex { node: 2, parent: 3 }, 0))
    );
    let body = nodes_body(&[-2], 1);
    let mut r = Reader::new(&body);
    assert_eq!(
        read_node_hierarchy(&mut r),
        Err(at(FormatError::InvalidParentIndex { node: 0, parent: -2 }, 0))
    );
}

#[test]
fn parents_in_a_circle_are_read_and_are_no_forest() {
    let body = nodes_body(&[-1, 2, 3, 1], 1);
    let mut r = Reader::new(&body);
    let h = read_node_hierarchy(&mut r).unwrap();
    assert_eq!(h.node_data[3].parent_node_id, 1);
    assert_eq!(find_stray_parent(&h.node_data), 4);
    assert!(!forms_forest(&h.node_data));
    let body = nodes_body(&[0], 0);
    let mut r = Reader::new(&body);
    let h = read_node_hierarchy(&mut r).unwrap();
    assert!(!forms_forest(&h.node_data));
    assert_eq!(count_roots(&h.node_data), 0);
}

#[test]
fn stray_parent_is_no_forest() {
    let mut r = Reader::new(&[]);
    assert!(read_node_hierarchy(&mut r).is_err());
    let body = nodes_body(&[-1, 0], 1);
    let mut r = Reader::new(&body);
    let mut h = read_node_hierarchy(&mut r).unwrap();
    assert!(forms_forest(&h.node_data));
    h.node_data[1].parent_node_id = 2;
    assert_eq!(find_stray_parent(&h.node_data), 1);
    assert!(!forms_forest(&h.node_data));
    h.node_data[1].parent_node_id = -2;
    assert!(!forms_forest(&h.node_data));
    assert!(forms_forest(&Vec::new()));
}

#[test]
fn chain_as_long_as_the_list_is_taken() {
    let body = nodes_body(&[1, 2, 3, 4, -1], 1);
    let mut r = Reader::new(&body);
    assert_eq!(read_node_hierarchy(&mut r).unwrap().node_data.len(), 5);
}

#[test]
fn node_cut_short_is_truncated() {
    let mut body = nodes_body(&[-1], 1);
    body.truncate(8 + 100);
    let mut r = Reader::new(&body);
    assert_eq!(
        read_node_hierarchy(&mut r),
        Err(at(FormatError::TruncatedData { needed: 156, available: 100 }, 8))
    );
}

#[test]
fn deep_hierarchy_is_checked_in_one_pass() {
    // Each node's parent is the node behind it; the last one is the root.
    let n = 40_000;
    let parents: Vec<i32> = (0..n).map(|k| if k + 1 < n { k + 1 } else { -1 }).collect();
    let body = nodes_body(&parents, 1);
    let mut r = Reader::new(&body);
    let h = read_node_hierarchy(&mut r).unwrap();
    assert_eq!(h.node_data.len(), n as usize);
    assert!(forms_forest(&h.node_data));
    // The same chain closed to a circle.
    let mut circle = parents.clone();
    circle[n as usize - 1] = 0;
    let body = nodes_body(&circle, 0);
    let mut r = Reader::new(&body);
    let h = read_node_hierarchy(&mut r).unwrap();
    assert!(!forms_forest(&h.node_data));
}

#[test]
fn circle_behind_rooted_nodes_is_found() {
    // Nodes 0 to 2 hang below the root 2; node 3 leads into the circle of 4 and 5.
    let body = nodes_body(&[1, 2, -1, 4, 5, 4, 0], 1);
    let mut r = Reader::new(&body);
    let h = read_node_hierarchy(&mut r).unwrap();
    assert!(!forms_forest(&h.node_data));
    let body = nodes_body(&[1, 2, -1, 4, 5, 2, 0], 1);
    let mut r = Reader::new(&body);
    let h = read_node_hierarchy(&mut r).unwrap();
    assert!(forms_forest(&h.node_data));
}

fn sample_file() -> Vec<u8> {
    let mesh = cat(&[
        mesh_head(3, 2, 2),
        layer_head(0, 12), positions(3),
        layer_head(1, 12), positions(3),
        sub_head(1, 1, 0, 1), i(0), vec![1, 0, 0, 0],
        sub_head(2, 2, 1, 0), i(1), i(2),
    ]);
    let shader = cat(&[
        i(1), i(0), i(0), i(0), i(0), i(1),
        s("m"), s("fx"), s("k"), i(3), i(0), s("a"), s("b"),
    ]);
    cat(&[
        header(),
        chunk(7, &metadata_body("3dsMax", "x.max")),
        chunk(11, &nodes_body(&[-1, 0, 1], 1)),
        chunk(1, &mesh),
        chunk(3, &material_body(1)),
        chunk(5, &shader),
        chunk(13, &cat(&[i(1), i(1), i(0)])),
    ])
}

fn holds_together(doc: &Xac) {
    for mesh in &doc.mesh {
        assert_eq!(mesh.sub_mesh.iter().map(|s| s.num_vertices).sum::<i32>(), mesh.num_vertices);
        for layer in &mesh.vertices_attribute {
            let held = layer.mesh_position.len() as i32;
            assert!(held == 0 || held == mesh.num_vertices);
        }
    }
    let n = doc.node_hierarchy.node_data.len() as i32;
    for node in &doc.node_hierarchy.node_data {
        assert!(node.parent_node_id == -1 || (0 <= node.parent_node_id && node.parent_node_id < n));
    }
}

#[test]
fn whole_model_file() {
    let doc = xacparse(&sample_file()).unwrap();
    holds_together(&doc);
    assert_eq!(doc.mesh.len(), 1);
    assert_eq!(doc.mesh[0].sub_mesh[1].sub_normal.len(), 2);
    assert_eq!(doc.node_hierarchy.node_data.len(), 3);
    assert_eq!(doc.shader_material[0].string_property[0].value, "b");
    assert_eq!(doc.material_definition.layers.len(), 1);
}

#[test]
fn every_cut_of_a_file_fails_or_holds_together() {
    let data = sample_file();
    for cut in 0..data.len() {
        match xacparse(&data[..cut]) {
            Ok(doc) => holds_together(&doc),
            Err(e) => assert!(e.offset <= cut),
        }
    }
}

#[test]
fn every_changed_byte_fails_or_holds_together() {
    let data = sample_file();
    let mut state: u32 = 12345;
    for at in 0..data.len() {
        for _ in 0..4 {
            state = state.wrapping_mul(1_664_525).wrapping_add(1_013_904_223);
            let mut changed = data.clone();
            changed[at] = (state >> 24) as u8;
            match xacparse(&changed) {
                Ok(doc) => holds_together(&doc),
                Err(e) => assert!(e.offset <= changed.len()),
            }
        }
    }
}
