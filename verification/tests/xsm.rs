use tos_parser::bytes::Float32;
use tos_parser::error::{FormatError, ParseError};
use tos_parser::reader::Reader;
use tos_parser::xsm::xsm_enums::XsmChunkType;
use tos_parser::xsm::xsm_parser::{
    read_bone_animation, read_header, read_metadata, read_next_chunk, xsm_read_quaternion16,
    xsm_read_vec3d, xsmparse,
};
use tos_parser::xsm::xsm_structs::{
    Xsm, XsmBoneAnimation, XsmMetadata, XsmPosKey, XsmQuaternion16, XsmRotKey, XsmScaleKey,
    XsmScaleRotKey, XsmVec3d,
};

fn i(v: i32) -> Vec<u8> {
    v.to_le_bytes().to_vec()
}

fn h(v: i16) -> Vec<u8> {
    v.to_le_bytes().to_vec()
}

fn f(v: f32) -> Vec<u8> {
    v.to_le_bytes().to_vec()
}

fn fl(v: f32) -> Float32 {
    Float32 { bits: v.to_bits() }
}

fn v3(x: f32, y: f32, z: f32) -> XsmVec3d {
    XsmVec3d { x: fl(x), y: fl(y), z: fl(z) }
}

fn s(text: &str) -> Vec<u8> {
    let mut out = i(text.len() as i32);
    out.extend_from_slice(text.as_bytes());
    out
}

fn cat(parts: &[Vec<u8>]) -> Vec<u8> {
    parts.iter().flat_map(|p| p.iter().copied()).collect()
}

fn header() -> Vec<u8> {
    vec![b'X', b'S', b'M', b' ', 1, 0, 0, 0xcd]
}

fn chunk(tag: i32, body: &[u8]) -> Vec<u8> {
    cat(&[i(tag), i(body.len() as i32), i(2), body.to_vec()])
}

fn at(kind: FormatError, offset: usize) -> ParseError {
    ParseError { kind, offset, chunk_type: None }
}

fn quat(base: i16) -> Vec<u8> {
    cat(&[h(base), h(base + 1), h(base + 2), h(-base)])
}

fn vec3(base: f32) -> Vec<u8> {
    cat(&[f(base), f(base + 1.0), f(base + 2.0)])
}

fn metadata_body() -> Vec<u8> {
    cat(&[
        f(0.0), f(0.001), i(30), vec![2, 5, 0, 0],
        s("3dsMax"), s("walk.max"), s("today"), s("walk"),
    ])
}

fn submotion(name: &str, pos: i32, rot: i32, scale: i32, scale_rot: i32) -> Vec<u8> {
    let mut out = cat(&[
        quat(10), quat(20), quat(30), quat(40),
        vec3(1.0), vec3(2.0), vec3(3.0), vec3(4.0),
        i(pos), i(rot), i(scale), i(scale_rot),
        f(0.125),
        s(name),
    ]);
    for k in 0..pos.max(0) {
        out.extend(cat(&[vec3(k as f32), f(10.0 - k as f32)]));
    }
    for k in 0..rot.max(0) {
        out.extend(cat(&[quat(100 + k as i16), f(k as f32)]));
    }
    for k in 0..scale.max(0) {
        out.extend(cat(&[vec3(50.0 + k as f32), f(k as f32)]));
    }
    for k in 0..scale_rot.max(0) {
        out.extend(cat(&[quat(200 + k as i16), f(k as f32)]));
    }
    out
}

#[test]
fn header_alone_gives_empty_document() {
    let doc = xsmparse(&header()).unwrap();
    assert_eq!(doc.header.magic, "XSM ");
    assert_eq!(doc.header.major_version, 1);
    assert_eq!(doc.header.minor_version, 0);
    assert!(!doc.header.big_endian);
    assert_eq!(doc.metadata, XsmMetadata::empty());
    assert_eq!(doc.bone_animation, XsmBoneAnimation::empty());
    assert!(doc.bone_animation.skeletal_submotion.is_empty());
}

#[test]
fn any_revision_is_taken() {
    let data = vec![b'X', b'S', b'M', b' ', 3, 7, 0, 0];
    let doc = xsmparse(&data).unwrap();
    assert_eq!((doc.header.major_version, doc.header.minor_version), (3, 7));
}

#[test]
fn model_magic_is_refused() {
    let data = vec![b'X', b'A', b'C', b' ', 1, 0, 0, 0];
    assert_eq!(xsmparse(&data), Err(at(FormatError::BadMagic { found: 0x2043_4158 }, 0)));
}

#[test]
fn big_endian_animation_is_refused() {
    let data = vec![b'X', b'S', b'M', b' ', 1, 0, 1, 0];
    assert_eq!(xsmparse(&data), Err(at(FormatError::UnsupportedEndianness { flag: 1 }, 6)));
}

#[test]
fn short_animation_header_is_truncated() {
    assert_eq!(
        xsmparse(&[b'X', b'S', b'M']),
        Err(at(FormatError::TruncatedData { needed: 4, available: 3 }, 0))
    );
    assert_eq!(
        xsmparse(&[b'X', b'S', b'M', b' ', 1, 0, 1]),
        Err(at(FormatError::TruncatedData { needed: 4, available: 3 }, 4))
    );
    let data = [b'X', b'S', b'M', b' ', 1, 0, 0, 0];
    let mut r = Reader::new(&data);
    assert!(read_header(&mut r).is_ok());
    assert_eq!(r.position(), 8);
}

#[test]
fn animation_chunk_tags() {
    assert_eq!(XsmChunkType::XsmMetadataId.tag(), 201);
    assert_eq!(XsmChunkType::XsmBoneAnimationId.tag(), 202);
    assert_eq!(XsmChunkType::from_tag(201), Some(XsmChunkType::XsmMetadataId));
    assert_eq!(XsmChunkType::from_tag(202), Some(XsmChunkType::XsmBoneAnimationId));
    assert_eq!(XsmChunkType::from_tag(200), None);
    assert_eq!(XsmChunkType::from_tag(7), None);
}

#[test]
fn animation_primitive_values() {
    let data = cat(&[h(-1), h(2), h(i16::MIN), h(i16::MAX), f(1.0), f(-2.0), f(0.5)]);
    let mut r = Reader::new(&data);
    assert_eq!(
        xsm_read_quaternion16(&mut r),
        Ok(XsmQuaternion16 { x: -1, y: 2, z: i16::MIN, w: i16::MAX })
    );
    assert_eq!(xsm_read_vec3d(&mut r), Ok(v3(1.0, -2.0, 0.5)));
    assert_eq!(
        xsm_read_quaternion16(&mut r),
        Err(at(FormatError::TruncatedData { needed: 8, available: 0 }, 20))
    );
}

#[test]
fn animation_metadata() {
    let body = metadata_body();
    let mut r = Reader::new(&body);
    let m = read_metadata(&mut r).unwrap();
    assert_eq!(r.position(), body.len());
    assert_eq!(m.unused, fl(0.0));
    assert_eq!(m.max_acceptable_error, fl(0.001));
    assert_eq!(m.fps, 30);
    assert_eq!(m.exporter_major_version, 2);
    assert_eq!(m.exporter_minor_version, 5);
    assert_eq!(m.source_app, "3dsMax");
    assert_eq!(m.original_filename, "walk.max");
    assert_eq!(m.export_date, "today");
    assert_eq!(m.motion_name, "walk");
}

#[test]
fn bone_animation_with_all_four_tracks() {
    let body = cat(&[i(2), submotion("hip", 2, 1, 0, 3), submotion("knee", 0, 0, 1, 0)]);
    let mut r = Reader::new(&body);
    let a = read_bone_animation(&mut r).unwrap();
    assert_eq!(r.position(), body.len());
    assert_eq!(a.num_submotion, 2);
    assert_eq!(a.skeletal_submotion.len(), 2);
    let hip = &a.skeletal_submotion[0];
    assert_eq!(hip.node_name, "hip");
    assert_eq!(hip.pose_rot, XsmQuaternion16 { x: 10, y: 11, z: 12, w: -10 });
    assert_eq!(hip.bind_pose_rot.x, 20);
    assert_eq!(hip.pose_scale_rot.y, 31);
    assert_eq!(hip.bind_pose_scale_rot.w, -40);
    assert_eq!(hip.pose_pos, v3(1.0, 2.0, 3.0));
    assert_eq!(hip.pose_scale, v3(2.0, 3.0, 4.0));
    assert_eq!(hip.bind_pose_pos, v3(3.0, 4.0, 5.0));
    assert_eq!(hip.bind_pose_scale_pos, v3(4.0, 5.0, 6.0));
    assert_eq!(hip.max_error, fl(0.125));
    assert_eq!(
        (hip.num_pos_keys, hip.num_rot_keys, hip.num_scale_keys, hip.num_scale_rot_keys),
        (2, 1, 0, 3)
    );
    // Times that fall are kept in file order.
    assert_eq!(
        hip.pos_key,
        vec![
            XsmPosKey { pos: v3(0.0, 1.0, 2.0), time: fl(10.0) },
            XsmPosKey { pos: v3(1.0, 2.0, 3.0), time: fl(9.0) },
        ]
    );
    assert_eq!(
        hip.rot_key,
        vec![XsmRotKey { rot: XsmQuaternion16 { x: 100, y: 101, z: 102, w: -100 }, time: fl(0.0) }]
    );
    assert!(hip.scale_key.is_empty());
    assert_eq!(hip.scale_rot_key.len(), 3);
    assert_eq!(
        hip.scale_rot_key[2],
        XsmScaleRotKey { rot: XsmQuaternion16 { x: 202, y: 203, z: 204, w: -202 }, time: fl(2.0) }
    );
    let knee = &a.skeletal_submotion[1];
    assert_eq!(knee.node_name, "knee");
    assert_eq!(knee.scale_key, vec![XsmScaleKey { scale: v3(50.0, 51.0, 52.0), time: fl(0.0) }]);
    assert!(knee.pos_key.is_empty() && knee.rot_key.is_empty() && knee.scale_rot_key.is_empty());
}

#[test]
fn negative_key_count_reads_no_key() {
    let body = cat(&[i(1), submotion("b", -4, 0, 0, 0)]);
    let mut r = Reader::new(&body);
    let a = read_bone_animation(&mut r).unwrap();
    assert_eq!(a.skeletal_submotion[0].num_pos_keys, -4);
    assert!(a.skeletal_submotion[0].pos_key.is_empty());
    assert_eq!(r.position(), body.len());
}

#[test]
fn keys_cut_short_are_truncated() {
    let mut body = cat(&[i(1), submotion("b", 1, 2, 0, 0)]);
    let rot_at = 4 + 100 + 5 + 16;
    body.truncate(rot_at + 13);
    let mut r = Reader::new(&body);
    assert_eq!(
        read_bone_animation(&mut r),
        Err(at(FormatError::TruncatedData { needed: 24, available: 13 }, rot_at))
    );
}

#[test]
fn submotion_missing_is_truncated() {
    let body = cat(&[i(2), submotion("only", 0, 0, 0, 0)]);
    let mut r = Reader::new(&body);
    assert_eq!(
        read_bone_animation(&mut r),
        Err(at(FormatError::TruncatedData { needed: 100, available: 0 }, body.len()))
    );
}

#[test]
fn whole_animation_file() {
    let data = cat(&[
        header(),
        chunk(201, &metadata_body()),
        chunk(50, &[0u8; 40]),
        chunk(202, &cat(&[i(1), submotion("root", 1, 1, 1, 1)])),
    ]);
    let doc = xsmparse(&data).unwrap();
    assert_eq!(doc.metadata.motion_name, "walk");
    assert_eq!(doc.bone_animation.num_submotion, 1);
    assert_eq!(doc.bone_animation.skeletal_submotion[0].node_name, "root");
    let without = cat(&[
        header(),
        chunk(201, &metadata_body()),
        chunk(202, &cat(&[i(1), submotion("root", 1, 1, 1, 1)])),
    ]);
    assert_eq!(xsmparse(&without).unwrap(), doc);
}

#[test]
fn animation_chunk_past_the_end_is_refused() {
    let data = cat(&[header(), i(50), i(1), i(0)]);
    assert_eq!(
        xsmparse(&data),
        Err(ParseError {
            kind: FormatError::InvalidChunkLength { length: 1, available: 0 },
            offset: 8,
            chunk_type: Some(50),
        })
    );
}

#[test]
fn failure_in_an_animation_body_names_the_chunk() {
    let data = cat(&[header(), chunk(202, &[1, 0, 0, 0, 9])]);
    assert_eq!(
        xsmparse(&data),
        Err(ParseError {
            kind: FormatError::TruncatedData { needed: 100, available: 1 },
            offset: 24,
            chunk_type: Some(202),
        })
    );
}

#[test]
fn next_animation_descriptor_is_read_behind_the_declared_length() {
    let mut body = metadata_body();
    let taken = body.len();
    body.extend_from_slice(&[0; 3]);
    let data = cat(&[header(), chunk(201, &body), chunk(77, &[1, 2])]);
    let mut r = Reader::new(&data);
    read_header(&mut r).unwrap();
    let doc = read_next_chunk(&mut r, Xsm::empty()).unwrap();
    assert_eq!(r.position(), 8 + 12 + taken + 3);
    let doc = read_next_chunk(&mut r, doc).unwrap();
    assert_eq!(r.position(), data.len());
    assert_eq!(doc.metadata.fps, 30);
}

#[test]
fn every_cut_and_changed_byte_of_an_animation_is_handled() {
    let data = cat(&[
        header(),
        chunk(201, &metadata_body()),
        chunk(202, &cat(&[i(2), submotion("a", 1, 2, 0, 1), submotion("b", 0, 0, 2, 0)])),
    ]);
    assert!(xsmparse(&data).is_ok());
    for cut in 0..data.len() {
        if let Err(e) = xsmparse(&data[..cut]) {
            assert!(e.offset <= cut);
        }
    }
    let mut state: u32 = 99;
    for at in 0..data.len() {
        for _ in 0..4 {
            state = state.wrapping_mul(1_664_525).wrapping_add(1_013_904_223);
            let mut changed = data.clone();
            changed[at] = (state >> 24) as u8;
            if let Ok(doc) = xsmparse(&changed) {
                for sub in &doc.bone_animation.skeletal_submotion {
                    assert_eq!(sub.pos_key.len() as i32, sub.num_pos_keys.max(0));
                    assert_eq!(sub.scale_rot_key.len() as i32, sub.num_scale_rot_keys.max(0));
                }
            }
        }
    }
}
