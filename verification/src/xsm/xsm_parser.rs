//! Decoders for the XSM format: its primitive values, its header, the
//! metadata and bone-animation chunks, and the chunk dispatcher.

use crate::bytes::{le_i16, le_i32, le_u32};
use crate::error::{fault, in_chunk, truncated, FormatError, ParseError};
use crate::model::{lemma_views_push, views};
use crate::reader::{
    decoded, decoded_list, entries, fixed, float_at, lemma_repeat_error_stays, lemma_repeat_len,
    spec_repeat, spec_string, Reader,
};
use crate::xsm::xsm_enums::XsmChunkType;
use crate::xsm::xsm_structs::{
    Xsm, XsmBoneAnimation, XsmBoneAnimationView, XsmChunk, XsmHeader, XsmHeaderView, XsmMetadata,
    XsmMetadataView, XsmPosKey, XsmQuaternion16, XsmRotKey, XsmScaleKey, XsmScaleRotKey,
    XsmSubMotion, XsmSubMotionView, XsmVec3d, XsmView,
};
use vstd::prelude::*;
use vstd::string::*;

verus! {

/// The triple of numbers whose encoding starts at `data[pos]`.
pub open spec fn vec3d_at(data: Seq<u8>, pos: int) -> XsmVec3d {
    XsmVec3d { x: float_at(data, pos), y: float_at(data, pos + 4), z: float_at(data, pos + 8) }
}

/// The compressed quaternion whose four 16-bit components start at
/// `data[pos]`.
pub open spec fn quaternion16_at(data: Seq<u8>, pos: int) -> XsmQuaternion16 {
    XsmQuaternion16 {
        x: le_i16(data, pos) as i16,
        y: le_i16(data, pos + 2) as i16,
        z: le_i16(data, pos + 4) as i16,
        w: le_i16(data, pos + 6) as i16,
    }
}

/// Reads a length-prefixed string: a signed 32-bit length `n`, then `n` bytes,
/// each taken as one character. A length of zero gives the empty string, and
/// so does a negative one. A string of `n` characters takes `4 + n` bytes.
pub fn xsm_read_string(file: &mut Reader) -> (res: Result<String, ParseError>)
    requires
        old(file).wf(),
    ensures
        final(file).follows(old(file)),
        decoded(res, final(file).cursor(), spec_string(old(file).bytes(), old(file).cursor())),
        res matches Ok(s) ==> final(file).cursor() == old(file).cursor() + 4 + s@.len(),
        res matches Ok(s) ==> s@.len() == entries(le_i32(old(file).bytes(), old(file).cursor())),
{
    file.read_string()
}

/// Reads a compressed quaternion of four 16-bit components.
pub fn xsm_read_quaternion16(file: &mut Reader) -> (res: Result<XsmQuaternion16, ParseError>)
    requires
        old(file).wf(),
    ensures
        final(file).follows(old(file)),
        decoded(
            res,
            final(file).cursor(),
            fixed(
                old(file).bytes(),
                old(file).cursor(),
                8,
                quaternion16_at(old(file).bytes(), old(file).cursor()),
            ),
        ),
{
    file.need(8)?;
    let x = file.read_i16()?;
    let y = file.read_i16()?;
    let z = file.read_i16()?;
    let w = file.read_i16()?;
    Ok(XsmQuaternion16 { x, y, z, w })
}

/// Reads three single-precision numbers.
pub fn xsm_read_vec3d(file: &mut Reader) -> (res: Result<XsmVec3d, ParseError>)
    requires
        old(file).wf(),
    ensures
        final(file).follows(old(file)),
        decoded(
            res,
            final(file).cursor(),
            fixed(
                old(file).bytes(),
                old(file).cursor(),
                12,
                vec3d_at(old(file).bytes(), old(file).cursor()),
            ),
        ),
{
    file.need(12)?;
    let x = file.read_float()?;
    let y = file.read_float()?;
    let z = file.read_float()?;
    Ok(XsmVec3d { x, y, z })
}

/// The first four bytes of an animation file, read as a little-endian word.
pub const XSM_MAGIC: u32 = 0x204d_5358;

/// The four characters that open an animation file.
pub open spec fn xsm_magic() -> Seq<char> {
    seq!['X', 'S', 'M', ' ']
}

/// The header at `pos`: the four bytes "XSM ", the major and minor version,
/// the endianness flag, which must be 0, and a byte of padding.
pub open spec fn spec_header(data: Seq<u8>, pos: int) -> Result<(XsmHeaderView, int), ParseError> {
    if pos + 4 > data.len() {
        Err(truncated(pos, 4, data.len() as int))
    } else if le_u32(data, pos) != XSM_MAGIC {
        Err(fault(FormatError::BadMagic { found: le_u32(data, pos) as u32 }, pos))
    } else if pos + 8 > data.len() {
        Err(truncated(pos + 4, 4, data.len() as int))
    } else if data[pos + 6] != 0 {
        Err(fault(FormatError::UnsupportedEndianness { flag: data[pos + 6] }, pos + 6))
    } else {
        Ok(
            (
                XsmHeaderView {
                    magic: xsm_magic(),
                    major_version: data[pos + 4],
                    minor_version: data[pos + 5],
                    big_endian: false,
                },
                pos + 8,
            ),
        )
    }
}

/// Reads the header of an animation file, and refuses a file that does not
/// open with "XSM " and one that is not little-endian. Any revision is
/// taken.
pub fn read_header(file: &mut Reader) -> (res: Result<XsmHeader, ParseError>)
    requires
        old(file).wf(),
    ensures
        final(file).follows(old(file)),
        decoded(res, final(file).cursor(), spec_header(old(file).bytes(), old(file).cursor())),
{
    let at = file.position();
    let found = file.read_u32()?;
    if found != XSM_MAGIC {
        return Err(ParseError::at(FormatError::BadMagic { found }, at));
    }
    file.need(4)?;
    let major_version = file.read_u8()?;
    let minor_version = file.read_u8()?;
    let flag_at = file.position();
    let flag = file.read_u8()?;
    file.skip(1)?;
    if flag != 0 {
        return Err(ParseError::at(FormatError::UnsupportedEndianness { flag }, flag_at));
    }
    let magic = String::from_str("XSM ");
    proof {
        reveal_strlit("XSM ");
        assert(magic@ =~= xsm_magic());
    }
    Ok(XsmHeader { magic, major_version, minor_version, big_endian: false })
}

/// The metadata at `pos`: an unused number, the maximum acceptable error, the
/// frame rate, the exporter's major and minor version, two bytes of padding,
/// then four strings: the source application, the name of the source file,
/// the export date and the motion's name.
pub open spec fn spec_metadata(data: Seq<u8>, pos: int) -> Result<
    (XsmMetadataView, int),
    ParseError,
> {
    if pos + 16 > data.len() {
        Err(truncated(pos, 16, data.len() as int))
    } else {
        match spec_string(data, pos + 16) {
            Err(e) => Err(e),
            Ok((source_app, p1)) => match spec_string(data, p1) {
                Err(e) => Err(e),
                Ok((original_filename, p2)) => match spec_string(data, p2) {
                    Err(e) => Err(e),
                    Ok((export_date, p3)) => match spec_string(data, p3) {
                        Err(e) => Err(e),
                        Ok((motion_name, end)) => Ok(
                            (
                                XsmMetadataView {
                                    unused: float_at(data, pos),
                                    max_acceptable_error: float_at(data, pos + 4),
                                    fps: le_i32(data, pos + 8) as i32,
                                    exporter_major_version: data[pos + 12],
                                    exporter_minor_version: data[pos + 13],
                                    source_app,
                                    original_filename,
                                    export_date,
                                    motion_name,
                                },
                                end,
                            ),
                        ),
                    },
                },
            },
        }
    }
}

/// Reads the export metadata of a motion.
pub fn read_metadata(file: &mut Reader) -> (res: Result<XsmMetadata, ParseError>)
    requires
        old(file).wf(),
    ensures
        final(file).follows(old(file)),
        decoded(res, final(file).cursor(), spec_metadata(old(file).bytes(), old(file).cursor())),
{
    file.need(16)?;
    let unused = file.read_float()?;
    let max_acceptable_error = file.read_float()?;
    let fps = file.read_i32()?;
    let exporter_major_version = file.read_u8()?;
    let exporter_minor_version = file.read_u8()?;
    file.skip(2)?;
    let source_app = xsm_read_string(file)?;
    let original_filename = xsm_read_string(file)?;
    let export_date = xsm_read_string(file)?;
    let motion_name = xsm_read_string(file)?;
    Ok(
        XsmMetadata {
            unused,
            max_acceptable_error,
            fps,
            exporter_major_version,
            exporter_minor_version,
            source_app,
            original_filename,
            export_date,
            motion_name,
        },
    )
}

/// The position key at `pos`: the value, then its time.
pub open spec fn pos_key_at(data: Seq<u8>, pos: int) -> XsmPosKey {
    XsmPosKey { pos: vec3d_at(data, pos), time: float_at(data, pos + 12) }
}

/// The `n` position keys laid out back to back from `data[pos]` on.
pub open spec fn pos_key_list_at(data: Seq<u8>, pos: int, n: int) -> Seq<XsmPosKey> {
    Seq::new(n as nat, |i: int| pos_key_at(data, pos + 16 * i))
}

/// Reads one position key.
pub fn read_pos_key(file: &mut Reader) -> (res: Result<XsmPosKey, ParseError>)
    requires
        old(file).wf(),
    ensures
        final(file).follows(old(file)),
        decoded(
            res,
            final(file).cursor(),
            fixed(
                old(file).bytes(),
                old(file).cursor(),
                16,
                pos_key_at(old(file).bytes(), old(file).cursor()),
            ),
        ),
{
    file.need(16)?;
    let pos = xsm_read_vec3d(file)?;
    let time = file.read_float()?;
    Ok(XsmPosKey { pos, time })
}

/// Reads `count` position keys laid out back to back, in file order; a negative
/// count reads none. Fails before reading any if the stream does not hold
/// them all.
pub fn read_pos_key_list(file: &mut Reader, count: i32) -> (res: Result<Vec<XsmPosKey>, ParseError>)
    requires
        old(file).wf(),
    ensures
        final(file).follows(old(file)),
        decoded(
            res,
            final(file).cursor(),
            fixed(
                old(file).bytes(),
                old(file).cursor(),
                16 * entries(count as int),
                pos_key_list_at(old(file).bytes(), old(file).cursor(), entries(count as int)),
            ),
        ),
{
    let n: usize = if count < 0 {
        0
    } else {
        count as usize
    };
    file.need(16 * (n as u64))?;
    let ghost data = file.bytes();
    let ghost pos = file.cursor();
    let mut out: Vec<XsmPosKey> = Vec::new();
    let mut i: usize = 0;
    while i < n
        invariant
            i <= n,
            file.wf(),
            file.bytes() == data,
            file.cursor() == pos + 16 * i,
            pos + 16 * n <= data.len(),
            out@ == pos_key_list_at(data, pos, i as int),
        decreases n - i,
    {
        let v = read_pos_key(file)?;
        out.push(v);
        i = i + 1;
        assert(out@ =~= pos_key_list_at(data, pos, i as int));
    }
    Ok(out)
}

/// The rotation key at `pos`: the value, then its time.
pub open spec fn rot_key_at(data: Seq<u8>, pos: int) -> XsmRotKey {
    XsmRotKey { rot: quaternion16_at(data, pos), time: float_at(data, pos + 8) }
}

/// The `n` rotation keys laid out back to back from `data[pos]` on.
pub open spec fn rot_key_list_at(data: Seq<u8>, pos: int, n: int) -> Seq<XsmRotKey> {
    Seq::new(n as nat, |i: int| rot_key_at(data, pos + 12 * i))
}

/// Reads one rotation key.
pub fn read_rot_key(file: &mut Reader) -> (res: Result<XsmRotKey, ParseError>)
    requires
        old(file).wf(),
    ensures
        final(file).follows(old(file)),
        decoded(
            res,
            final(file).cursor(),
            fixed(
                old(file).bytes(),
                old(file).cursor(),
                12,
                rot_key_at(old(file).bytes(), old(file).cursor()),
            ),
        ),
{
    file.need(12)?;
    let rot = xsm_read_quaternion16(file)?;
    let time = file.read_float()?;
    Ok(XsmRotKey { rot, time })
}

/// Reads `count` rotation keys laid out back to back, in file order; a negative
/// count reads none. Fails before reading any if the stream does not hold
/// them all.
pub fn read_rot_key_list(file: &mut Reader, count: i32) -> (res: Result<Vec<XsmRotKey>, ParseError>)
    requires
        old(file).wf(),
    ensures
        final(file).follows(old(file)),
        decoded(
            res,
            final(file).cursor(),
            fixed(
                old(file).bytes(),
                old(file).cursor(),
                12 * entries(count as int),
                rot_key_list_at(old(file).bytes(), old(file).cursor(), entries(count as int)),
            ),
        ),
{
    let n: usize = if count < 0 {
        0
    } else {
        count as usize
    };
    file.need(12 * (n as u64))?;
    let ghost data = file.bytes();
    let ghost pos = file.cursor();
    let mut out: Vec<XsmRotKey> = Vec::new();
    let mut i: usize = 0;
    while i < n
        invariant
            i <= n,
            file.wf(),
            file.bytes() == data,
            file.cursor() == pos + 12 * i,
            pos + 12 * n <= data.len(),
            out@ == rot_key_list_at(data, pos, i as int),
        decreases n - i,
    {
        let v = read_rot_key(file)?;
        out.push(v);
        i = i + 1;
        assert(out@ =~= rot_key_list_at(data, pos, i as int));
    }
    Ok(out)
}

/// The scale key at `pos`: the value, then its time.
pub open spec fn scale_key_at(data: Seq<u8>, pos: int) -> XsmScaleKey {
    XsmScaleKey { scale: vec3d_at(data, pos), time: float_at(data, pos + 12) }
}

/// The `n` scale keys laid out back to back from `data[pos]` on.
pub open spec fn scale_key_list_at(data: Seq<u8>, pos: int, n: int) -> Seq<XsmScaleKey> {
    Seq::new(n as nat, |i: int| scale_key_at(data, pos + 16 * i))
}

/// Reads one scale key.
pub fn read_scale_key(file: &mut Reader) -> (res: Result<XsmScaleKey, ParseError>)
    requires
        old(file).wf(),
    ensures
        final(file).follows(old(file)),
        decoded(
            res,
            final(file).cursor(),
            fixed(
                old(file).bytes(),
                old(file).cursor(),
                16,
                scale_key_at(old(file).bytes(), old(file).cursor()),
            ),
        ),
{
    file.need(16)?;
    let scale = xsm_read_vec3d(file)?;
    let time = file.read_float()?;
    Ok(XsmScaleKey { scale, time })
}

/// Reads `count` scale keys laid out back to back, in file order; a negative
/// count reads none. Fails before reading any if the stream does not hold
/// them all.
pub fn read_scale_key_list(file: &mut Reader, count: i32) -> (res: Result<
    Vec<XsmScaleKey>,
    ParseError,
>)
    requires
        old(file).wf(),
    ensures
        final(file).follows(old(file)),
        decoded(
            res,
            final(file).cursor(),
            fixed(
                old(file).bytes(),
                old(file).cursor(),
                16 * entries(count as int),
                scale_key_list_at(old(file).bytes(), old(file).cursor(), entries(count as int)),
            ),
        ),
{
    let n: usize = if count < 0 {
        0
    } else {
        count as usize
    };
    file.need(16 * (n as u64))?;
    let ghost data = file.bytes();
    let ghost pos = file.cursor();
    let mut out: Vec<XsmScaleKey> = Vec::new();
    let mut i: usize = 0;
    while i < n
        invariant
            i <= n,
            file.wf(),
            file.bytes() == data,
            file.cursor() == pos + 16 * i,
            pos + 16 * n <= data.len(),
            out@ == scale_key_list_at(data, pos, i as int),
        decreases n - i,
    {
        let v = read_scale_key(file)?;
        out.push(v);
        i = i + 1;
        assert(out@ =~= scale_key_list_at(data, pos, i as int));
    }
    Ok(out)
}

/// The scale-rotation key at `pos`: the value, then its time.
pub open spec fn scale_rot_key_at(data: Seq<u8>, pos: int) -> XsmScaleRotKey {
    XsmScaleRotKey { rot: quaternion16_at(data, pos), time: float_at(data, pos + 8) }
}

/// The `n` scale-rotation keys laid out back to back from `data[pos]` on.
pub open spec fn scale_rot_key_list_at(data: Seq<u8>, pos: int, n: int) -> Seq<XsmScaleRotKey> {
    Seq::new(n as nat, |i: int| scale_rot_key_at(data, pos + 12 * i))
}

/// Reads one scale-rotation key.
pub fn read_scale_rot_key(file: &mut Reader) -> (res: Result<XsmScaleRotKey, ParseError>)
    requires
        old(file).wf(),
    ensures
        final(file).follows(old(file)),
        decoded(
            res,
            final(file).cursor(),
            fixed(
                old(file).bytes(),
                old(file).cursor(),
                12,
                scale_rot_key_at(old(file).bytes(), old(file).cursor()),
            ),
        ),
{
    file.need(12)?;
    let rot = xsm_read_quaternion16(file)?;
    let time = file.read_float()?;
    Ok(XsmScaleRotKey { rot, time })
}

/// Reads `count` scale-rotation keys laid out back to back, in file order; a negative
/// count reads none. Fails before reading any if the stream does not hold
/// them all.
pub fn read_scale_rot_key_list(file: &mut Reader, count: i32) -> (res: Result<
    Vec<XsmScaleRotKey>,
    ParseError,
>)
    requires
        old(file).wf(),
    ensures
        final(file).follows(old(file)),
        decoded(
            res,
            final(file).cursor(),
            fixed(
                old(file).bytes(),
                old(file).cursor(),
                12 * entries(count as int),
                scale_rot_key_list_at(old(file).bytes(), old(file).cursor(), entries(count as int)),
            ),
        ),
{
    let n: usize = if count < 0 {
        0
    } else {
        count as usize
    };
    file.need(12 * (n as u64))?;
    let ghost data = file.bytes();
    let ghost pos = file.cursor();
    let mut out: Vec<XsmScaleRotKey> = Vec::new();
    let mut i: usize = 0;
    while i < n
        invariant
            i <= n,
            file.wf(),
            file.bytes() == data,
            file.cursor() == pos + 12 * i,
            pos + 12 * n <= data.len(),
            out@ == scale_rot_key_list_at(data, pos, i as int),
        decreases n - i,
    {
        let v = read_scale_rot_key(file)?;
        out.push(v);
        i = i + 1;
        assert(out@ =~= scale_rot_key_list_at(data, pos, i as int));
    }
    Ok(out)
}

/// The submotion at `pos`: four compressed quaternions (pose rotation,
/// bind-pose rotation, pose scale rotation, bind-pose scale rotation), four
/// triples (pose position, pose scale, bind-pose position, bind-pose scale),
/// the four key counts, the maximum error and the node's name; then the
/// position, rotation, scale and scale-rotation keys, as many of each as
/// counted.
pub open spec fn spec_submotion(data: Seq<u8>, pos: int) -> Result<
    (XsmSubMotionView, int),
    ParseError,
> {
    if pos + 100 > data.len() {
        Err(truncated(pos, 100, data.len() as int))
    } else {
        let num_pos_keys = le_i32(data, pos + 80) as i32;
        let num_rot_keys = le_i32(data, pos + 84) as i32;
        let num_scale_keys = le_i32(data, pos + 88) as i32;
        let num_scale_rot_keys = le_i32(data, pos + 92) as i32;
        match spec_string(data, pos + 100) {
            Err(e) => Err(e),
            Ok((node_name, p0)) => {
                let p1 = p0 + 16 * entries(num_pos_keys as int);
                let p2 = p1 + 12 * entries(num_rot_keys as int);
                let p3 = p2 + 16 * entries(num_scale_keys as int);
                let p4 = p3 + 12 * entries(num_scale_rot_keys as int);
                if p1 > data.len() {
                    Err(truncated(p0, 16 * entries(num_pos_keys as int), data.len() as int))
                } else if p2 > data.len() {
                    Err(truncated(p1, 12 * entries(num_rot_keys as int), data.len() as int))
                } else if p3 > data.len() {
                    Err(truncated(p2, 16 * entries(num_scale_keys as int), data.len() as int))
                } else if p4 > data.len() {
                    Err(truncated(p3, 12 * entries(num_scale_rot_keys as int), data.len() as int))
                } else {
                    Ok(
                        (
                            XsmSubMotionView {
                                pose_rot: quaternion16_at(data, pos),
                                bind_pose_rot: quaternion16_at(data, pos + 8),
                                pose_scale_rot: quaternion16_at(data, pos + 16),
                                bind_pose_scale_rot: quaternion16_at(data, pos + 24),
                                pose_pos: vec3d_at(data, pos + 32),
                                pose_scale: vec3d_at(data, pos + 44),
                                bind_pose_pos: vec3d_at(data, pos + 56),
                                bind_pose_scale_pos: vec3d_at(data, pos + 68),
                                num_pos_keys,
                                num_rot_keys,
                                num_scale_keys,
                                num_scale_rot_keys,
                                max_error: float_at(data, pos + 96),
                                node_name,
                                pos_key: pos_key_list_at(data, p0, entries(num_pos_keys as int)),
                                rot_key: rot_key_list_at(data, p1, entries(num_rot_keys as int)),
                                scale_key: scale_key_list_at(
                                    data,
                                    p2,
                                    entries(num_scale_keys as int),
                                ),
                                scale_rot_key: scale_rot_key_list_at(
                                    data,
                                    p3,
                                    entries(num_scale_rot_keys as int),
                                ),
                            },
                            p4,
                        ),
                    )
                }
            },
        }
    }
}

/// [`spec_submotion`] as a function value.
pub open spec fn submotion_item() -> spec_fn(Seq<u8>, int) -> Result<
    (XsmSubMotionView, int),
    ParseError,
> {
    |data: Seq<u8>, pos: int| spec_submotion(data, pos)
}

/// Each of the four key lists has as many entries as its count says, none
/// for a negative count.
pub open spec fn keys_counted(m: XsmSubMotionView) -> bool {
    &&& m.pos_key.len() == entries(m.num_pos_keys as int)
    &&& m.rot_key.len() == entries(m.num_rot_keys as int)
    &&& m.scale_key.len() == entries(m.num_scale_keys as int)
    &&& m.scale_rot_key.len() == entries(m.num_scale_rot_keys as int)
}

/// Reads the keyframe tracks of one bone. Each of the four key lists has as
/// many entries as its count says, in file order, whatever their times.
pub fn read_submotion(file: &mut Reader) -> (res: Result<XsmSubMotion, ParseError>)
    requires
        old(file).wf(),
    ensures
        final(file).follows(old(file)),
        decoded(res, final(file).cursor(), spec_submotion(old(file).bytes(), old(file).cursor())),
        res matches Ok(m) ==> keys_counted(m@),
{
    file.need(100)?;
    let pose_rot = xsm_read_quaternion16(file)?;
    let bind_pose_rot = xsm_read_quaternion16(file)?;
    let pose_scale_rot = xsm_read_quaternion16(file)?;
    let bind_pose_scale_rot = xsm_read_quaternion16(file)?;
    let pose_pos = xsm_read_vec3d(file)?;
    let pose_scale = xsm_read_vec3d(file)?;
    let bind_pose_pos = xsm_read_vec3d(file)?;
    let bind_pose_scale_pos = xsm_read_vec3d(file)?;
    let num_pos_keys = file.read_i32()?;
    let num_rot_keys = file.read_i32()?;
    let num_scale_keys = file.read_i32()?;
    let num_scale_rot_keys = file.read_i32()?;
    let max_error = file.read_float()?;
    let node_name = xsm_read_string(file)?;
    let pos_key = read_pos_key_list(file, num_pos_keys)?;
    let rot_key = read_rot_key_list(file, num_rot_keys)?;
    let scale_key = read_scale_key_list(file, num_scale_keys)?;
    let scale_rot_key = read_scale_rot_key_list(file, num_scale_rot_keys)?;
    Ok(
        XsmSubMotion {
            pose_rot,
            bind_pose_rot,
            pose_scale_rot,
            bind_pose_scale_rot,
            pose_pos,
            pose_scale,
            bind_pose_pos,
            bind_pose_scale_pos,
            num_pos_keys,
            num_rot_keys,
            num_scale_keys,
            num_scale_rot_keys,
            max_error,
            node_name,
            pos_key,
            rot_key,
            scale_key,
            scale_rot_key,
        },
    )
}

/// Reads `count` submotions, laid out back to back; a negative count reads none.
pub fn read_submotions(file: &mut Reader, count: i32) -> (res: Result<
    Vec<XsmSubMotion>,
    ParseError,
>)
    requires
        old(file).wf(),
    ensures
        final(file).follows(old(file)),
        decoded_list(
            res,
            final(file).cursor(),
            spec_repeat(
                submotion_item(),
                old(file).bytes(),
                old(file).cursor(),
                entries(count as int) as nat,
            ),
        ),
{
    let ghost data = file.bytes();
    let ghost start = file.cursor();
    let mut out: Vec<XsmSubMotion> = Vec::new();
    let mut i: i32 = 0;
    proof {
        assert(views(out@) =~= Seq::empty());
    }
    while i < count
        invariant
            0 <= i,
            i <= entries(count as int),
            file.wf(),
            file.bytes() == data,
            data == old(file).bytes(),
            start == old(file).cursor(),
            out@.len() == i,
            spec_repeat(submotion_item(), data, start, i as nat) == Ok::<
                (Seq<XsmSubMotionView>, int),
                ParseError,
            >((views(out@), file.cursor())),
        decreases count - i,
    {
        match read_submotion(file) {
            Err(e) => {
                proof {
                    lemma_repeat_error_stays(
                        submotion_item(),
                        data,
                        start,
                        (i + 1) as nat,
                        entries(count as int) as nat,
                    );
                }
                return Err(e);
            },
            Ok(v) => {
                proof {
                    lemma_views_push(out@, v);
                }
                out.push(v);
                i = i + 1;
            },
        }
    }
    Ok(out)
}

/// The bone animation at `pos`: the submotion count, then that many
/// submotions.
pub open spec fn spec_bone_animation(data: Seq<u8>, pos: int) -> Result<
    (XsmBoneAnimationView, int),
    ParseError,
> {
    if pos + 4 > data.len() {
        Err(truncated(pos, 4, data.len() as int))
    } else {
        let num_submotion = le_i32(data, pos) as i32;
        match spec_repeat(submotion_item(), data, pos + 4, entries(num_submotion as int) as nat) {
            Err(e) => Err(e),
            Ok((skeletal_submotion, end)) => Ok(
                (XsmBoneAnimationView { num_submotion, skeletal_submotion }, end),
            ),
        }
    }
}

/// Reads a bone animation: the submotions of all bones, in file order, as
/// many as it declares.
pub fn read_bone_animation(file: &mut Reader) -> (res: Result<XsmBoneAnimation, ParseError>)
    requires
        old(file).wf(),
    ensures
        final(file).follows(old(file)),
        decoded(
            res,
            final(file).cursor(),
            spec_bone_animation(old(file).bytes(), old(file).cursor()),
        ),
        res matches Ok(a) ==> a@.skeletal_submotion.len() == entries(a.num_submotion as int),
{
    proof {
        if old(file).cursor() + 4 <= old(file).bytes().len() {
            let n = entries(le_i32(old(file).bytes(), old(file).cursor()));
            if spec_repeat(submotion_item(), old(file).bytes(), old(file).cursor() + 4, n as nat)
                is Ok {
                lemma_repeat_len(
                    submotion_item(),
                    old(file).bytes(),
                    old(file).cursor() + 4,
                    n as nat,
                );
            }
        }
    }
    let num_submotion = file.read_i32()?;
    let skeletal_submotion = read_submotions(file, num_submotion)?;
    Ok(XsmBoneAnimation { num_submotion, skeletal_submotion })
}

/// The chunk descriptor at `pos`: type tag, declared length of the body,
/// format version.
pub open spec fn chunk_at(data: Seq<u8>, pos: int) -> XsmChunk {
    XsmChunk {
        chunk_type: le_i32(data, pos) as i32,
        length: le_i32(data, pos + 4) as i32,
        version: le_i32(data, pos + 8) as i32,
    }
}

/// Reads a chunk descriptor of twelve bytes.
pub fn read_chunk_descriptor(file: &mut Reader) -> (res: Result<XsmChunk, ParseError>)
    requires
        old(file).wf(),
    ensures
        final(file).follows(old(file)),
        decoded(
            res,
            final(file).cursor(),
            fixed(
                old(file).bytes(),
                old(file).cursor(),
                12,
                chunk_at(old(file).bytes(), old(file).cursor()),
            ),
        ),
{
    file.need(12)?;
    let chunk_type = file.read_i32()?;
    let length = file.read_i32()?;
    let version = file.read_i32()?;
    Ok(XsmChunk { chunk_type, length, version })
}

/// The document `doc` after the body at `body` of a chunk with type tag
/// `tag` was decoded into it. Metadata and bone animation take the place of
/// what the document held; a chunk of any other type leaves the document as
/// it is.
pub open spec fn spec_chunk_body(data: Seq<u8>, body: int, tag: i32, doc: XsmView) -> Result<
    XsmView,
    ParseError,
> {
    match XsmChunkType::of_tag(tag) {
        Some(XsmChunkType::XsmMetadataId) => match spec_metadata(data, body) {
            Err(e) => Err(e),
            Ok((metadata, _)) => Ok(XsmView { metadata, ..doc }),
        },
        Some(XsmChunkType::XsmBoneAnimationId) => match spec_bone_animation(data, body) {
            Err(e) => Err(e),
            Ok((bone_animation, _)) => Ok(XsmView { bone_animation, ..doc }),
        },
        None => Ok(doc),
    }
}

/// The error for the chunk at `pos` whose descriptor declares a length that
/// is negative or reaches past the end of the stream.
pub open spec fn bad_chunk_length(data: Seq<u8>, pos: int) -> ParseError {
    ParseError {
        kind: FormatError::InvalidChunkLength {
            length: chunk_at(data, pos).length,
            available: (data.len() - (pos + 12)) as u64,
        },
        offset: pos as usize,
        chunk_type: Some(chunk_at(data, pos).chunk_type),
    }
}

/// The document `doc` after the chunk at `pos`, and where the next chunk
/// starts: behind the descriptor by the declared length, whatever the
/// decoder of the body took. A failure in the body is attributed to the
/// chunk; a body that decodes in a chunk whose declared length is negative or
/// reaches past the end of the stream fails the chunk.
#[verifier::opaque]
pub open spec fn spec_chunk(data: Seq<u8>, pos: int, doc: XsmView) -> Result<
    (XsmView, int),
    ParseError,
> {
    if pos + 12 > data.len() {
        Err(truncated(pos, 12, data.len() as int))
    } else {
        let chunk = chunk_at(data, pos);
        match spec_chunk_body(data, pos + 12, chunk.chunk_type, doc) {
            Err(e) => Err(in_chunk(e, chunk.chunk_type)),
            Ok(after) => if chunk.length < 0 || pos + 12 + chunk.length > data.len() {
                Err(bad_chunk_length(data, pos))
            } else {
                Ok((after, pos + 12 + chunk.length))
            },
        }
    }
}

/// Where the next chunk starts does not depend on what the chunk holds: a
/// chunk at `pos` that decodes is followed by one at `pos + 12` plus its
/// declared length, which is not negative and keeps within the stream.
pub proof fn lemma_next_chunk_position(data: Seq<u8>, pos: int, doc: XsmView)
    ensures
        spec_chunk(data, pos, doc) matches Ok((_, next)) ==> next == pos + 12 + chunk_at(
            data,
            pos,
        ).length && chunk_at(data, pos).length >= 0 && next <= data.len(),
{
    reveal(spec_chunk);
}

/// A chunk of a type that is not recognized leaves the document as it is.
pub proof fn lemma_unrecognized_chunk_changes_nothing(data: Seq<u8>, pos: int, doc: XsmView)
    requires
        pos + 12 <= data.len(),
        XsmChunkType::of_tag(chunk_at(data, pos).chunk_type) is None,
    ensures
        spec_chunk(data, pos, doc) matches Ok((after, _)) ==> after == doc,
{
    reveal(spec_chunk);
}

/// The document `doc` after all the chunks from `pos` to the end of the
/// stream.
pub open spec fn spec_chunks(data: Seq<u8>, pos: int, doc: XsmView) -> Result<XsmView, ParseError>
    decreases data.len() - pos,
{
    if pos >= data.len() {
        Ok(doc)
    } else {
        match spec_chunk(data, pos, doc) {
            Err(e) => Err(e),
            Ok((after, next)) => if pos < next <= data.len() {
                spec_chunks(data, next, after)
            } else {
                Ok(after)
            },
        }
    }
}

/// The document that the animation file `data` holds.
pub open spec fn spec_xsm(data: Seq<u8>) -> Result<XsmView, ParseError> {
    match spec_header(data, 0) {
        Err(e) => Err(e),
        Ok((header, pos)) => spec_chunks(data, pos, XsmView { header, ..XsmView::empty() }),
    }
}

/// Reads the chunk at the cursor into the document: its descriptor, then its
/// body if the type is a recognized one, and moves the cursor to where the
/// descriptor says the chunk ends. So the next descriptor is read at the
/// position behind this one plus the declared length, whether the body was
/// decoded or not and however many bytes its decoder took.
pub fn read_next_chunk(file: &mut Reader, xsm: Xsm) -> (res: Result<Xsm, ParseError>)
    requires
        old(file).wf(),
    ensures
        final(file).follows(old(file)),
        decoded(
            res,
            final(file).cursor(),
            spec_chunk(old(file).bytes(), old(file).cursor(), xsm@),
        ),
        res is Ok ==> final(file).cursor() == old(file).cursor() + 12 + le_i32(
            old(file).bytes(),
            old(file).cursor() + 4,
        ),
        res is Ok ==> le_i32(old(file).bytes(), old(file).cursor() + 4) >= 0,
{
    reveal(spec_chunk);
    let at = file.position();
    let chunk = read_chunk_descriptor(file)?;
    let body = file.position();
    let tag = chunk.chunk_type;
    let mut xsm = xsm;
    match XsmChunkType::from_tag(tag) {
        Some(XsmChunkType::XsmMetadataId) => {
            match read_metadata(file) {
                Err(e) => {
                    return Err(e.within_chunk(tag));
                },
                Ok(metadata) => {
                    xsm.metadata = metadata;
                },
            }
        },
        Some(XsmChunkType::XsmBoneAnimationId) => {
            match read_bone_animation(file) {
                Err(e) => {
                    return Err(e.within_chunk(tag));
                },
                Ok(animation) => {
                    xsm.bone_animation = animation;
                },
            }
        },
        None => {},
    }
    let room = file.len() - body;
    if chunk.length < 0 || chunk.length as u64 > room as u64 {
        return Err(
            ParseError {
                kind: FormatError::InvalidChunkLength {
                    length: chunk.length,
                    available: room as u64,
                },
                offset: at,
                chunk_type: Some(tag),
            },
        );
    }
    file.seek(body + chunk.length as usize);
    Ok(xsm)
}

/// Reads chunk after chunk into the document until the cursor stands at the
/// end of the stream.
pub fn read_chunk(file: &mut Reader, xsm: Xsm) -> (res: Result<Xsm, ParseError>)
    requires
        old(file).wf(),
    ensures
        final(file).follows(old(file)),
        match spec_chunks(old(file).bytes(), old(file).cursor(), xsm@) {
            Ok(doc) => res matches Ok(x) && x@ == doc
                && final(file).cursor() >= final(file).bytes().len(),
            Err(e) => res matches Err(x) && x == e,
        },
{
    let ghost data = file.bytes();
    let ghost whole = spec_chunks(file.bytes(), file.cursor(), xsm@);
    let mut doc = xsm;
    loop
        invariant
            file.wf(),
            file.bytes() == data,
            data == old(file).bytes(),
            spec_chunks(data, file.cursor(), doc@) == whole,
            whole == spec_chunks(old(file).bytes(), old(file).cursor(), xsm@),
        decreases data.len() - file.cursor(),
    {
        if file.at_end() {
            return Ok(doc);
        }
        match read_next_chunk(file, doc) {
            Err(e) => {
                return Err(e);
            },
            Ok(after) => {
                doc = after;
            },
        }
    }
}

/// Decodes an animation file: the header, then every chunk to the end of the
/// stream. Any violation of the format fails the whole decoding; no partial
/// document is returned.
pub fn xsmparse(data: &[u8]) -> (res: Result<Xsm, ParseError>)
    ensures
        match spec_xsm(data@) {
            Ok(doc) => res matches Ok(x) && x@ == doc,
            Err(e) => res matches Err(x) && x == e,
        },
{
    let mut file = Reader::new(data);
    let header = read_header(&mut file)?;
    let mut xsm = Xsm::empty();
    xsm.header = header;
    read_chunk(&mut file, xsm)
}

} // verus!
