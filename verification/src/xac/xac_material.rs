//! The material chunks: a material definition with its texture layers, and a
//! shader material with its four lists of named properties.

use crate::bytes::{le_i16, le_i32};
use crate::error::{truncated, ParseError};
use crate::model::{lemma_views_push, views};
use crate::reader::{
    decoded, decoded_list, entries, float_at, lemma_repeat_error_stays, lemma_repeat_len,
    spec_repeat, spec_string, Reader,
};
use crate::xac::xac_parser::{vec4d_at, xac_read_string, xac_read_vec4d};
use crate::xac::xac_structs::{
    XacActorMaterial, XacActorMaterialLayer, XacActorMaterialLayerView, XacActorMaterialView,
    XacBoolProperties, XacBoolPropertiesView, XacFloatProperties, XacFloatPropertiesView,
    XacIntProperties, XacIntPropertiesView, XacShaderMaterial, XacShaderMaterialView,
    XacStringProperties, XacStringPropertiesView,
};
use vstd::prelude::*;

verus! {

/// The texture layer at `pos`: six numbers (amount, u and v offset, u and v
/// tiling, rotation), a 16-bit material id, the map type, a byte of padding,
/// then the texture path.
pub open spec fn spec_material_layer(data: Seq<u8>, pos: int) -> Result<
    (XacActorMaterialLayerView, int),
    ParseError,
> {
    if pos + 28 > data.len() {
        Err(truncated(pos, 28, data.len() as int))
    } else {
        match spec_string(data, pos + 28) {
            Err(e) => Err(e),
            Ok((texture, end)) => Ok(
                (
                    XacActorMaterialLayerView {
                        amount: float_at(data, pos),
                        u_offset: float_at(data, pos + 4),
                        v_offset: float_at(data, pos + 8),
                        u_tiling: float_at(data, pos + 12),
                        v_tiling: float_at(data, pos + 16),
                        rotation_in_radian: float_at(data, pos + 20),
                        material_id: le_i16(data, pos + 24) as i16,
                        map_type: data[pos + 26],
                        texture,
                    },
                    end,
                ),
            ),
        }
    }
}

/// [`spec_material_layer`] as a function value.
pub open spec fn material_layer_item() -> spec_fn(Seq<u8>, int) -> Result<
    (XacActorMaterialLayerView, int),
    ParseError,
> {
    |data: Seq<u8>, pos: int| spec_material_layer(data, pos)
}

/// Reads one texture layer of a material.
pub fn read_material_layer(file: &mut Reader) -> (res: Result<XacActorMaterialLayer, ParseError>)
    requires
        old(file).wf(),
    ensures
        final(file).follows(old(file)),
        decoded(
            res,
            final(file).cursor(),
            spec_material_layer(old(file).bytes(), old(file).cursor()),
        ),
{
    file.need(28)?;
    let amount = file.read_float()?;
    let u_offset = file.read_float()?;
    let v_offset = file.read_float()?;
    let u_tiling = file.read_float()?;
    let v_tiling = file.read_float()?;
    let rotation_in_radian = file.read_float()?;
    let material_id = file.read_i16()?;
    let map_type = file.read_u8()?;
    file.skip(1)?;
    let texture = xac_read_string(file)?;
    Ok(
        XacActorMaterialLayer {
            amount,
            u_offset,
            v_offset,
            u_tiling,
            v_tiling,
            rotation_in_radian,
            material_id,
            map_type,
            texture,
        },
    )
}

/// Reads `count` texture layers, laid out back to back.
pub fn read_material_layers(file: &mut Reader, count: u8) -> (res: Result<
    Vec<XacActorMaterialLayer>,
    ParseError,
>)
    requires
        old(file).wf(),
    ensures
        final(file).follows(old(file)),
        decoded_list(
            res,
            final(file).cursor(),
            spec_repeat(material_layer_item(), old(file).bytes(), old(file).cursor(), count as nat),
        ),
{
    let ghost data = file.bytes();
    let ghost start = file.cursor();
    let mut out: Vec<XacActorMaterialLayer> = Vec::new();
    let mut i: u8 = 0;
    proof {
        assert(views(out@) =~= Seq::empty());
    }
    while i < count
        invariant
            i <= count,
            file.wf(),
            file.bytes() == data,
            data == old(file).bytes(),
            start == old(file).cursor(),
            out@.len() == i,
            spec_repeat(material_layer_item(), data, start, i as nat) == Ok::<
                (Seq<XacActorMaterialLayerView>, int),
                ParseError,
            >((views(out@), file.cursor())),
        decreases count - i,
    {
        match read_material_layer(file) {
            Err(e) => {
                proof {
                    lemma_repeat_error_stays(
                        material_layer_item(),
                        data,
                        start,
                        (i + 1) as nat,
                        count as nat,
                    );
                }
                return Err(e);
            },
            Ok(v) => {
                proof {
                    lemma_views_push(out@, v);
                }
                out.push(v);
                i = i + 1;
            },
        }
    }
    Ok(out)
}

/// The material definition at `pos`: four colours (ambient, diffuse,
/// specular, emissive), four numbers (shine, shine strength, opacity, index
/// of refraction), two flags (double-sided, wireframe), a byte of padding,
/// the layer count, the name, then that many texture layers.
pub open spec fn spec_material(data: Seq<u8>, pos: int) -> Result<
    (XacActorMaterialView, int),
    ParseError,
> {
    if pos + 84 > data.len() {
        Err(truncated(pos, 84, data.len() as int))
    } else {
        let num_layers = data[pos + 83];
        match spec_string(data, pos + 84) {
            Err(e) => Err(e),
            Ok((name, p)) => match spec_repeat(material_layer_item(), data, p, num_layers as nat) {
                Err(e) => Err(e),
                Ok((layers, end)) => Ok(
                    (
                        XacActorMaterialView {
                            ambient_color: vec4d_at(data, pos),
                            diffuse_color: vec4d_at(data, pos + 16),
                            specular_color: vec4d_at(data, pos + 32),
                            emissive_color: vec4d_at(data, pos + 48),
                            shine: float_at(data, pos + 64),
                            shine_strength: float_at(data, pos + 68),
                            opacity: float_at(data, pos + 72),
                            ior: float_at(data, pos + 76),
                            double_sided: data[pos + 80],
                            wireframe: data[pos + 81],
                            num_layers,
                            name,
                            layers,
                        },
                        end,
                    ),
                ),
            },
        }
    }
}

/// A material definition as decoded has as many layers as it declares.
pub proof fn lemma_material_counts(data: Seq<u8>, pos: int)
    ensures
        spec_material(data, pos) matches Ok((m, _)) ==> m.layers.len() == m.num_layers,
{
    if spec_material(data, pos) is Ok {
        let p = spec_string(data, pos + 84)->Ok_0.1;
        lemma_repeat_len(material_layer_item(), data, p, data[pos + 83] as nat);
    }
}

/// Reads a material definition with its texture layers. The list of layers
/// has as many entries as the definition declares.
pub fn read_material_definition(file: &mut Reader) -> (res: Result<XacActorMaterial, ParseError>)
    requires
        old(file).wf(),
    ensures
        final(file).follows(old(file)),
        decoded(res, final(file).cursor(), spec_material(old(file).bytes(), old(file).cursor())),
        res matches Ok(m) ==> m@.layers.len() == m.num_layers,
{
    proof {
        lemma_material_counts(file.bytes(), file.cursor());
    }
    file.need(84)?;
    let ambient_color = xac_read_vec4d(file)?;
    let diffuse_color = xac_read_vec4d(file)?;
    let specular_color = xac_read_vec4d(file)?;
    let emissive_color = xac_read_vec4d(file)?;
    let shine = file.read_float()?;
    let shine_strength = file.read_float()?;
    let opacity = file.read_float()?;
    let ior = file.read_float()?;
    let double_sided = file.read_u8()?;
    let wireframe = file.read_u8()?;
    file.skip(1)?;
    let num_layers = file.read_u8()?;
    let name = xac_read_string(file)?;
    let layers = read_material_layers(file, num_layers)?;
    Ok(
        XacActorMaterial {
            ambient_color,
            diffuse_color,
            specular_color,
            emissive_color,
            shine,
            shine_strength,
            opacity,
            ior,
            double_sided,
            wireframe,
            num_layers,
            name,
            layers,
        },
    )
}

/// The integer property at `pos`: its name, then its value, a 32-bit integer.
pub open spec fn spec_int_property(data: Seq<u8>, pos: int) -> Result<
    (XacIntPropertiesView, int),
    ParseError,
> {
    match spec_string(data, pos) {
        Err(e) => Err(e),
        Ok((name_properties, p)) => if p + 4 > data.len() {
            Err(truncated(p, 4, data.len() as int))
        } else {
            Ok((XacIntPropertiesView { name_properties, value: le_i32(data, p) as i32 }, p + 4))
        },
    }
}

/// [`spec_int_property`] as a function value.
pub open spec fn int_property_item() -> spec_fn(Seq<u8>, int) -> Result<
    (XacIntPropertiesView, int),
    ParseError,
> {
    |data: Seq<u8>, pos: int| spec_int_property(data, pos)
}

/// Reads one integer property of a shader material.
pub fn read_int_property(file: &mut Reader) -> (res: Result<XacIntProperties, ParseError>)
    requires
        old(file).wf(),
    ensures
        final(file).follows(old(file)),
        decoded(
            res,
            final(file).cursor(),
            spec_int_property(old(file).bytes(), old(file).cursor()),
        ),
{
    let name_properties = xac_read_string(file)?;
    let value = file.read_i32()?;
    Ok(XacIntProperties { name_properties, value })
}

/// Reads `count` integer properties, laid out back to back; a negative count reads none.
pub fn read_int_properties(file: &mut Reader, count: i32) -> (res: Result<
    Vec<XacIntProperties>,
    ParseError,
>)
    requires
        old(file).wf(),
    ensures
        final(file).follows(old(file)),
        decoded_list(
            res,
            final(file).cursor(),
            spec_repeat(
                int_property_item(),
                old(file).bytes(),
                old(file).cursor(),
                entries(count as int) as nat,
            ),
        ),
{
    let ghost data = file.bytes();
    let ghost start = file.cursor();
    let mut out: Vec<XacIntProperties> = Vec::new();
    let mut i: i32 = 0;
    proof {
        assert(views(out@) =~= Seq::empty());
    }
    while i < count
        invariant
            0 <= i,
            i <= entries(count as int),
            file.wf(),
            file.bytes() == data,
            data == old(file).bytes(),
            start == old(file).cursor(),
            out@.len() == i,
            spec_repeat(int_property_item(), data, start, i as nat) == Ok::<
                (Seq<XacIntPropertiesView>, int),
                ParseError,
            >((views(out@), file.cursor())),
        decreases count - i,
    {
        match read_int_property(file) {
            Err(e) => {
                proof {
                    lemma_repeat_error_stays(
                        int_property_item(),
                        data,
                        start,
                        (i + 1) as nat,
                        entries(count as int) as nat,
                    );
                }
                return Err(e);
            },
            Ok(v) => {
                proof {
                    lemma_views_push(out@, v);
                }
                out.push(v);
                i = i + 1;
            },
        }
    }
    Ok(out)
}

/// The single-precision property at `pos`: its name, then its value, a single-precision number.
pub open spec fn spec_float_property(data: Seq<u8>, pos: int) -> Result<
    (XacFloatPropertiesView, int),
    ParseError,
> {
    match spec_string(data, pos) {
        Err(e) => Err(e),
        Ok((name_properties, p)) => if p + 4 > data.len() {
            Err(truncated(p, 4, data.len() as int))
        } else {
            Ok((XacFloatPropertiesView { name_properties, value: float_at(data, p) }, p + 4))
        },
    }
}

/// [`spec_float_property`] as a function value.
pub open spec fn float_property_item() -> spec_fn(Seq<u8>, int) -> Result<
    (XacFloatPropertiesView, int),
    ParseError,
> {
    |data: Seq<u8>, pos: int| spec_float_property(data, pos)
}

/// Reads one single-precision property of a shader material.
pub fn read_float_property(file: &mut Reader) -> (res: Result<XacFloatProperties, ParseError>)
    requires
        old(file).wf(),
    ensures
        final(file).follows(old(file)),
        decoded(
            res,
            final(file).cursor(),
            spec_float_property(old(file).bytes(), old(file).cursor()),
        ),
{
    let name_properties = xac_read_string(file)?;
    let value = file.read_float()?;
    Ok(XacFloatProperties { name_properties, value })
}

/// Reads `count` single-precision properties, laid out back to back; a negative count reads none.
pub fn read_float_properties(file: &mut Reader, count: i32) -> (res: Result<
    Vec<XacFloatProperties>,
    ParseError,
>)
    requires
        old(file).wf(),
    ensures
        final(file).follows(old(file)),
        decoded_list(
            res,
            final(file).cursor(),
            spec_repeat(
                float_property_item(),
                old(file).bytes(),
                old(file).cursor(),
                entries(count as int) as nat,
            ),
        ),
{
    let ghost data = file.bytes();
    let ghost start = file.cursor();
    let mut out: Vec<XacFloatProperties> = Vec::new();
    let mut i: i32 = 0;
    proof {
        assert(views(out@) =~= Seq::empty());
    }
    while i < count
        invariant
            0 <= i,
            i <= entries(count as int),
            file.wf(),
            file.bytes() == data,
            data == old(file).bytes(),
            start == old(file).cursor(),
            out@.len() == i,
            spec_repeat(float_property_item(), data, start, i as nat) == Ok::<
                (Seq<XacFloatPropertiesView>, int),
                ParseError,
            >((views(out@), file.cursor())),
        decreases count - i,
    {
        match read_float_property(file) {
            Err(e) => {
                proof {
                    lemma_repeat_error_stays(
                        float_property_item(),
                        data,
                        start,
                        (i + 1) as nat,
                        entries(count as int) as nat,
                    );
                }
                return Err(e);
            },
            Ok(v) => {
                proof {
                    lemma_views_push(out@, v);
                }
                out.push(v);
                i = i + 1;
            },
        }
    }
    Ok(out)
}

/// The boolean property at `pos`: its name, then its value, a byte.
pub open spec fn spec_bool_property(data: Seq<u8>, pos: int) -> Result<
    (XacBoolPropertiesView, int),
    ParseError,
> {
    match spec_string(data, pos) {
        Err(e) => Err(e),
        Ok((name_properties, p)) => if p + 1 > data.len() {
            Err(truncated(p, 1, data.len() as int))
        } else {
            Ok((XacBoolPropertiesView { name_properties, value: data[p] }, p + 1))
        },
    }
}

/// [`spec_bool_property`] as a function value.
pub open spec fn bool_property_item() -> spec_fn(Seq<u8>, int) -> Result<
    (XacBoolPropertiesView, int),
    ParseError,
> {
    |data: Seq<u8>, pos: int| spec_bool_property(data, pos)
}

/// Reads one boolean property of a shader material.
pub fn read_bool_property(file: &mut Reader) -> (res: Result<XacBoolProperties, ParseError>)
    requires
        old(file).wf(),
    ensures
        final(file).follows(old(file)),
        decoded(
            res,
            final(file).cursor(),
            spec_bool_property(old(file).bytes(), old(file).cursor()),
        ),
{
    let name_properties = xac_read_string(file)?;
    let value = file.read_u8()?;
    Ok(XacBoolProperties { name_properties, value })
}

/// Reads `count` boolean properties, laid out back to back; a negative count reads none.
pub fn read_bool_properties(file: &mut Reader, count: i32) -> (res: Result<
    Vec<XacBoolProperties>,
    ParseError,
>)
    requires
        old(file).wf(),
    ensures
        final(file).follows(old(file)),
        decoded_list(
            res,
            final(file).cursor(),
            spec_repeat(
                bool_property_item(),
                old(file).bytes(),
                old(file).cursor(),
                entries(count as int) as nat,
            ),
        ),
{
    let ghost data = file.bytes();
    let ghost start = file.cursor();
    let mut out: Vec<XacBoolProperties> = Vec::new();
    let mut i: i32 = 0;
    proof {
        assert(views(out@) =~= Seq::empty());
    }
    while i < count
        invariant
            0 <= i,
            i <= entries(count as int),
            file.wf(),
            file.bytes() == data,
            data == old(file).bytes(),
            start == old(file).cursor(),
            out@.len() == i,
            spec_repeat(bool_property_item(), data, start, i as nat) == Ok::<
                (Seq<XacBoolPropertiesView>, int),
                ParseError,
            >((views(out@), file.cursor())),
        decreases count - i,
    {
        match read_bool_property(file) {
            Err(e) => {
                proof {
                    lemma_repeat_error_stays(
                        bool_property_item(),
                        data,
                        start,
                        (i + 1) as nat,
                        entries(count as int) as nat,
                    );
                }
                return Err(e);
            },
            Ok(v) => {
                proof {
                    lemma_views_push(out@, v);
                }
                out.push(v);
                i = i + 1;
            },
        }
    }
    Ok(out)
}

/// The string property at `pos`: its name, then its value.
pub open spec fn spec_string_property(data: Seq<u8>, pos: int) -> Result<
    (XacStringPropertiesView, int),
    ParseError,
> {
    match spec_string(data, pos) {
        Err(e) => Err(e),
        Ok((name_properties, p)) => match spec_string(data, p) {
            Err(e) => Err(e),
            Ok((value, end)) => Ok((XacStringPropertiesView { name_properties, value }, end)),
        },
    }
}

/// [`spec_string_property`] as a function value.
pub open spec fn string_property_item() -> spec_fn(Seq<u8>, int) -> Result<
    (XacStringPropertiesView, int),
    ParseError,
> {
    |data: Seq<u8>, pos: int| spec_string_property(data, pos)
}

/// Reads one string property of a shader material.
pub fn read_string_property(file: &mut Reader) -> (res: Result<XacStringProperties, ParseError>)
    requires
        old(file).wf(),
    ensures
        final(file).follows(old(file)),
        decoded(
            res,
            final(file).cursor(),
            spec_string_property(old(file).bytes(), old(file).cursor()),
        ),
{
    let name_properties = xac_read_string(file)?;
    let value = xac_read_string(file)?;
    Ok(XacStringProperties { name_properties, value })
}

/// Reads `count` string properties, laid out back to back; a negative count reads none.
pub fn read_string_properties(file: &mut Reader, count: i32) -> (res: Result<
    Vec<XacStringProperties>,
    ParseError,
>)
    requires
        old(file).wf(),
    ensures
        final(file).follows(old(file)),
        decoded_list(
            res,
            final(file).cursor(),
            spec_repeat(
                string_property_item(),
                old(file).bytes(),
                old(file).cursor(),
                entries(count as int) as nat,
            ),
        ),
{
    let ghost data = file.bytes();
    let ghost start = file.cursor();
    let mut out: Vec<XacStringProperties> = Vec::new();
    let mut i: i32 = 0;
    proof {
        assert(views(out@) =~= Seq::empty());
    }
    while i < count
        invariant
            0 <= i,
            i <= entries(count as int),
            file.wf(),
            file.bytes() == data,
            data == old(file).bytes(),
            start == old(file).cursor(),
            out@.len() == i,
            spec_repeat(string_property_item(), data, start, i as nat) == Ok::<
                (Seq<XacStringPropertiesView>, int),
                ParseError,
            >((views(out@), file.cursor())),
        decreases count - i,
    {
        match read_string_property(file) {
            Err(e) => {
                proof {
                    lemma_repeat_error_stays(
                        string_property_item(),
                        data,
                        start,
                        (i + 1) as nat,
                        entries(count as int) as nat,
                    );
                }
                return Err(e);
            },
            Ok(v) => {
                proof {
                    lemma_views_push(out@, v);
                }
                out.push(v);
                i = i + 1;
            },
        }
    }
    Ok(out)
}

/// The reserved region at `pos`: a 32-bit count, then that many bytes, which
/// carry nothing. Gives the position behind it.
pub open spec fn spec_reserved(data: Seq<u8>, pos: int) -> Result<int, ParseError> {
    if pos + 4 > data.len() {
        Err(truncated(pos, 4, data.len() as int))
    } else {
        let n = entries(le_i32(data, pos));
        if pos + 4 + n > data.len() {
            Err(truncated(pos + 4, n, data.len() as int))
        } else {
            Ok(pos + 4 + n)
        }
    }
}

/// The shader material at `pos`: six integers (integer-property count,
/// number-property count, a flag, boolean-property count, a padding slot,
/// string-property count), the material's name and the shader's, the integer,
/// number and boolean properties, a reserved region, then the string
/// properties.
pub open spec fn spec_shader_material(data: Seq<u8>, pos: int) -> Result<
    (XacShaderMaterialView, int),
    ParseError,
> {
    if pos + 24 > data.len() {
        Err(truncated(pos, 24, data.len() as int))
    } else {
        let num_int = le_i32(data, pos) as i32;
        let num_float = le_i32(data, pos + 4) as i32;
        let flag = le_i32(data, pos + 8) as i32;
        let num_bool = le_i32(data, pos + 12) as i32;
        let num_string = le_i32(data, pos + 20) as i32;
        match spec_string(data, pos + 24) {
            Err(e) => Err(e),
            Ok((name_material, p1)) => match spec_string(data, p1) {
                Err(e) => Err(e),
                Ok((name_shader, p2)) => match spec_repeat(
                    int_property_item(),
                    data,
                    p2,
                    entries(num_int as int) as nat,
                ) {
                    Err(e) => Err(e),
                    Ok((int_property, p3)) => match spec_repeat(
                        float_property_item(),
                        data,
                        p3,
                        entries(num_float as int) as nat,
                    ) {
                        Err(e) => Err(e),
                        Ok((float_property, p4)) => match spec_repeat(
                            bool_property_item(),
                            data,
                            p4,
                            entries(num_bool as int) as nat,
                        ) {
                            Err(e) => Err(e),
                            Ok((bool_property, p5)) => match spec_reserved(data, p5) {
                                Err(e) => Err(e),
                                Ok(p6) => match spec_repeat(
                                    string_property_item(),
                                    data,
                                    p6,
                                    entries(num_string as int) as nat,
                                ) {
                                    Err(e) => Err(e),
                                    Ok((string_property, end)) => Ok(
                                        (
                                            XacShaderMaterialView {
                                                num_int,
                                                num_float,
                                                num_bool,
                                                num_string,
                                                flag,
                                                name_material,
                                                name_shader,
                                                int_property,
                                                float_property,
                                                bool_property,
                                                string_property,
                                            },
                                            end,
                                        ),
                                    ),
                                },
                            },
                        },
                    },
                },
            },
        }
    }
}

/// Each of the four property lists has as many entries as its count says,
/// none for a negative count.
pub open spec fn shader_counts_hold(m: XacShaderMaterialView) -> bool {
    &&& m.int_property.len() == entries(m.num_int as int)
    &&& m.float_property.len() == entries(m.num_float as int)
    &&& m.bool_property.len() == entries(m.num_bool as int)
    &&& m.string_property.len() == entries(m.num_string as int)
}

/// A shader material as decoded has property lists of the lengths that it
/// declares.
pub proof fn lemma_shader_counts(data: Seq<u8>, pos: int)
    ensures
        spec_shader_material(data, pos) matches Ok((m, _)) ==> shader_counts_hold(m),
{
    if spec_shader_material(data, pos) is Ok {
        let num_int = le_i32(data, pos) as i32;
        let num_float = le_i32(data, pos + 4) as i32;
        let num_bool = le_i32(data, pos + 12) as i32;
        let num_string = le_i32(data, pos + 20) as i32;
        let p1 = spec_string(data, pos + 24)->Ok_0.1;
        let p2 = spec_string(data, p1)->Ok_0.1;
        let ints = spec_repeat(int_property_item(), data, p2, entries(num_int as int) as nat);
        lemma_repeat_len(int_property_item(), data, p2, entries(num_int as int) as nat);
        let p3 = ints->Ok_0.1;
        let floats = spec_repeat(
            float_property_item(),
            data,
            p3,
            entries(num_float as int) as nat,
        );
        lemma_repeat_len(float_property_item(), data, p3, entries(num_float as int) as nat);
        let p4 = floats->Ok_0.1;
        let bools = spec_repeat(bool_property_item(), data, p4, entries(num_bool as int) as nat);
        lemma_repeat_len(bool_property_item(), data, p4, entries(num_bool as int) as nat);
        let p5 = bools->Ok_0.1;
        let p6 = spec_reserved(data, p5)->Ok_0;
        lemma_repeat_len(string_property_item(), data, p6, entries(num_string as int) as nat);
    }
}

/// Reads a shader material with its four property lists. The bytes of the
/// reserved region between the boolean and the string properties are passed
/// over, however many it declares.
pub fn read_shader_material(file: &mut Reader) -> (res: Result<XacShaderMaterial, ParseError>)
    requires
        old(file).wf(),
    ensures
        final(file).follows(old(file)),
        decoded(
            res,
            final(file).cursor(),
            spec_shader_material(old(file).bytes(), old(file).cursor()),
        ),
        res matches Ok(m) ==> shader_counts_hold(m@),
{
    proof {
        lemma_shader_counts(file.bytes(), file.cursor());
    }
    file.need(24)?;
    let num_int = file.read_i32()?;
    let num_float = file.read_i32()?;
    let flag = file.read_i32()?;
    let num_bool = file.read_i32()?;
    file.skip(4)?;
    let num_string = file.read_i32()?;
    let name_material = xac_read_string(file)?;
    let name_shader = xac_read_string(file)?;
    let int_property = read_int_properties(file, num_int)?;
    let float_property = read_float_properties(file, num_float)?;
    let bool_property = read_bool_properties(file, num_bool)?;
    let reserved = file.read_i32()?;
    if reserved > 0 {
        file.skip(reserved as u64)?;
    }
    let string_property = read_string_properties(file, num_string)?;
    Ok(
        XacShaderMaterial {
            num_int,
            num_float,
            num_bool,
            num_string,
            flag,
            name_material,
            name_shader,
            int_property,
            float_property,
            bool_property,
            string_property,
        },
    )
}

} // verus!
