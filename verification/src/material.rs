//! Material descriptions: the visual parameters a draw call carries and the
//! pending descriptor a material slot is registered with.

use vstd::prelude::*;
use vstd::bytes::spec_u32_to_le_bytes;
use vstd::bytes::u32_to_le_bytes;

verus! {

/// Bit pattern of the component value 1.0.
pub const ONE_BITS: u32 = 0x3F80_0000;

/// Bit pattern of the component value 0.5.
pub const HALF_BITS: u32 = 0x3F00_0000;

/// Visual parameters of a material: four 4-component vectors (a base color,
/// a specular color whose last component is the shininess, and two spare
/// vectors), each component an IEEE-754 single-precision bit pattern.
#[derive(Clone, Copy, Debug)]
pub struct MaterialData {
    pub color: [u32; 4],
    pub specular: [u32; 4],
    pub field3: [u32; 4],
    pub field4: [u32; 4],
}

/// The default specular vector: white at half shininess.
pub open spec fn spec_default_specular() -> [u32; 4] {
    [ONE_BITS, ONE_BITS, ONE_BITS, HALF_BITS]
}

/// The zero vector.
pub open spec fn spec_zero4() -> [u32; 4] {
    [0u32, 0u32, 0u32, 0u32]
}

impl MaterialData {
    /// A plain opaque-white material.
    pub fn new() -> (r: MaterialData)
        ensures
            r.color == [ONE_BITS, ONE_BITS, ONE_BITS, ONE_BITS],
            r.specular == spec_default_specular(),
            r.field3 == spec_zero4(),
            r.field4 == spec_zero4(),
    {
        MaterialData {
            color: [ONE_BITS, ONE_BITS, ONE_BITS, ONE_BITS],
            specular: [ONE_BITS, ONE_BITS, ONE_BITS, HALF_BITS],
            field3: [0u32, 0u32, 0u32, 0u32],
            field4: [0u32, 0u32, 0u32, 0u32],
        }
    }

    /// A material with the given base color and the default remainder.
    pub fn diffuse(color: [u32; 4]) -> (r: MaterialData)
        ensures
            r.color == color,
            r.specular == spec_default_specular(),
            r.field3 == spec_zero4(),
            r.field4 == spec_zero4(),
    {
        MaterialData {
            color,
            specular: [ONE_BITS, ONE_BITS, ONE_BITS, HALF_BITS],
            field3: [0u32, 0u32, 0u32, 0u32],
            field4: [0u32, 0u32, 0u32, 0u32],
        }
    }
}

/// The little-endian bytes of one 4-component vector.
pub open spec fn spec_vec4_bytes(v: [u32; 4]) -> Seq<u8> {
    spec_u32_to_le_bytes(v[0]) + spec_u32_to_le_bytes(v[1]) + spec_u32_to_le_bytes(v[2])
        + spec_u32_to_le_bytes(v[3])
}

/// The 64-byte uniform-buffer image of a material: its four vectors in
/// declaration order, each component in little-endian byte order.
pub open spec fn spec_material_bytes(d: MaterialData) -> Seq<u8> {
    spec_vec4_bytes(d.color) + spec_vec4_bytes(d.specular) + spec_vec4_bytes(d.field3)
        + spec_vec4_bytes(d.field4)
}

/// Append the little-endian bytes of `x` to `out`.
pub fn push_u32_le(out: &mut Vec<u8>, x: u32)
    ensures
        final(out)@ == old(out)@ + spec_u32_to_le_bytes(x),
{
    let mut bytes = u32_to_le_bytes(x);
    out.append(&mut bytes);
}

/// Append the little-endian bytes of a 4-component vector to `out`.
fn push_vec4_le(out: &mut Vec<u8>, v: &[u32; 4])
    ensures
        final(out)@ == old(out)@ + spec_vec4_bytes(*v),
{
    push_u32_le(out, v[0]);
    push_u32_le(out, v[1]);
    push_u32_le(out, v[2]);
    push_u32_le(out, v[3]);
}

impl MaterialData {
    /// The bytes handed to the uniform buffer that carries this material.
    pub fn as_bytes_copy(&self) -> (r: Vec<u8>)
        ensures
            r@ == spec_material_bytes(*self),
    {
        let mut out: Vec<u8> = Vec::new();
        push_vec4_le(&mut out, &self.color);
        push_vec4_le(&mut out, &self.specular);
        push_vec4_le(&mut out, &self.field3);
        push_vec4_le(&mut out, &self.field4);
        assert(out@ =~= spec_material_bytes(*self));
        out
    }
}

/// What a material slot is registered with: the visual parameters, the
/// texture map paths, and an optional fragment-shader path, resolved when
/// the slot is materialized.
#[derive(Debug)]
pub struct MaterialDescriptor {
    pub data: MaterialData,
    pub maps: Vec<String>,
    pub shader: Option<String>,
}

impl MaterialDescriptor {
    /// A descriptor for the plain default material with no maps and no
    /// dedicated shader.
    pub fn new() -> (r: MaterialDescriptor)
        ensures
            r.data.color == [ONE_BITS, ONE_BITS, ONE_BITS, ONE_BITS],
            r.data.specular == spec_default_specular(),
            r.data.field3 == spec_zero4(),
            r.data.field4 == spec_zero4(),
            r.maps@ == Seq::<String>::empty(),
            r.shader is None,
    {
        MaterialDescriptor { data: MaterialData::new(), maps: Vec::new(), shader: None }
    }
}

} // verus!
