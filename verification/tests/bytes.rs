use rend_ox::buffers::indices_as_bytes_copy;
use rend_ox::buffers::matrices_as_bytes_copy;
use rend_ox::buffers::vertices_as_bytes_copy;
use rend_ox::material::MaterialData;
use rend_ox::material::ONE_BITS;

#[test]
fn vertex_bytes_are_packed_little_endian() {
    let data = vec![[1.0f32.to_bits(), 2.0f32.to_bits(), 3.0f32.to_bits()]];
    let bytes = vertices_as_bytes_copy(&data);
    let mut expected: Vec<u8> = Vec::new();
    for v in [1.0f32, 2.0, 3.0] {
        expected.extend(v.to_le_bytes());
    }
    assert_eq!(bytes, expected);
}

#[test]
fn index_bytes_are_two_per_index() {
    let data: Vec<u16> = vec![0, 1, 0x1234];
    let bytes = indices_as_bytes_copy(&data);
    assert_eq!(bytes, vec![0u8, 0, 1, 0, 0x34, 0x12]);
}

#[test]
fn matrix_bytes_are_sixty_four_per_transform() {
    let m = glam::Mat4::IDENTITY.to_cols_array().map(f32::to_bits);
    let bytes = matrices_as_bytes_copy(&vec![m, m]);
    assert_eq!(bytes.len(), 128);
    let mut expected: Vec<u8> = Vec::new();
    for c in glam::Mat4::IDENTITY.to_cols_array() {
        expected.extend(c.to_le_bytes());
    }
    assert_eq!(&bytes[0..64], expected.as_slice());
    assert_eq!(&bytes[64..128], expected.as_slice());
}

#[test]
fn material_bytes_match_the_float_image() {
    let m = MaterialData::new();
    let bytes = m.as_bytes_copy();
    assert_eq!(bytes.len(), 64);
    let mut expected: Vec<u8> = Vec::new();
    for v in [
        1.0f32, 1.0, 1.0, 1.0, // color: opaque white
        1.0, 1.0, 1.0, 0.5, // specular
        0.0, 0.0, 0.0, 0.0, // spare
        0.0, 0.0, 0.0, 0.0, // spare
    ] {
        expected.extend(v.to_le_bytes());
    }
    assert_eq!(bytes, expected);
}

#[test]
fn diffuse_material_keeps_its_color() {
    let red = [1.0f32.to_bits(), 0.0f32.to_bits(), 0.0f32.to_bits(), 1.0f32.to_bits()];
    let m = MaterialData::diffuse(red);
    assert_eq!(m.color, red);
    assert_eq!(m.specular, [ONE_BITS, ONE_BITS, ONE_BITS, 0.5f32.to_bits()]);
    assert_eq!(ONE_BITS, 1.0f32.to_bits());
}

#[test]
fn rend_error_keeps_its_message() {
    let e = rend_ox::error::RendError::new("graphics module borrowed");
    assert_eq!(e.message(), "graphics module borrowed");
}
