//! Byte images of geometry and instance data, as handed to GPU buffers:
//! little-endian, tightly packed, in array order.

use vstd::prelude::*;
use vstd::bytes::spec_u16_to_le_bytes;
use vstd::bytes::spec_u32_to_le_bytes;
use vstd::bytes::u16_to_le_bytes;

verus! {

use crate::material::push_u32_le;

/// The little-endian bytes of one 3-component vector.
pub open spec fn spec_vec3_bytes(v: [u32; 3]) -> Seq<u8> {
    spec_u32_to_le_bytes(v[0]) + spec_u32_to_le_bytes(v[1]) + spec_u32_to_le_bytes(v[2])
}

/// The little-endian bytes of a vector array, in order.
pub open spec fn spec_vertices_bytes(s: Seq<[u32; 3]>) -> Seq<u8>
    decreases s.len(),
{
    if s.len() == 0 {
        Seq::empty()
    } else {
        spec_vertices_bytes(s.drop_last()) + spec_vec3_bytes(s.last())
    }
}

/// The little-endian bytes of an index array, two bytes per index.
pub open spec fn spec_indices_bytes(s: Seq<u16>) -> Seq<u8>
    decreases s.len(),
{
    if s.len() == 0 {
        Seq::empty()
    } else {
        spec_indices_bytes(s.drop_last()) + spec_u16_to_le_bytes(s.last())
    }
}

/// The first `k` components of a transform, as little-endian bytes.
pub open spec fn spec_transform_bytes_upto(m: [u32; 16], k: int) -> Seq<u8>
    decreases k,
{
    if k <= 0 {
        Seq::empty()
    } else {
        spec_transform_bytes_upto(m, k - 1) + spec_u32_to_le_bytes(m[k - 1])
    }
}

/// The little-endian bytes of a transform array, sixty-four bytes per
/// column-major matrix.
pub open spec fn spec_matrices_bytes(s: Seq<[u32; 16]>) -> Seq<u8>
    decreases s.len(),
{
    if s.len() == 0 {
        Seq::empty()
    } else {
        spec_matrices_bytes(s.drop_last()) + spec_transform_bytes_upto(s.last(), 16)
    }
}

/// The byte image of a vector array.
pub fn vertices_as_bytes_copy(data: &Vec<[u32; 3]>) -> (r: Vec<u8>)
    ensures
        r@ == spec_vertices_bytes(data@),
{
    let mut out: Vec<u8> = Vec::new();
    let n = data.len();
    let mut i: usize = 0;
    while i < n
        invariant
            i <= n,
            n == data@.len(),
            out@ == spec_vertices_bytes(data@.take(i as int)),
        decreases n - i,
    {
        proof {
            assert(data@.take(i + 1).drop_last() =~= data@.take(i as int));
            assert(data@.take(i + 1).last() == data@[i as int]);
        }
        let v = data[i];
        push_u32_le(&mut out, v[0]);
        push_u32_le(&mut out, v[1]);
        push_u32_le(&mut out, v[2]);
        proof {
            assert(out@ =~= spec_vertices_bytes(data@.take(i + 1)));
        }
        i += 1;
    }
    proof {
        assert(data@.take(n as int) =~= data@);
    }
    out
}

/// The byte image of an index array.
pub fn indices_as_bytes_copy(data: &Vec<u16>) -> (r: Vec<u8>)
    ensures
        r@ == spec_indices_bytes(data@),
{
    let mut out: Vec<u8> = Vec::new();
    let n = data.len();
    let mut i: usize = 0;
    while i < n
        invariant
            i <= n,
            n == data@.len(),
            out@ == spec_indices_bytes(data@.take(i as int)),
        decreases n - i,
    {
        proof {
            assert(data@.take(i + 1).drop_last() =~= data@.take(i as int));
            assert(data@.take(i + 1).last() == data@[i as int]);
        }
        let mut bytes = u16_to_le_bytes(data[i]);
        out.append(&mut bytes);
        proof {
            assert(out@ =~= spec_indices_bytes(data@.take(i + 1)));
        }
        i += 1;
    }
    proof {
        assert(data@.take(n as int) =~= data@);
    }
    out
}

/// The byte image of a transform array.
pub fn matrices_as_bytes_copy(data: &Vec<[u32; 16]>) -> (r: Vec<u8>)
    ensures
        r@ == spec_matrices_bytes(data@),
{
    let mut out: Vec<u8> = Vec::new();
    let n = data.len();
    let mut i: usize = 0;
    while i < n
        invariant
            i <= n,
            n == data@.len(),
            out@ == spec_matrices_bytes(data@.take(i as int)),
        decreases n - i,
    {
        proof {
            assert(data@.take(i + 1).drop_last() =~= data@.take(i as int));
            assert(data@.take(i + 1).last() == data@[i as int]);
        }
        let m = data[i];
        let mut k: usize = 0;
        while k < 16
            invariant
                k <= 16,
                m == data@[i as int],
                i < n,
                n == data@.len(),
                out@ == spec_matrices_bytes(data@.take(i as int)) + spec_transform_bytes_upto(
                    m,
                    k as int,
                ),
            decreases 16 - k,
        {
            push_u32_le(&mut out, m[k]);
            k += 1;
        }
        proof {
            assert(out@ =~= spec_matrices_bytes(data@.take(i + 1)));
        }
        i += 1;
    }
    proof {
        assert(data@.take(n as int) =~= data@);
    }
    out
}

} // verus!
