//! The vertex-identity solver.
//!
//! A face corner is identified by its `VertexKey`: the triple of its
//! position index, optional texture-coordinate index, and optional normal
//! index (absent indices act as sentinels, so a corner that falls back to
//! the computed face normal never collides with a corner that names a
//! normal explicitly). The solver walks the corners in triangle order,
//! assigns each distinct key the next output index in first-seen order,
//! and emits unified position, texture-coordinate and normal arrays of
//! equal length together with the flat index list — three indices per
//! triangle.
//!
//! The output is pinned down exactly by two spec functions: `firsts` (the
//! corners that introduce a new key, in order) and `find_key` (the output
//! index assigned to a key).

use vstd::prelude::*;

verus! {

use crate::obj_parser::ObjData;
use crate::obj_parser::Triangle;
use crate::obj_parser::tri_wf;

/// The dedup key of one face corner: exact equality of the three index
/// components, never spatial proximity.
#[derive(Clone, Copy, Debug)]
pub struct VertexKey {
    pub p: usize,
    pub uv: Option<usize>,
    pub nm: Option<usize>,
}

/// One corner of the flattened corner sequence: its key and the attribute
/// values (position, texture coordinate, normal) it resolves to.
pub ghost struct Corner {
    pub key: VertexKey,
    pub val: ([u32; 3], [u32; 3], [u32; 3]),
}

/// The key of corner `i` of triangle `t`.
pub open spec fn corner_key(t: Triangle, i: int) -> VertexKey {
    VertexKey {
        p: t.points[i],
        uv: match t.textures {
            Some(tx) => Some(tx[i]),
            None => None,
        },
        nm: match t.normals {
            Some(ns) => Some(ns[i]),
            None => None,
        },
    }
}

/// The attribute values corner `i` of triangle `t` resolves to: a corner
/// without a texture coordinate gets the zero vector, and a corner without
/// an explicit normal gets the triangle's computed face normal.
pub open spec fn corner_value(d: ObjData, t: Triangle, i: int) -> ([u32; 3], [u32; 3], [u32; 3]) {
    (
        d.vs[t.points[i] as int],
        match t.textures {
            Some(tx) => d.vts[tx[i] as int],
            None => [0u32, 0u32, 0u32],
        },
        match t.normals {
            Some(ns) => d.vns[ns[i] as int],
            None => d.calc[t.calculated_normal as int],
        },
    )
}

/// The corners of all triangles, flattened in triangle order: corner `j`
/// is corner `j % 3` of triangle `j / 3`.
pub open spec fn corners_of(d: ObjData) -> Seq<Corner> {
    Seq::new(
        (3 * d.tris.len()) as nat,
        |j: int| Corner { key: corner_key(d.tris[j / 3], j % 3), val: corner_value(d, d.tris[j / 3], j % 3) },
    )
}

/// Whether some corner of `s` carries key `k`.
pub open spec fn key_in(s: Seq<Corner>, k: VertexKey) -> bool {
    exists|j: int| 0 <= j < s.len() && s[j].key == k
}

/// The corners that introduce a new key, in first-seen order: one entry
/// per distinct key, carrying the attribute values of the first corner
/// that used it. These are exactly the unified vertices the solver emits.
pub open spec fn firsts(s: Seq<Corner>) -> Seq<Corner>
    decreases s.len(),
{
    if s.len() == 0 {
        Seq::empty()
    } else {
        let prev = firsts(s.drop_last());
        if key_in(s.drop_last(), s.last().key) {
            prev
        } else {
            prev.push(s.last())
        }
    }
}

/// The index of the first entry of `f` carrying key `k` (or `f.len()` when
/// no entry does): the output index the solver assigns to `k`.
pub open spec fn find_key(f: Seq<Corner>, k: VertexKey) -> int
    decreases f.len(),
{
    if f.len() == 0 {
        0
    } else if f[0].key == k {
        0
    } else {
        1 + find_key(f.drop_first(), k)
    }
}

/// No two entries carry the same key.
pub open spec fn distinct_keys(f: Seq<Corner>) -> bool {
    forall|a: int, b: int| 0 <= a < b < f.len() ==> f[a].key != f[b].key
}

/// A key occurs among the deduplicated corners exactly when it occurs in
/// the corner sequence.
pub proof fn lemma_firsts_keys(s: Seq<Corner>, k: VertexKey)
    ensures
        key_in(firsts(s), k) <==> key_in(s, k),
    decreases s.len(),
{
    if s.len() > 0 {
        lemma_firsts_keys(s.drop_last(), k);
        let prev = firsts(s.drop_last());
        if key_in(s.drop_last(), s.last().key) {
            // firsts(s) == prev
            if key_in(s, k) {
                let j = choose|j: int| 0 <= j < s.len() && s[j].key == k;
                if j == s.len() - 1 {
                    assert(key_in(s.drop_last(), k));  // via the witness for s.last().key == k
                } else {
                    assert(s.drop_last()[j] == s[j]);
                    assert(key_in(s.drop_last(), k));
                }
            }
            if key_in(s.drop_last(), k) {
                let j = choose|j: int| 0 <= j < s.drop_last().len() && s.drop_last()[j].key == k;
                assert(s[j] == s.drop_last()[j]);
                assert(key_in(s, k));
            }
        } else {
            // firsts(s) == prev.push(s.last())
            if key_in(s, k) {
                let j = choose|j: int| 0 <= j < s.len() && s[j].key == k;
                if j == s.len() - 1 {
                    assert(firsts(s)[firsts(s).len() - 1].key == k);
                    assert(key_in(firsts(s), k));
                } else {
                    assert(s.drop_last()[j] == s[j]);
                    assert(key_in(s.drop_last(), k));
                    let v = choose|v: int| 0 <= v < prev.len() && prev[v].key == k;
                    assert(firsts(s)[v] == prev[v]);
                    assert(key_in(firsts(s), k));
                }
            }
            if key_in(firsts(s), k) {
                let v = choose|v: int| 0 <= v < firsts(s).len() && firsts(s)[v].key == k;
                if v == firsts(s).len() - 1 {
                    assert(s[s.len() - 1].key == k);
                    assert(key_in(s, k));
                } else {
                    assert(prev[v] == firsts(s)[v]);
                    assert(key_in(prev, k));
                    let j = choose|j: int| 0 <= j < s.drop_last().len() && s.drop_last()[j].key == k;
                    assert(s[j] == s.drop_last()[j]);
                    assert(key_in(s, k));
                }
            }
        }
    }
}

/// Deduplicated corners carry pairwise distinct keys.
pub proof fn lemma_firsts_distinct(s: Seq<Corner>)
    ensures
        distinct_keys(firsts(s)),
    decreases s.len(),
{
    if s.len() > 0 {
        lemma_firsts_distinct(s.drop_last());
        let prev = firsts(s.drop_last());
        if !key_in(s.drop_last(), s.last().key) {
            lemma_firsts_keys(s.drop_last(), s.last().key);
            assert(!key_in(prev, s.last().key));
            assert forall|a: int, b: int| 0 <= a < b < firsts(s).len() implies firsts(s)[a].key
                != firsts(s)[b].key by {
                if b < prev.len() {
                    assert(firsts(s)[a] == prev[a] && firsts(s)[b] == prev[b]);
                } else {
                    assert(firsts(s)[a] == prev[a]);
                    assert(firsts(s)[b] == s.last());
                    assert(prev[a].key == s.last().key ==> key_in(prev, s.last().key));
                }
            }
        }
    }
}

/// `find_key` finds an entry whenever the key occurs.
pub proof fn lemma_find_key_works(f: Seq<Corner>, k: VertexKey)
    requires
        key_in(f, k),
    ensures
        0 <= find_key(f, k) < f.len(),
        f[find_key(f, k)].key == k,
    decreases f.len(),
{
    if f[0].key == k {
    } else {
        let j = choose|j: int| 0 <= j < f.len() && f[j].key == k;
        assert(f.drop_first()[j - 1] == f[j]);
        assert(key_in(f.drop_first(), k));
        lemma_find_key_works(f.drop_first(), k);
        assert(f[find_key(f, k)] == f.drop_first()[find_key(f.drop_first(), k)]);
    }
}

/// Under distinct keys, `find_key` inverts indexing.
pub proof fn lemma_find_key_first(f: Seq<Corner>, i: int)
    requires
        0 <= i < f.len(),
        distinct_keys(f),
    ensures
        find_key(f, f[i].key) == i,
    decreases f.len(),
{
    if i > 0 {
        assert(f[0].key != f[i].key);
        assert(distinct_keys(f.drop_first())) by {
            assert forall|a: int, b: int|
                0 <= a < b < f.drop_first().len() implies f.drop_first()[a].key
                != f.drop_first()[b].key by {
                assert(f.drop_first()[a] == f[a + 1] && f.drop_first()[b] == f[b + 1]);
            }
        }
        assert(f.drop_first()[i - 1] == f[i]);
        lemma_find_key_first(f.drop_first(), i - 1);
    }
}

/// Appending a corner leaves the index of every present key unchanged, and
/// assigns the appended corner's key the next index when it is new.
pub proof fn lemma_find_key_push(f: Seq<Corner>, c: Corner, k: VertexKey)
    ensures
        key_in(f, k) ==> find_key(f.push(c), k) == find_key(f, k),
        !key_in(f, k) && c.key == k ==> find_key(f.push(c), k) == f.len(),
    decreases f.len(),
{
    if f.len() == 0 {
        assert(f.push(c)[0] == c);
    } else {
        assert(f.push(c)[0] == f[0]);
        assert(f.push(c).drop_first() =~= f.drop_first().push(c));
        lemma_find_key_push(f.drop_first(), c, k);
        if f[0].key != k {
            if key_in(f, k) {
                let j = choose|j: int| 0 <= j < f.len() && f[j].key == k;
                assert(f.drop_first()[j - 1] == f[j]);
                assert(key_in(f.drop_first(), k));
            }
            if !key_in(f, k) {
                assert forall|j: int| 0 <= j < f.drop_first().len() implies f.drop_first()[j].key
                    != k by {
                    assert(f.drop_first()[j] == f[j + 1]);
            }
            }
        }
    }
}

/// One entry of the solver's find-or-insert table: a key and the output
/// index assigned to it.
#[derive(Clone, Copy, Debug)]
pub struct VertBinding {
    pub key: VertexKey,
    pub idx: usize,
}

/// Whether two optional indices are the same.
fn opt_eq(a: Option<usize>, b: Option<usize>) -> (r: bool)
    ensures
        r == (a == b),
{
    match (a, b) {
        (None, None) => true,
        (Some(x), Some(y)) => x == y,
        _ => false,
    }
}

/// Whether two keys agree on all three components.
fn key_eq(a: &VertexKey, b: &VertexKey) -> (r: bool)
    ensures
        r == (*a == *b),
{
    a.p == b.p && opt_eq(a.uv, b.uv) && opt_eq(a.nm, b.nm)
}

/// Find the binding for `key`, or insert a fresh one mapping it to `idx`.
/// Returns whether the key was already bound, and its output index: the
/// index of the first entry carrying the key.
pub fn binding_find(binding: &mut Vec<VertBinding>, idx: usize, key: VertexKey) -> (r: (bool, usize))
    ensures
        ({
            let b = old(binding)@;
            if exists|bi: int| 0 <= bi < b.len() && b[bi].key == key {
                &&& r.0
                &&& exists|bi: int|
                    #![auto]
                    {
                        &&& 0 <= bi < b.len()
                        &&& b[bi].key == key
                        &&& r.1 == b[bi].idx
                        &&& forall|j: int| 0 <= j < bi ==> (#[trigger] b[j]).key != key
                    }
                &&& final(binding)@ == b
            } else {
                &&& !r.0
                &&& r.1 == idx
                &&& final(binding)@ == b.push(VertBinding { key, idx })
            }
        }),
{
    let n = binding.len();
    let mut bi: usize = 0;
    while bi < n
        invariant
            bi <= n,
            n == binding@.len(),
            *binding == *old(binding),
            forall|j: int| 0 <= j < bi ==> binding@[j].key != key,
        decreases n - bi,
    {
        let cand = binding[bi];
        if key_eq(&cand.key, &key) {
            return (true, cand.idx);
        }
        bi += 1;
    }
    binding.push(VertBinding { key, idx });
    (false, idx)
}

/// The parse state assembled from the five raw views.
pub open spec fn data_view(
    vs: Seq<[u32; 3]>,
    vts: Seq<[u32; 3]>,
    vns: Seq<[u32; 3]>,
    calc: Seq<[u32; 3]>,
    tris: Seq<Triangle>,
) -> ObjData {
    ObjData { vs, vts, vns, calc, tris }
}

/// What the solver guarantees of its four outputs: the unified arrays are
/// the values of the first-seen corners, one entry per distinct key, and
/// the index list maps every corner to the index its key was assigned.
pub open spec fn solved(
    d: ObjData,
    ovp: Seq<[u32; 3]>,
    ouv: Seq<[u32; 3]>,
    onm: Seq<[u32; 3]>,
    of: Seq<usize>,
) -> bool {
    let cs = corners_of(d);
    let f = firsts(cs);
    &&& ovp.len() == f.len()
    &&& ouv.len() == f.len()
    &&& onm.len() == f.len()
    &&& forall|v: int| 0 <= v < f.len() ==> #[trigger] ovp[v] == f[v].val.0
    &&& forall|v: int| 0 <= v < f.len() ==> #[trigger] ouv[v] == f[v].val.1
    &&& forall|v: int| 0 <= v < f.len() ==> #[trigger] onm[v] == f[v].val.2
    &&& of.len() == cs.len()
    &&& forall|j: int| 0 <= j < cs.len() ==> #[trigger] of[j] == find_key(f, cs[j].key)
}

/// The solver loop's state after `m` corners: the outputs describe the
/// first `m` corners exactly, and the find-or-insert table mirrors the
/// deduplicated corners entry for entry.
pub open spec fn solver_inv(
    d: ObjData,
    m: int,
    binding: Seq<VertBinding>,
    ovp: Seq<[u32; 3]>,
    ouv: Seq<[u32; 3]>,
    onm: Seq<[u32; 3]>,
    of: Seq<usize>,
) -> bool {
    let cs = corners_of(d);
    let f = firsts(cs.take(m));
    &&& 0 <= m <= cs.len()
    &&& ovp.len() == f.len()
    &&& ouv.len() == f.len()
    &&& onm.len() == f.len()
    &&& forall|v: int| 0 <= v < f.len() ==> #[trigger] ovp[v] == f[v].val.0
    &&& forall|v: int| 0 <= v < f.len() ==> #[trigger] ouv[v] == f[v].val.1
    &&& forall|v: int| 0 <= v < f.len() ==> #[trigger] onm[v] == f[v].val.2
    &&& binding.len() == f.len()
    &&& forall|v: int|
        0 <= v < f.len() ==> (#[trigger] binding[v]).key == f[v].key && binding[v].idx == v
    &&& of.len() == m
    &&& forall|j: int| 0 <= j < m ==> #[trigger] of[j] == find_key(f, cs[j].key)
}

/// Process corner `i` of triangle `ti`: look its key up, append its output
/// index, and emit a fresh unified vertex when the key is new.
#[verifier::rlimit(30)]
fn emit_corner(
    pos: &Vec<[u32; 3]>,
    uvs: &Vec<[u32; 3]>,
    normals: &Vec<[u32; 3]>,
    calc: &Vec<[u32; 3]>,
    faces: &Vec<Triangle>,
    ti: usize,
    i: usize,
    binding: &mut Vec<VertBinding>,
    out_vp: &mut Vec<[u32; 3]>,
    out_uv: &mut Vec<[u32; 3]>,
    out_nm: &mut Vec<[u32; 3]>,
    out_faces: &mut Vec<usize>,
)
    requires
        ti < faces@.len(),
        i < 3,
        tri_wf(
            faces@[ti as int],
            pos@.len() as int,
            uvs@.len() as int,
            normals@.len() as int,
            calc@.len() as int,
        ),
        solver_inv(
            data_view(pos@, uvs@, normals@, calc@, faces@),
            3 * ti + i,
            old(binding)@,
            old(out_vp)@,
            old(out_uv)@,
            old(out_nm)@,
            old(out_faces)@,
        ),
    ensures
        solver_inv(
            data_view(pos@, uvs@, normals@, calc@, faces@),
            3 * ti + i + 1,
            final(binding)@,
            final(out_vp)@,
            final(out_uv)@,
            final(out_nm)@,
            final(out_faces)@,
        ),
{
    let ghost d = data_view(pos@, uvs@, normals@, calc@, faces@);
    let ghost cs = corners_of(d);
    let ghost m = 3 * ti + i;
    let ghost f = firsts(cs.take(m as int));
    let t = faces[ti];
    proof {
        assert(m / 3 == ti && m % 3 == i) by (nonlinear_arith)
            requires
                m == 3 * ti + i,
                0 <= i < 3,
                0 <= ti,
        ;
        assert(m < cs.len());
    }
    let key = VertexKey {
        p: t.points[i],
        uv: match t.textures {
            Some(tx) => Some(tx[i]),
            None => None,
        },
        nm: match t.normals {
            Some(ns) => Some(ns[i]),
            None => None,
        },
    };
    proof {
        assert(cs[m as int].key == key);
        assert(cs.take(m + 1).drop_last() =~= cs.take(m as int));
        assert(cs.take(m + 1).last() == cs[m as int]);
        lemma_firsts_keys(cs.take(m as int), key);
    }
    let (found, out_idx) = binding_find(binding, out_vp.len(), key);
    if found {
        proof {
            let bi = choose|bi: int|
                0 <= bi < f.len() && f[bi].key == key && out_idx == binding@[bi].idx;
            assert(key_in(f, key));
            assert(key_in(cs.take(m as int), key));
            assert(firsts(cs.take(m + 1)) == f);
            lemma_firsts_distinct(cs.take(m as int));
            lemma_find_key_first(f, bi);
            assert(out_idx == find_key(f, cs[m as int].key));
        }
        out_faces.push(out_idx);
    } else {
        proof {
            assert(!key_in(f, key)) by {
                assert(forall|bi: int| 0 <= bi < f.len() ==> (#[trigger] binding@[bi]).key != key);
                assert forall|bi: int| 0 <= bi < f.len() implies #[trigger] f[bi].key != key by {
                    assert(binding@[bi].key == f[bi].key);
                }
            }
            assert(!key_in(cs.take(m as int), key));
            assert(firsts(cs.take(m + 1)) == f.push(cs[m as int]));
            lemma_find_key_push(f, cs[m as int], key);
            assert(find_key(firsts(cs.take(m + 1)), key) == f.len());
        }
        out_faces.push(out_idx);
        let p_val = pos[t.points[i]];
        let uv_val: [u32; 3] = match t.textures {
            Some(tx) => uvs[tx[i]],
            None => [0u32, 0u32, 0u32],
        };
        let nm_val: [u32; 3] = match t.normals {
            Some(ns) => normals[ns[i]],
            None => calc[t.calculated_normal],
        };
        proof {
            assert(cs[m as int].val == corner_value(d, d.tris[ti as int], i as int));
            assert((p_val, uv_val, nm_val) == cs[m as int].val);
        }
        out_vp.push(p_val);
        out_uv.push(uv_val);
        out_nm.push(nm_val);
    }
    proof {
        let f2 = firsts(cs.take(m + 1));
        assert forall|j: int| 0 <= j < m + 1 implies #[trigger] out_faces@[j] == find_key(
            f2,
            cs[j].key,
        ) by {
            if j < m {
                assert(out_faces@[j] == find_key(f, cs[j].key));
                assert(cs.take(m as int)[j] == cs[j]);
                assert(key_in(cs.take(m as int), cs[j].key));
                if !found {
                    lemma_firsts_keys(cs.take(m as int), cs[j].key);
                    lemma_find_key_push(f, cs[m as int], cs[j].key);
                }
            } else {
                assert(out_faces@[j] == out_idx);
            }
        }
        assert(0 <= m + 1 <= cs.len());
        assert(out_vp@.len() == f2.len());
        assert(out_uv@.len() == f2.len());
        assert(out_nm@.len() == f2.len());
        assert(forall|v: int| 0 <= v < f2.len() ==> #[trigger] out_vp@[v] == f2[v].val.0);
        assert(forall|v: int| 0 <= v < f2.len() ==> #[trigger] out_uv@[v] == f2[v].val.1);
        assert(forall|v: int| 0 <= v < f2.len() ==> #[trigger] out_nm@[v] == f2[v].val.2);
        assert(binding@.len() == f2.len());
        assert(forall|v: int|
            0 <= v < f2.len() ==> (#[trigger] binding@[v]).key == f2[v].key && binding@[v].idx
                == v);
        assert(out_faces@.len() == m + 1);
    }
}

/// Deduplicate the face corners and emit the unified attribute arrays and
/// the flat index list, three indices per triangle in triangle order.
pub fn solve_indices(
    pos: &Vec<[u32; 3]>,
    uvs: &Vec<[u32; 3]>,
    normals: &Vec<[u32; 3]>,
    calc: &Vec<[u32; 3]>,
    faces: &Vec<Triangle>,
) -> (r: (Vec<[u32; 3]>, Vec<[u32; 3]>, Vec<[u32; 3]>, Vec<usize>))
    requires
        forall|j: int|
            0 <= j < faces@.len() ==> tri_wf(
                #[trigger] faces@[j],
                pos@.len() as int,
                uvs@.len() as int,
                normals@.len() as int,
                calc@.len() as int,
            ),
    ensures
        solved(data_view(pos@, uvs@, normals@, calc@, faces@), r.0@, r.1@, r.2@, r.3@),
{
    let ghost d = data_view(pos@, uvs@, normals@, calc@, faces@);
    let ghost cs = corners_of(d);
    let mut binding: Vec<VertBinding> = Vec::new();
    let mut out_vp: Vec<[u32; 3]> = Vec::new();
    let mut out_uv: Vec<[u32; 3]> = Vec::new();
    let mut out_nm: Vec<[u32; 3]> = Vec::new();
    let mut out_faces: Vec<usize> = Vec::new();
    proof {
        assert(cs.take(0) =~= Seq::<Corner>::empty());
    }
    let n = faces.len();
    let mut ti: usize = 0;
    while ti < n
        invariant
            ti <= n,
            n == faces@.len(),
            forall|j: int|
                0 <= j < faces@.len() ==> tri_wf(
                    #[trigger] faces@[j],
                    pos@.len() as int,
                    uvs@.len() as int,
                    normals@.len() as int,
                    calc@.len() as int,
                ),
            solver_inv(
                data_view(pos@, uvs@, normals@, calc@, faces@),
                3 * ti as int,
                binding@,
                out_vp@,
                out_uv@,
                out_nm@,
                out_faces@,
            ),
        decreases n - ti,
    {
        let mut i: usize = 0;
        while i < 3
            invariant
                i <= 3,
                ti < n,
                n == faces@.len(),
                forall|j: int|
                    0 <= j < faces@.len() ==> tri_wf(
                        #[trigger] faces@[j],
                        pos@.len() as int,
                        uvs@.len() as int,
                        normals@.len() as int,
                        calc@.len() as int,
                    ),
                solver_inv(
                    data_view(pos@, uvs@, normals@, calc@, faces@),
                    3 * ti + i,
                    binding@,
                    out_vp@,
                    out_uv@,
                    out_nm@,
                    out_faces@,
                ),
            decreases 3 - i,
        {
            emit_corner(
                pos,
                uvs,
                normals,
                calc,
                faces,
                ti,
                i,
                &mut binding,
                &mut out_vp,
                &mut out_uv,
                &mut out_nm,
                &mut out_faces,
            );
            i += 1;
        }
        ti += 1;
    }
    proof {
        assert(cs.take(3 * n as int) =~= cs);
    }
    (out_vp, out_uv, out_nm, out_faces)
}

/// Dedup correctness: two corners of one mesh resolve to the same output
/// index exactly when their keys are equal.
pub proof fn lemma_dedup_correct(d: ObjData, j1: int, j2: int)
    requires
        0 <= j1 < corners_of(d).len(),
        0 <= j2 < corners_of(d).len(),
    ensures
        (corners_of(d)[j1].key == corners_of(d)[j2].key) <==> (find_key(
            firsts(corners_of(d)),
            corners_of(d)[j1].key,
        ) == find_key(firsts(corners_of(d)), corners_of(d)[j2].key)),
{
    let cs = corners_of(d);
    let f = firsts(cs);
    assert(key_in(cs, cs[j1].key));
    assert(key_in(cs, cs[j2].key));
    lemma_firsts_keys(cs, cs[j1].key);
    lemma_firsts_keys(cs, cs[j2].key);
    lemma_find_key_works(f, cs[j1].key);
    lemma_find_key_works(f, cs[j2].key);
}

/// Index bounds: every index the solver emits lies inside the unified
/// vertex arrays.
pub proof fn lemma_index_bounds(d: ObjData, j: int)
    requires
        0 <= j < corners_of(d).len(),
    ensures
        0 <= find_key(firsts(corners_of(d)), corners_of(d)[j].key) < firsts(corners_of(d)).len(),
{
    let cs = corners_of(d);
    assert(key_in(cs, cs[j].key));
    lemma_firsts_keys(cs, cs[j].key);
    lemma_find_key_works(firsts(cs), cs[j].key);
}

} // verus!
